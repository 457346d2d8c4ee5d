//! What holds of the places where files live.

use vstd::prelude::*;

use crate::config;
use crate::config::Config;
use crate::laws::strings;
use crate::text;

verus! {

/// A path taken from a directory: an absolute one stands for itself, any other
/// comes behind the directory and exactly one separator of its own.
pub proof fn law_joins(base: Seq<char>, rest: Seq<char>)
    ensures
        rest.len() > 0 && rest[0] == '/' ==> config::below(base, rest) == rest,
        !(rest.len() > 0 && rest[0] == '/') ==> {
            &&& base.len() == 0 ==> config::below(base, rest) == rest
            &&& base.len() > 0 && base.last() == '/' ==> config::below(base, rest) == base + rest
            &&& base.len() > 0 && base.last() != '/' ==> config::below(base, rest) == base.push('/')
                + rest
        },
        config::absolute(rest) <==> rest.len() > 0 && rest[0] == '/',
{
    reveal_strlit("/");
    assert(base + "/"@ =~= base.push('/'));
    assert(Seq::<char>::empty() + rest =~= rest);
    if base.len() == 0 {
        assert(base + rest =~= rest);
    }
}

/// A directory as one writes it, without a separator at its end.
pub open spec fn plain_dir(dir: Seq<char>) -> bool {
    dir.len() > 0 && dir.last() != '/'
}

/// The config file is the one in the current directory where there is one, else
/// the one in `moleman` below the user's config directory, which is the one that
/// is set or else `.config` in the home directory.
pub proof fn law_config_files(
    xdg: Seq<char>,
    home: Seq<char>,
    other_xdg: Option<Seq<char>>,
    current_dir: Seq<char>,
)
    requires
        plain_dir(xdg),
        plain_dir(home),
    ensures
        config::config_file(true, other_xdg, home) == "config.toml"@,
        config::config_dir_of(true, other_xdg, home, current_dir) == current_dir,
        config::config_file(false, Some(xdg), home) == xdg + "/"@ + "moleman"@ + "/"@
            + "config.toml"@,
        config::config_dir_of(false, Some(xdg), home, current_dir) == xdg + "/"@ + "moleman"@,
        config::config_file(false, None, home) == home + "/"@ + ".config"@ + "/"@ + "moleman"@
            + "/"@ + "config.toml"@,
        config::config_dir_of(false, None, home, current_dir) == home + "/"@ + ".config"@ + "/"@
            + "moleman"@,
        config::user_config_dir(None, home) == home + "/"@ + ".config"@ + "/"@ + "moleman"@,
        config::user_config_dir(Some(xdg), home) == xdg + "/"@ + "moleman"@,
{
    reveal_strlit("/");
    reveal_strlit("moleman");
    reveal_strlit(".config");
    reveal_strlit("config.toml");
    assert((home + "/"@ + ".config"@).last() == 'g');
    assert((home + "/"@ + ".config"@ + "/"@ + "moleman"@).last() == 'n');
    assert((xdg + "/"@ + "moleman"@).last() == 'n');
}

/// The AWS config file is the one that is set, else `.aws/config` in the home
/// directory, and the token cache is `.aws/sso/cache` there.
pub proof fn law_aws_files(set: Seq<char>, home: Seq<char>)
    requires
        plain_dir(home),
    ensures
        config::aws_config_file(Some(set), home) == set,
        config::aws_config_file(None, home) == home + "/"@ + ".aws"@ + "/"@ + "config"@,
        config::token_cache(home) == home + "/"@ + ".aws"@ + "/"@ + "sso"@ + "/"@ + "cache"@,
        config::home_of(Some(home)) == home,
        config::home_of(None) == "."@,
{
    reveal_strlit("/");
    reveal_strlit(".aws");
    reveal_strlit("config");
    reveal_strlit("sso");
    reveal_strlit("cache");
    assert((home + "/"@ + ".aws"@).last() == 's');
    assert((home + "/"@ + ".aws"@ + "/"@ + "sso"@).last() == 'o');
}

/// Only a leading `~/`, or a lone `~`, stands for the home directory.
pub proof fn law_tildes(path: Seq<char>, rest: Seq<char>, home: Seq<char>)
    ensures
        path == seq!['~', '/'] + rest ==> config::expanded(path, home) == config::below(home, rest),
        path == seq!['~'] ==> config::expanded(path, home) == home,
        path != seq!['~'] && !(path.len() >= 2 && path[0] == '~' && path[1] == '/')
            ==> config::expanded(path, home) == path,
{
    reveal_strlit("~/");
    reveal_strlit("~");
    assert("~/"@ =~= seq!['~', '/']);
    assert("~"@ =~= seq!['~']);
    strings::law_prefixes(path, "~/"@, rest);
    if let Some(tail) = text::after_prefix(path, "~/"@) {
        strings::law_prefixes(path, "~/"@, tail);
        assert(path[0] == '~' && path[1] == '/');
    }
    if path == seq!['~'] {
        assert(path.len() == 1);
        assert(!text::has_prefix(path, "~/"@));
    }
}

/// A key with a path of its own lies there; a bare name lies in the key
/// directory, which lies next to the config file unless it has a path of its own.
pub proof fn law_keys_lie_where_they_are_told(c: Config, pem: Seq<char>, home: Seq<char>)
    ensures
        pem.len() > 0 && pem[0] == '/' ==> c.key_path(pem, home) == pem,
        pem.len() > 0 && pem[0] == '~' ==> c.key_path(pem, home) == config::expanded(pem, home),
        !(pem.len() > 0 && (pem[0] == '/' || pem[0] == '~')) ==> c.key_path(pem, home)
            == config::below(c.key_dir(home), pem),
        c.key_dir(home) == config::below(c.config_dir@, config::expanded(c.pem_dir@, home)),
        c.pem_dir@.len() > 0 && c.pem_dir@[0] == '/' ==> c.key_dir(home) == c.pem_dir@,
{
    reveal_strlit("~/");
    reveal_strlit("~");
    law_tildes(pem, Seq::empty(), home);
    law_tildes(c.pem_dir@, Seq::empty(), home);
    if pem.len() > 0 && pem[0] == '/' {
        assert(pem != seq!['~']) by {
            assert(seq!['~'][0] == '~');
        }
    }
    if c.pem_dir@.len() > 0 && c.pem_dir@[0] == '/' {
        assert(c.pem_dir@ != seq!['~']) by {
            assert(seq!['~'][0] == '~');
        }
    }
}

/// A path below the home directory is shown by its rest behind `~/`, any other as
/// it stands.
pub proof fn law_display(path: Seq<char>, rest: Seq<char>)
    ensures
        config::shown(path, Some(rest)) == seq!['~', '/'] + rest,
        config::shown(path, None) == path,
{
    reveal_strlit("~/");
    assert("~/"@ =~= seq!['~', '/']);
}

} // verus!
