//! What holds of SSO sessions, their tokens, and the profiles that use them.

use vstd::prelude::*;

use crate::aws::profiles;
use crate::aws::profiles::AwsConfig;
use crate::aws::sso;
use crate::aws::sso::{TokenStatus, UnixTime};
use crate::json;
use crate::laws::strings;
use crate::text;

verus! {

// ---- tokens ----------------------------------------------------------------

/// The seconds from one point in time to another, where neither is a leap
/// second; what is left of a second does not count.
pub open spec fn seconds_left(expiry: UnixTime, now: UnixTime) -> int {
    (expiry.secs - now.secs) - (if expiry.nanos < now.nanos {
        1int
    } else {
        0
    })
}

/// The status of a token rests on the time that its document states as its
/// expiry, and on the time: expired from then on, expiring in the quarter of an
/// hour before, valid until then.
pub proof fn law_status_rests_on_the_expiry(
    file: Seq<char>,
    doc: json::JsonView,
    stated: Seq<char>,
    expiry: UnixTime,
    now: UnixTime,
)
    requires
        json::text_document(file) == Some(doc),
        doc.member("accessToken"@) is Some,
        doc.member("expiresAt"@) == Some(json::JsonView::Text(stated)),
        sso::rfc3339_instant(stated) == Some(expiry),
        expiry.nanos < 1_000_000_000,
        now.nanos < 1_000_000_000,
    ensures
        seconds_left(expiry, now) <= 0 ==> sso::scanned(Some(file), now) == TokenStatus::Expired,
        0 < seconds_left(expiry, now) < 900 ==> sso::scanned(Some(file), now)
            == TokenStatus::Expiring(seconds_left(expiry, now) as i64),
        seconds_left(expiry, now) >= 900 ==> sso::scanned(Some(file), now) == TokenStatus::Valid(
            seconds_left(expiry, now) as i64,
        ),
{
}

/// Two token documents that state the same expiry have the same status, whatever
/// else they hold.
pub proof fn law_nothing_else_in_a_token_counts(
    f: Seq<char>,
    g: Seq<char>,
    a: json::JsonView,
    b: json::JsonView,
    now: UnixTime,
)
    requires
        json::text_document(f) == Some(a),
        json::text_document(g) == Some(b),
        a.member("accessToken"@) is Some,
        b.member("accessToken"@) is Some,
        a.member("expiresAt"@) == b.member("expiresAt"@),
    ensures
        sso::scanned(Some(f), now) == sso::scanned(Some(g), now),
{
}

/// There is no token where there is no file, no document, no access token, or no
/// expiry that can be read.
pub proof fn law_no_token(file: Seq<char>, now: UnixTime)
    ensures
        sso::scanned(None, now) == TokenStatus::NoToken,
        json::text_document(file) is None ==> sso::scanned(Some(file), now)
            == TokenStatus::NoToken,
        json::text_document(file) matches Some(doc) ==> {
            &&& doc.member("accessToken"@) is None ==> sso::scanned(Some(file), now)
                == TokenStatus::NoToken
            &&& !(doc.member("expiresAt"@) is Some && doc.member("expiresAt"@)->0 is Text)
                ==> sso::scanned(Some(file), now) == TokenStatus::NoToken
            &&& doc.member("accessToken"@) is Some && (doc.member("expiresAt"@) matches Some(
                json::JsonView::Text(e),
            ) && sso::rfc3339_instant(e) is None) ==> sso::scanned(Some(file), now)
                == TokenStatus::NoToken
        },
{
}

/// Around leap seconds: the time to a later point is counted with the leap
/// second that lies between where the time of day tells so, and in whole seconds
/// towards zero.
pub proof fn law_time_between(end: UnixTime, start: UnixTime)
    ensures
        end.nanos < 1_000_000_000 && start.nanos < 1_000_000_000 ==> sso::nanos_between(
            end,
            start,
        ) == (end.secs - start.secs) * 1_000_000_000 + end.nanos - start.nanos,
        start.nanos >= 1_000_000_000 && end.nanos < 1_000_000_000 && end.secs % 86_400
            > start.secs % 86_400 ==> sso::nanos_between(end, start) == (end.secs - start.secs
            + 1) * 1_000_000_000 + end.nanos - start.nanos,
        end.nanos >= 1_000_000_000 && start.nanos < 1_000_000_000 && end.secs % 86_400
            < start.secs % 86_400 ==> sso::nanos_between(end, start) == (end.secs - start.secs
            - 1) * 1_000_000_000 + end.nanos - start.nanos,
        forall|n: int| n >= 0 ==> #[trigger] sso::whole_seconds(n) * 1_000_000_000 <= n
            && n < (sso::whole_seconds(n) + 1) * 1_000_000_000,
        forall|n: int| n < 0 ==> #[trigger] sso::whole_seconds(n) * 1_000_000_000 >= n
            && n > (sso::whole_seconds(n) - 1) * 1_000_000_000,
{
}

/// A token is cached below the home directory in a file that is named by the
/// digest of the session's name in UTF-8, digit for digit.
pub proof fn law_token_files(session: Seq<char>, home: Seq<char>)
    requires
        home.len() > 0,
        home.last() != '/',
    ensures
        sso::token_path(session, home) == home + "/"@ + ".aws"@ + "/"@ + "sso"@ + "/"@ + "cache"@
            + "/"@ + (text::hex_digits(
            sso::sha1_digest(vstd::utf8::encode_utf8(session)),
        ) + ".json"@),
{
    reveal_strlit(".aws");
    reveal_strlit("sso");
    reveal_strlit("cache");
    reveal_strlit("/");
    let digits = text::hex_digits(sso::sha1_digest(vstd::utf8::encode_utf8(session)));
    let name = digits + ".json"@;
    reveal_strlit(".json");
    assert(name.len() > 0 && name[0] != '/') by {
        let digest = sso::sha1_digest(vstd::utf8::encode_utf8(session));
        text::lemma_hex_length(digest);
        if digest.len() > 0 {
            strings::law_hexadecimal_bytes(digest, 0);
            assert(name[0] == digits[0]);
        } else {
            assert(name[0] == ".json"@[0]);
        }
    }
    let a = home + "/"@ + ".aws"@;
    assert(a.last() == 's');
    let b = a + "/"@ + "sso"@;
    assert(b.last() == 'o');
    let c = b + "/"@ + "cache"@;
    assert(c.last() == 'e');
}

/// A login names its session.
pub proof fn law_login_commands(session: Seq<char>)
    ensures
        sso::login_call(session) == seq!["sso"@, "login"@, "--sso-session"@, session],
{
}

// ---- profiles --------------------------------------------------------------

/// What a section of the config file says under a key.
pub open spec fn said(
    m: Map<Seq<char>, Map<Seq<char>, Option<Seq<char>>>>,
    section: Seq<char>,
    key: Seq<char>,
) -> Option<Seq<char>> {
    if m.contains_key(section) && m[section].contains_key(key) {
        m[section][key]
    } else {
        None
    }
}

/// The profile says what the section says.
pub open spec fn repeats(
    p: profiles::ProfileView,
    m: Map<Seq<char>, Map<Seq<char>, Option<Seq<char>>>>,
    section: Seq<char>,
) -> bool {
    &&& p.sso_session == said(m, section, "sso_session"@)
    &&& p.account_id == said(m, section, "sso_account_id"@)
    &&& p.role == said(m, section, "sso_role_name"@)
    &&& p.region == said(m, section, "region"@)
}

/// A loaded config has a profile for every section `[profile X]` and for
/// `[default]`, and no others, and each says what its own section says.
pub proof fn law_profiles_repeat_their_sections(
    m: Map<Seq<char>, Map<Seq<char>, Option<Seq<char>>>>,
    cfg: AwsConfig,
    name: Seq<char>,
    k: int,
)
    requires
        profiles::holds(m, cfg),
    ensures
        m.contains_key("profile "@ + name) ==> exists|i: int|
            0 <= i < cfg.profiles@.len() && (#[trigger] cfg.profiles@[i])@.name == name && repeats(
                cfg.profiles@[i]@,
                m,
                "profile "@ + name,
            ),
        m.contains_key("default"@) ==> exists|i: int|
            0 <= i < cfg.profiles@.len() && (#[trigger] cfg.profiles@[i])@.name == "default"@
                && repeats(cfg.profiles@[i]@, m, "default"@),
        0 <= k < cfg.profiles@.len() ==> {
            let p = cfg.profiles@[k]@;
            ||| m.contains_key("profile "@ + p.name) && repeats(p, m, "profile "@ + p.name)
            ||| p.name == "default"@ && m.contains_key("default"@) && repeats(p, m, "default"@)
        },
{
    let sections = choose|sections: Seq<profiles::SectionView>|
        profiles::sections_of(sections, m) && #[trigger] profiles::describes(sections, cfg);
    profiles::law_every_profile_is_listed(sections, m);
    let ps = profiles::profiles_view(cfg.profiles@);
    assert(ps == profiles::section_profiles(sections));
    if m.contains_key("profile "@ + name) {
        let p = profiles::ini_profile(m, "profile "@ + name, name);
        assert(profiles::section_profiles(sections).contains(p));
        let i = ps.index_of(p);
        assert(cfg.profiles@[i]@ == p);
    }
    if m.contains_key("default"@) {
        let p = profiles::ini_profile(m, "default"@, "default"@);
        let i = ps.index_of(p);
        assert(cfg.profiles@[i]@ == p);
    }
    if 0 <= k < cfg.profiles@.len() {
        assert(ps[k] == cfg.profiles@[k]@);
        assert(profiles::section_profiles(sections).contains(ps[k]));
    }
}

/// A loaded config knows the SSO session of every section `[sso-session X]`, and
/// no others, and each says what its own section says.
pub proof fn law_sessions_repeat_their_sections(
    m: Map<Seq<char>, Map<Seq<char>, Option<Seq<char>>>>,
    cfg: AwsConfig,
    name: Seq<char>,
)
    requires
        profiles::holds(m, cfg),
    ensures
        cfg.sessions@.contains_key(name) <==> m.contains_key("sso-session "@ + name),
        cfg.sessions@.contains_key(name) ==> {
            let s = cfg.sessions@[name];
            &&& s.name@ == name
            &&& text::opt_view(s.start_url) == said(m, "sso-session "@ + name, "sso_start_url"@)
            &&& text::opt_view(s.region) == said(m, "sso-session "@ + name, "sso_region"@)
        },
{
    let sections = choose|sections: Seq<profiles::SectionView>|
        profiles::sections_of(sections, m) && #[trigger] profiles::describes(sections, cfg);
    profiles::law_every_session_is_known(sections, m);
    let known = profiles::section_sessions(sections);
    assert(profiles::sessions_view(cfg.sessions@) == known);
    assert(known.contains_key(name) <==> cfg.sessions@.contains_key(name)) by {
        assert(profiles::sessions_view(cfg.sessions@).contains_key(name)
            <==> cfg.sessions@.contains_key(name));
    }
    if cfg.sessions@.contains_key(name) {
        assert(profiles::sessions_view(cfg.sessions@)[name] == cfg.sessions@[name]@);
    }
}

/// Profiles keep the order of their sections; a section is a profile's exactly
/// when it is `default` or begins with `profile `.
pub proof fn law_profiles_keep_their_order(
    a: Seq<profiles::SectionView>,
    b: Seq<profiles::SectionView>,
    section: profiles::SectionView,
)
    ensures
        profiles::section_profiles(a + b) == profiles::section_profiles(a)
            + profiles::section_profiles(b),
        profiles::section_profiles(seq![section]).len() == (if section.name == "default"@
            || "profile "@.is_prefix_of(section.name) {
            1int
        } else {
            0
        }),
    decreases b.len(),
{
    assert(seq![section].drop_last() =~= Seq::empty());
    assert(profiles::section_profiles(seq![section].drop_last()) =~= Seq::empty());
    if "profile "@.is_prefix_of(section.name) {
        assert(section.name.take("profile "@.len() as int) =~= "profile "@);
    }
    if let Some(rest) = text::after_prefix(section.name, "profile "@) {
        strings::law_prefixes(section.name, "profile "@, rest);
        assert("profile "@.is_prefix_of(section.name));
    }
    if b.len() == 0 {
        assert(a + b =~= a);
        assert(profiles::section_profiles(a) + profiles::section_profiles(b)
            =~= profiles::section_profiles(a));
    } else {
        law_profiles_keep_their_order(a, b.drop_last(), section);
        assert((a + b).drop_last() =~= a + b.drop_last());
        assert(profiles::section_profiles(a + b) =~= profiles::section_profiles(a)
            + profiles::section_profiles(b));
    }
}

/// One section more is one profile more where it is `[default]` or `[profile X]`,
/// with what the section says, and changes nothing of the others.
pub proof fn law_one_more_profile(
    sections: Seq<profiles::SectionView>,
    section: profiles::SectionView,
    name: Seq<char>,
)
    requires
        section.name == "profile "@ + name || section.name == "default"@ && name == "default"@,
    ensures
        ({
            let before = profiles::section_profiles(sections);
            let after = profiles::section_profiles(sections.push(section));
            &&& after.len() == before.len() + 1
            &&& after.drop_last() == before
            &&& after.last().name == name
            &&& after.last().sso_session == profiles::key_value(section.keys, "sso_session"@)
            &&& after.last().account_id == profiles::key_value(section.keys, "sso_account_id"@)
            &&& after.last().role == profiles::key_value(section.keys, "sso_role_name"@)
            &&& after.last().region == profiles::key_value(section.keys, "region"@)
        }),
{
    assert(sections.push(section).drop_last() =~= sections);
    strings::law_prefixes(section.name, "profile "@, name);
    if section.name == "profile "@ + name {
        reveal_strlit("profile ");
        reveal_strlit("default");
        assert(section.name[0] == 'p');
        assert("default"@[0] == 'd');
        assert(section.name != "default"@);
    }
    assert(profiles::section_profiles(sections.push(section)).drop_last()
        =~= profiles::section_profiles(sections));
}

/// One section `[sso-session X]` more says what that session is, whatever an
/// earlier one said of it, and changes nothing of the others.
pub proof fn law_one_more_session(
    sections: Seq<profiles::SectionView>,
    section: profiles::SectionView,
    name: Seq<char>,
    other: Seq<char>,
)
    requires
        section.name == "sso-session "@ + name,
        other != name,
    ensures
        ({
            let before = profiles::section_sessions(sections);
            let after = profiles::section_sessions(sections.push(section));
            &&& after.contains_key(name)
            &&& after[name].name == name
            &&& after[name].start_url == profiles::key_value(section.keys, "sso_start_url"@)
            &&& after[name].region == profiles::key_value(section.keys, "sso_region"@)
            &&& after.contains_key(other) <==> before.contains_key(other)
            &&& after.contains_key(other) ==> after[other] == before[other]
        }),
{
    assert(sections.push(section).drop_last() =~= sections);
    reveal_strlit("sso-session ");
    reveal_strlit("profile ");
    reveal_strlit("default");
    assert(section.name[0] == 's');
    assert("default"@[0] == 'd');
    assert("profile "@[0] == 'p');
    if let Some(rest) = text::after_prefix(section.name, "profile "@) {
        strings::law_prefixes(section.name, "profile "@, rest);
        assert(("profile "@ + rest)[0] == 'p');
    }
    strings::law_prefixes(section.name, "sso-session "@, name);
}

/// The value of a key is that of the first one of that name, if it has one.
pub proof fn law_values_of_keys(
    keys: Seq<(Seq<char>, Option<Seq<char>>)>,
    key: Seq<char>,
    i: int,
)
    requires
        0 <= i <= keys.len(),
        forall|j: int| 0 <= j < i ==> (#[trigger] keys[j]).0 != key,
        i < keys.len() ==> keys[i].0 == key,
    ensures
        profiles::key_value(keys, key) == (if i < keys.len() {
            keys[i].1
        } else {
            None
        }),
    decreases keys.len(),
{
    if keys.len() > 0 && i > 0 {
        let rest = keys.drop_first();
        assert(keys[0].0 != key);
        assert forall|j: int| 0 <= j < i - 1 implies (#[trigger] rest[j]).0 != key by {
            assert(rest[j] == keys[j + 1]);
        }
        law_values_of_keys(rest, key, i - 1);
    }
}

/// A config file that cannot be used is named, with the reason.
pub proof fn law_load_errors(path: Seq<char>, why: Seq<char>)
    ensures
        profiles::load_error(path, why) == "reading AWS config: parsing "@ + path
            + ": couldn't read "@ + path + ": "@ + why,
{
}

} // verus!
