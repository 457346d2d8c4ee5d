//! Configuration values and the places where files live.
//!
//! Paths are Unix paths held as strings.

use vstd::prelude::*;

use crate::strmap::StrMap;
use crate::text;

verus! {

/// Template configuration written on first run. Placeholders only: fill in your
/// own bastions, services, and ssh tunnels at ~/.config/moleman/config.toml.
pub const DEFAULT_CONFIG: &'static str = r#"# moleman configuration
# Region used for all AWS calls and tunnels.
region = "us-east-1"

# Directory where ssh PEM keys live (gitignored, never committed). Relative
# paths sit next to this config file; bare filenames in `pem = ...` entries
# resolve against it. Absolute or ~/ paths are used as-is.
pem_dir = "pems"

[services]
# ECS/Cloud Map services are discovered live from Cloud Map; this profile +
# bastion are what the discovery and port-forward calls run against.
profile = "default"
bastion = "i-REPLACE_WITH_YOUR_BASTION"
# Local ports discovered services not listed below are assigned from here, upward.
auto_port_base = 8009
# If Cloud Map discovery returns nothing (e.g. expired SSO), these names are
# shown so the group is never empty.
fallback = []

# Conventional local port per known service, e.g.:
#   my-service = 8000
[services.ports]

[rds]
# Local ports for RDS tunnels are auto-assigned from here, upward.
local_port_base = 5433

# Bastion to tunnel through, keyed by the profile's sso-session name. RDS
# instances are discovered live per profile; the chosen one is tunneled through
# the bastion that matches that profile's account, e.g.:
#   dev = "i-REPLACE_WITH_YOUR_DEV_BASTION"
#   prod = "i-REPLACE_WITH_YOUR_PROD_BASTION"
[rds.bastions]

# Hosts reached over plain ssh -L (not an AWS resource type we can enumerate)
# are listed explicitly, e.g.:
#   [[temporal]]
#   name = "temporal-dev"
#   local_port = 8081
#   pem = "your-bastion-key.pem"   # resolved against pem_dir
#   elb_host = "internal-your-elb.us-east-1.elb.amazonaws.com"
#   remote_port = 80
#   ec2_host = "203.0.113.10"
#   ec2_user = "ec2-user"
"#;

/// The dashboard's configuration.
#[derive(Debug, Clone)]
pub struct Config {
    pub region: String,
    pub pem_dir: String,
    /// Directory the config file was loaded from; anchors relative `pem_dir`.
    pub config_dir: String,
    pub services: ServicesCfg,
    pub rds: RdsCfg,
    pub temporal: Vec<TemporalCfg>,
}

/// Where services are discovered, and which local ports they get.
#[derive(Debug, Clone)]
pub struct ServicesCfg {
    pub profile: String,
    pub bastion: String,
    pub auto_port_base: u16,
    pub ports: StrMap<u16>,
    pub fallback: Vec<String>,
}

/// Which local ports databases get, and the bastion for each SSO session.
#[derive(Debug, Clone)]
pub struct RdsCfg {
    pub local_port_base: u16,
    pub bastions: StrMap<String>,
}

/// One tunnel over plain ssh.
#[derive(Debug, Clone)]
pub struct TemporalCfg {
    pub name: String,
    pub local_port: u16,
    pub pem: String,
    pub elb_host: String,
    pub remote_port: u16,
    pub ec2_host: String,
    pub ec2_user: String,
}

/// The first local port for services where none is configured.
pub fn default_service_port_base() -> (r: u16)
    ensures
        r == 8009,
{
    8009
}

/// The first local port for databases where none is configured.
pub fn default_rds_port_base() -> (r: u16)
    ensures
        r == 5433,
{
    5433
}

/// The ssh user where none is configured.
pub fn default_ec2_user() -> (r: String)
    ensures
        r@ == "ec2-user"@,
{
    "ec2-user".to_string()
}

/// The key directory where none is configured.
pub fn default_pem_dir() -> (r: String)
    ensures
        r@ == "pems"@,
{
    "pems".to_string()
}

/// A path that starts at the root.
pub open spec fn absolute(path: Seq<char>) -> bool {
    path.len() > 0 && path[0] == '/'
}

/// Whether a path starts at the root.
pub fn is_absolute(path: &str) -> (r: bool)
    ensures
        r == absolute(path@),
{
    path.unicode_len() > 0 && path.get_char(0) == '/'
}

/// `rest` below `base`: an absolute `rest` stands for itself, and one separator
/// is put between the two where `base` does not end in one.
pub open spec fn below(base: Seq<char>, rest: Seq<char>) -> Seq<char> {
    if absolute(rest) {
        rest
    } else if base.len() == 0 || base.last() == '/' {
        base + rest
    } else {
        base + "/"@ + rest
    }
}

/// The path `rest` taken from the directory `base`.
pub fn join_path(base: &str, rest: &str) -> (r: String)
    ensures
        r@ == below(base@, rest@),
{
    if is_absolute(rest) {
        return rest.to_owned();
    }
    let n: usize = base.unicode_len();
    let mut r = base.to_owned();
    if n > 0 && base.get_char(n - 1) != '/' {
        r.append("/");
    }
    r.append(rest);
    r
}

/// The home directory: `HOME` where it is set, else the current directory.
pub open spec fn home_of(var: Option<Seq<char>>) -> Seq<char> {
    match var {
        Some(home) => home,
        None => "."@,
    }
}

/// The home directory, given the value of `HOME`.
pub fn home_dir(var: &Option<String>) -> (r: String)
    ensures
        r@ == home_of(text::opt_view(*var)),
{
    match var {
        Some(home) => home.clone(),
        None => ".".to_string(),
    }
}

/// The directory of the user-wide configuration.
pub open spec fn user_config_dir(xdg: Option<Seq<char>>, home: Seq<char>) -> Seq<char> {
    below(
        match xdg {
            Some(base) => base,
            None => below(home, ".config"@),
        },
        "moleman"@,
    )
}

/// The directory of the user-wide configuration, given the value of
/// `XDG_CONFIG_HOME`.
pub fn user_config_directory(xdg: &Option<String>, home: &str) -> (r: String)
    ensures
        r@ == user_config_dir(text::opt_view(*xdg), home@),
{
    match xdg {
        Some(base) => join_path(base.as_str(), "moleman"),
        None => join_path(join_path(home, ".config").as_str(), "moleman"),
    }
}

/// The config file: a `config.toml` in the current directory wins; otherwise it
/// is the one in the user-wide directory.
pub open spec fn config_file(local: bool, xdg: Option<Seq<char>>, home: Seq<char>) -> Seq<char> {
    if local {
        "config.toml"@
    } else {
        below(user_config_dir(xdg, home), "config.toml"@)
    }
}

/// The config file, given whether the current directory has a `config.toml` and
/// the value of `XDG_CONFIG_HOME`.
pub fn config_path(local: bool, xdg: &Option<String>, home: &str) -> (r: String)
    ensures
        r@ == config_file(local, text::opt_view(*xdg), home@),
{
    if local {
        return "config.toml".to_string();
    }
    join_path(user_config_directory(xdg, home).as_str(), "config.toml")
}

/// The directory of the config file; `current_dir` where the file lies there.
pub open spec fn config_dir_of(
    local: bool,
    xdg: Option<Seq<char>>,
    home: Seq<char>,
    current_dir: Seq<char>,
) -> Seq<char> {
    if local {
        current_dir
    } else {
        user_config_dir(xdg, home)
    }
}

/// The directory of the config file.
pub fn config_directory(local: bool, xdg: &Option<String>, home: &str, current_dir: &str) -> (r:
    String)
    ensures
        r@ == config_dir_of(local, text::opt_view(*xdg), home@, current_dir@),
{
    if local {
        return current_dir.to_owned();
    }
    user_config_directory(xdg, home)
}

/// A path with a leading `~/`, or a lone `~`, replaced by the home directory.
pub open spec fn expanded(path: Seq<char>, home: Seq<char>) -> Seq<char> {
    match text::after_prefix(path, "~/"@) {
        Some(rest) => below(home, rest),
        None => if path == "~"@ {
            home
        } else {
            path
        },
    }
}

/// Expands a leading `~/` to the user's home directory.
pub fn expand_tilde(path: &str, home: &str) -> (r: String)
    ensures
        r@ == expanded(path@, home@),
{
    match text::strip_prefix(path, "~/") {
        Some(rest) => join_path(home, rest.as_str()),
        None => if text::str_eq(path, "~") {
            home.to_owned()
        } else {
            path.to_owned()
        },
    }
}

/// The AWS SSO token cache directory.
pub open spec fn token_cache(home: Seq<char>) -> Seq<char> {
    below(below(below(home, ".aws"@), "sso"@), "cache"@)
}

/// The AWS SSO token cache directory.
pub fn sso_cache_dir(home: &str) -> (r: String)
    ensures
        r@ == token_cache(home@),
{
    join_path(join_path(join_path(home, ".aws").as_str(), "sso").as_str(), "cache")
}

/// The AWS shared config file: `AWS_CONFIG_FILE` where it is set, else
/// `.aws/config` in the home directory.
pub open spec fn aws_config_file(var: Option<Seq<char>>, home: Seq<char>) -> Seq<char> {
    match var {
        Some(path) => path,
        None => below(below(home, ".aws"@), "config"@),
    }
}

/// The AWS shared config file, given the value of `AWS_CONFIG_FILE`.
pub fn aws_config_path(var: &Option<String>, home: &str) -> (r: String)
    ensures
        r@ == aws_config_file(text::opt_view(*var), home@),
{
    match var {
        Some(path) => path.clone(),
        None => join_path(join_path(home, ".aws").as_str(), "config"),
    }
}

/// What `std::path::Path::strip_prefix` leaves of `path`; `None` where `base` is
/// no prefix of it.
pub uninterp spec fn path_below(path: Seq<char>, base: Seq<char>) -> Option<Seq<char>>;

/// The names on a path: what stands between its separators, without the empty
/// pieces and without `.`.
pub open spec fn path_names(path: Seq<char>) -> Seq<Seq<char>> {
    text::cut(path, '/').filter(|piece: Seq<char>| piece.len() > 0 && piece != "."@)
}

/// The path begins with a `.` of its own.
pub open spec fn dotted(path: Seq<char>) -> bool {
    text::cut(path, '/')[0] == "."@
}

/// Equal as paths, component by component: repeated and trailing separators do
/// not count, nor does a `.` but at the beginning.
pub open spec fn same_path(a: Seq<char>, b: Seq<char>) -> bool {
    &&& absolute(a) == absolute(b)
    &&& dotted(a) == dotted(b)
    &&& path_names(a) == path_names(b)
}

/// `std::path::Path::strip_prefix`, a function of the two paths alone. What it
/// leaves, joined onto `base`, yields a path equal to `path`; equal as paths
/// are, by their components.
#[verifier::external_body]
fn strip_path_prefix(path: &str, base: &str) -> (r: Option<String>)
    ensures
        text::opt_view(r) == path_below(path@, base@),
        r matches Some(rest) ==> same_path(below(base@, rest@), path@),
{
    match std::path::Path::new(path).strip_prefix(base) {
        Ok(rest) => Some(rest.display().to_string()),
        Err(_) => None,
    }
}

/// How a path is shown when `rest` of it lies below the home directory.
pub open spec fn shown(path: Seq<char>, rest: Option<Seq<char>>) -> Seq<char> {
    match rest {
        Some(rest) => "~/"@ + rest,
        None => path,
    }
}

/// A path as it is shown when `rest` of it lies below the home directory.
pub fn home_relative(path: &str, rest: &Option<String>) -> (r: String)
    ensures
        r@ == shown(path@, text::opt_view(*rest)),
{
    match rest {
        Some(rest) => {
            let mut r = "~/".to_string();
            r.append(rest.as_str());
            r
        },
        None => path.to_owned(),
    }
}

/// Renders a path home-relative (`~/...`) for compact display. Expanding it
/// gives the path back.
pub fn display_path(path: &str, home: &str) -> (r: String)
    ensures
        r@ == shown(path@, path_below(path@, home@)),
        (path@.len() > 0 ==> path@[0] != '~') ==> same_path(expanded(r@, home@), path@),
{
    let rest = strip_path_prefix(path, home);
    proof {
        if path@.len() > 0 ==> path@[0] != '~' {
            law_expanding_undoes_the_display(path@, text::opt_view(rest), home@);
        }
    }
    home_relative(path, &rest)
}

impl Config {
    /// The key directory: a relative one lies next to the config file.
    pub open spec fn key_dir(&self, home: Seq<char>) -> Seq<char> {
        below(self.config_dir@, expanded(self.pem_dir@, home))
    }

    /// Where the key `pem` lies: a value that starts with `~` or `/` is a path of
    /// its own, any other lies in the key directory.
    pub open spec fn key_path(&self, pem: Seq<char>, home: Seq<char>) -> Seq<char> {
        if pem.len() > 0 && (pem[0] == '~' || pem[0] == '/') {
            expanded(pem, home)
        } else {
            below(self.key_dir(home), pem)
        }
    }

    /// Resolves a `pem` config value to a path: bare filenames land in `pem_dir`
    /// (the untracked key folder); anything starting with `~` or `/` is a path of
    /// its own. `pem_dir` itself, when relative, sits next to the config file.
    pub fn resolve_pem(&self, pem: &str, home: &str) -> (r: String)
        ensures
            r@ == self.key_path(pem@, home@),
    {
        if pem.unicode_len() > 0 && (pem.get_char(0) == '~' || pem.get_char(0) == '/') {
            expand_tilde(pem, home)
        } else {
            join_path(self.pem_dir_path(home).as_str(), pem)
        }
    }

    /// `pem_dir` as a path; relative values anchor at the config directory.
    pub fn pem_dir_path(&self, home: &str) -> (r: String)
        ensures
            r@ == self.key_dir(home@),
    {
        let dir = expand_tilde(self.pem_dir.as_str(), home);
        join_path(self.config_dir.as_str(), dir.as_str())
    }

    /// With an absolute home and config directory every key path is absolute
    /// but for a value like `~name`, which is taken as it stands.
    pub proof fn law_key_paths_are_absolute(&self, pem: Seq<char>, home: Seq<char>)
        requires
            absolute(home),
            absolute(self.config_dir@),
            pem.len() > 0 && pem[0] == '~' ==> pem == "~"@ || text::has_prefix(pem, "~/"@),
        ensures
            absolute(self.key_dir(home)),
            absolute(self.key_path(pem, home)),
    {
    }

    /// A bare key name lies in the key directory, and a key directory that is
    /// neither absolute nor below the home directory lies next to the config file.
    pub proof fn law_bare_keys_lie_in_the_key_dir(&self, pem: Seq<char>, home: Seq<char>)
        requires
            pem.len() > 0 ==> pem[0] != '~' && pem[0] != '/',
            self.pem_dir@.len() > 0 ==> self.pem_dir@[0] != '~',
        ensures
            self.key_path(pem, home) == below(below(self.config_dir@, self.pem_dir@), pem),
    {
        reveal_strlit("~/");
        reveal_strlit("~");
        assert(!text::has_prefix(self.pem_dir@, "~/"@)) by {
            if self.pem_dir@.len() >= 2 {
                assert(self.pem_dir@.take(2)[0] == self.pem_dir@[0]);
            }
        }
    }
}

/// The config file lies in the directory that anchors relative paths.
pub proof fn law_config_file_lies_in_its_dir(
    xdg: Option<Seq<char>>,
    home: Seq<char>,
    current_dir: Seq<char>,
)
    ensures
        config_file(false, xdg, home) == below(
            config_dir_of(false, xdg, home, current_dir),
            "config.toml"@,
        ),
        config_file(true, xdg, home) == "config.toml"@,
        config_dir_of(true, xdg, home, current_dir) == current_dir,
{
}

/// Expanding undoes the home-relative display: whatever is shown, below the home
/// directory or as it stands, expands to the path again. A path that looks
/// home-relative itself is left out.
pub proof fn law_expanding_undoes_the_display(
    path: Seq<char>,
    rest: Option<Seq<char>>,
    home: Seq<char>,
)
    requires
        path.len() > 0 ==> path[0] != '~',
        rest matches Some(rest) ==> same_path(below(home, rest), path),
    ensures
        same_path(expanded(shown(path, rest), home), path),
        rest matches Some(rest) ==> expanded(shown(path, Some(rest)), home) == below(home, rest),
        rest is None ==> expanded(shown(path, rest), home) == path,
{
    reveal_strlit("~/");
    reveal_strlit("~");
    match rest {
        Some(rest) => {
            let s = "~/"@ + rest;
            assert(s.take(2) =~= "~/"@);
            assert(s.skip(2) =~= rest);
        },
        None => {
            if path.len() >= 2 {
                assert(path.take(2)[0] == path[0]);
            }
        },
    }
}

} // verus!
