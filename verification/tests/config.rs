use moleman::config::{self, Config, RdsCfg, ServicesCfg};
use moleman::strmap::StrMap;
use std::path::{Path, PathBuf};

fn sample(pem_dir: &str, config_dir: &str) -> Config {
    Config {
        region: "us-east-1".to_string(),
        pem_dir: pem_dir.to_string(),
        config_dir: config_dir.to_string(),
        services: ServicesCfg {
            profile: "default".to_string(),
            bastion: "i-1".to_string(),
            auto_port_base: config::default_service_port_base(),
            ports: StrMap::new(),
            fallback: Vec::new(),
        },
        rds: RdsCfg { local_port_base: config::default_rds_port_base(), bastions: StrMap::new() },
        temporal: Vec::new(),
    }
}

#[test]
fn defaults() {
    assert_eq!(config::default_service_port_base(), 8009);
    assert_eq!(config::default_rds_port_base(), 5433);
    assert_eq!(config::default_ec2_user(), "ec2-user");
    assert_eq!(config::default_pem_dir(), "pems");
    assert!(config::DEFAULT_CONFIG.starts_with("# moleman configuration\n"));
    assert!(config::DEFAULT_CONFIG.contains("auto_port_base = 8009"));
}

#[test]
fn paths_join_as_std_joins_them() {
    for base in ["/home/u", "/home/u/", "", "rel", "/", "a/b/"] {
        for rest in ["x", "/abs", "", "a/b", "x/"] {
            let std: PathBuf = Path::new(base).join(rest);
            assert_eq!(config::join_path(base, rest), std.to_str().unwrap(), "{base:?} {rest:?}");
        }
        assert_eq!(config::is_absolute(base), Path::new(base).is_absolute());
    }
}

#[test]
fn where_the_config_file_is() {
    let none: Option<String> = None;
    assert_eq!(config::config_path(true, &none, "/home/u"), "config.toml");
    assert_eq!(config::config_path(false, &none, "/home/u"), "/home/u/.config/moleman/config.toml");
    let xdg = Some("/etc/xdg".to_string());
    assert_eq!(config::config_path(false, &xdg, "/home/u"), "/etc/xdg/moleman/config.toml");
    assert_eq!(config::config_directory(false, &xdg, "/home/u", "/cwd"), "/etc/xdg/moleman");
    assert_eq!(config::config_directory(true, &xdg, "/home/u", "/cwd"), "/cwd");
}

#[test]
fn the_config_file_lies_in_its_directory() {
    let xdg = Some("/etc/xdg".to_string());
    let dir = config::config_directory(false, &xdg, "/home/u", "/cwd");
    assert_eq!(config::join_path(&dir, "config.toml"), config::config_path(false, &xdg, "/home/u"));
}

#[test]
fn home_and_its_paths() {
    assert_eq!(config::home_dir(&Some("/home/u".to_string())), "/home/u");
    assert_eq!(config::home_dir(&None), ".");
    assert_eq!(config::expand_tilde("~/keys", "/home/u"), "/home/u/keys");
    assert_eq!(config::expand_tilde("~", "/home/u"), "/home/u");
    assert_eq!(config::expand_tilde("~other/keys", "/home/u"), "~other/keys");
    assert_eq!(config::expand_tilde("keys", "/home/u"), "keys");
    assert_eq!(config::sso_cache_dir("/home/u"), "/home/u/.aws/sso/cache");
    assert_eq!(config::aws_config_path(&None, "/home/u"), "/home/u/.aws/config");
    assert_eq!(config::aws_config_path(&Some("/tmp/c".to_string()), "/home/u"), "/tmp/c");
}

#[test]
fn paths_are_shown_relative_to_home() {
    assert_eq!(config::display_path("/home/u/.config/moleman/config.toml", "/home/u"), "~/.config/moleman/config.toml");
    assert_eq!(config::display_path("/home/user2/x", "/home/u"), "/home/user2/x");
    assert_eq!(config::display_path("config.toml", "/home/u"), "config.toml");
}

#[test]
fn bare_keys_lie_in_the_key_directory() {
    let c = sample("pems", "/etc/xdg/moleman");
    assert_eq!(c.pem_dir_path("/home/u"), "/etc/xdg/moleman/pems");
    assert_eq!(c.resolve_pem("k.pem", "/home/u"), "/etc/xdg/moleman/pems/k.pem");
    assert_eq!(c.resolve_pem("sub/k.pem", "/home/u"), "/etc/xdg/moleman/pems/sub/k.pem");
    let c = sample("~/keys", "/etc/xdg/moleman");
    assert_eq!(c.resolve_pem("k.pem", "/home/u"), "/home/u/keys/k.pem");
    let c = sample("/keys", "/etc/xdg/moleman");
    assert_eq!(c.resolve_pem("k.pem", "/home/u"), "/keys/k.pem");
}

#[test]
fn keys_with_a_path_are_used_as_they_are() {
    let c = sample("pems", "/etc/xdg/moleman");
    assert_eq!(c.resolve_pem("~/k.pem", "/home/u"), "/home/u/k.pem");
    assert_eq!(c.resolve_pem("/abs/k.pem", "/home/u"), "/abs/k.pem");
}

#[test]
fn expanding_undoes_the_display() {
    for path in ["/home/u/.config/moleman/config.toml", "/home/u/x", "/etc/x", "config.toml", ""] {
        assert_eq!(config::expand_tilde(&config::display_path(path, "/home/u"), "/home/u"), path);
    }
    let paths = ["/home/u//x", "/home/u/./x/", "/home/./u/x", "/", ".", "./a", "a/b/.", "..", "", "/home/u", "//home/u/a"];
    for home in ["/home/u", "/home/u/", "/home//u/.", "/", "", ".", "./", "a", "/."] {
        for path in paths {
            let back = config::expand_tilde(&config::display_path(path, home), home);
            assert_eq!(Path::new(&back), Path::new(path), "{home:?}");
        }
    }
}

#[test]
fn configurations_can_be_copied() {
    let mut c = sample("pems", "/cfg");
    c.rds.bastions.insert("b".to_string(), "i-b".to_string());
    c.rds.bastions.insert("a".to_string(), "i-a".to_string());
    let d = c.clone();
    c.rds.bastions.remove("a");
    assert_eq!(d.rds.bastions.keys(), vec!["a".to_string(), "b".to_string()]);
    assert_eq!(d.rds.bastions.get("a"), Some(&"i-a".to_string()));
    assert_eq!(d.pem_dir, "pems");
}
