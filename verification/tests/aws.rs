use moleman::aws::discovery::{self, ResolveAction, ResolveEvent};
use moleman::aws::profiles::{self, AwsConfig, ConfigFile, Section};
use moleman::aws::rds;
use moleman::aws::sso::{self, TokenStatus, UnixTime};
use moleman::aws::{self, CliOutput};
use moleman::json::Json;

fn ok(stdout: &str) -> CliOutput {
    CliOutput::Exited { success: true, stdout: stdout.as_bytes().to_vec(), stderr: Vec::new() }
}

fn failed(stderr: &[u8]) -> CliOutput {
    CliOutput::Exited { success: false, stdout: Vec::new(), stderr: stderr.to_vec() }
}

fn strings(list: &[&str]) -> Vec<String> {
    list.iter().map(|s| s.to_string()).collect()
}

#[test]
fn documents_are_read() {
    let j = Json::from_text(r#"{"a": [1, "x", null, {"b": true}], "n": 5432, "neg": -1, "f": 1.5, "big": 18446744073709551615}"#)
        .unwrap();
    assert_eq!(j.get_array("a").unwrap().len(), 4);
    assert_eq!(j.get_array("a").unwrap()[1].as_str(), Some(&"x".to_string()));
    assert!(j.get_array("a").unwrap()[3].get("b").is_some());
    assert_eq!(j.get("n").unwrap().as_u64(), Some(5432));
    assert_eq!(j.get("neg").unwrap().as_u64(), None);
    assert_eq!(j.get("f").unwrap().as_u64(), None);
    assert_eq!(j.get("big").unwrap().as_u64(), Some(u64::MAX));
    assert!(j.get("missing").is_none());
    assert!(j.get_array("a").unwrap()[0].get("a").is_none());
    assert!(j.get_str("n").is_none());
    assert!(j.as_array().is_none());
    assert!(Json::from_text("{").is_none());
    assert!(Json::from_text("").is_none());
    assert!(Json::from_bytes(b"[1,2]").is_some());
    assert!(Json::from_bytes(&[0xff, 0xfe]).is_none());
}

#[test]
fn a_repeated_field_keeps_its_last_value() {
    let j = Json::from_text(r#"{"a": "1", "a": "2"}"#).unwrap();
    assert_eq!(j.get_str("a"), Some(&"2".to_string()));
}

#[test]
fn calls_carry_region_profile_and_format() {
    assert_eq!(
        aws::command_line("dev", "us-east-1", &discovery::list_services_args()),
        strings(&[
            "servicediscovery", "list-services", "--region", "us-east-1", "--profile", "dev", "--output", "json"
        ])
    );
}

#[test]
fn the_last_line_of_an_error_says_most() {
    assert_eq!(aws::first_meaningful_line("\nfirst\n  second  \n\n"), "second");
    assert_eq!(aws::first_meaningful_line("  \n "), "");
    assert_eq!(aws::first_meaningful_line(""), "");
    for s in ["a", "a\r\nb\r\n", "\n\r\n", "x\n \t\ny \n\n", "\u{a0}z\u{2003}\n\r"] {
        let trimmed = s.trim();
        let wanted = trimmed.lines().rev().find(|l| !l.trim().is_empty()).unwrap_or(trimmed).trim();
        assert_eq!(aws::first_meaningful_line(s), wanted, "{s:?}");
    }
}

#[test]
fn replies_of_the_tool() {
    let args = strings(&["rds", "describe-db-clusters"]);
    assert_eq!(
        aws::run_json(&args, &CliOutput::NotRun).unwrap_err(),
        "failed to run the `aws` CLI — is it installed and on PATH?"
    );
    assert_eq!(
        aws::run_json(&args, &failed(b"\nToken has expired\n")).unwrap_err(),
        "aws rds describe-db-clusters: Token has expired"
    );
    assert_eq!(
        aws::run_json(&args, &ok("not json")).unwrap_err(),
        "aws returned output that was not valid JSON"
    );
    assert!(aws::run_json(&args, &ok("{}")).is_ok());
}

#[test]
fn broken_bytes_in_an_error_are_replaced() {
    assert_eq!(
        aws::run_json(&strings(&["x"]), &failed(b"caf\xc3\xa9 \xff!")).unwrap_err(),
        "aws x: café \u{fffd}!"
    );
}

const SERVICES: &str =
    r#"{"Services": [{"Name": "orders", "Id": "srv-1"}, {"Id": "srv-0"}, {"Name": "billing", "Id": "srv-2"}, {"Name": "bare"}]}"#;

#[test]
fn services_are_listed_by_name() {
    assert_eq!(discovery::list_services(&ok(SERVICES)).unwrap(), strings(&["orders", "billing", "bare"]));
    assert_eq!(discovery::list_services(&ok("{}")).unwrap(), strings(&[]));
    assert_eq!(discovery::list_services(&ok(r#"{"Services": 3}"#)).unwrap(), strings(&[]));
    assert_eq!(
        discovery::list_services(&failed(b"denied")).unwrap_err(),
        "aws servicediscovery list-services: denied"
    );
}

fn resolution(name: &str, services: CliOutput, instances: CliOutput) -> Result<(String, u16), String> {
    let mut event = ResolveEvent::Requested;
    let mut services = Some(services);
    let mut instances = Some(instances);
    loop {
        match discovery::resolve(name, event) {
            ResolveAction::Done(r) => return r,
            ResolveAction::ListServices => event = ResolveEvent::Services(services.take().unwrap()),
            ResolveAction::ListInstances { service_id } => {
                event = ResolveEvent::Instances { service_id, output: instances.take().unwrap() }
            }
        }
    }
}

#[test]
fn a_service_name_resolves_to_its_first_instance() {
    let instances = r#"{"Instances": [
        {"Attributes": {"AWS_INSTANCE_IPV4": "10.0.0.1", "AWS_INSTANCE_PORT": "8080"}},
        {"Attributes": {"AWS_INSTANCE_IPV4": "10.0.0.2", "AWS_INSTANCE_PORT": "8081"}}]}"#;
    assert_eq!(resolution("billing", ok(SERVICES), ok(instances)), Ok(("10.0.0.1".to_string(), 8080)));
    match discovery::resolve("billing", ResolveEvent::Services(ok(SERVICES))) {
        ResolveAction::ListInstances { service_id } => assert_eq!(service_id, "srv-2"),
        other => panic!("{other:?}"),
    }
    assert_eq!(
        discovery::list_instances_args("srv-2"),
        strings(&["servicediscovery", "list-instances", "--service-id", "srv-2"])
    );
}

#[test]
fn unhealthy_instances_are_passed_over() {
    let instances = r#"{"Instances": [
        {"Attributes": {"AWS_INSTANCE_IPV4": "10.0.0.1", "AWS_INSTANCE_PORT": "8080", "AWS_INIT_HEALTH_STATUS": "UNHEALTHY"}},
        {"Attributes": {"AWS_INSTANCE_IPV4": "10.0.0.2", "AWS_INSTANCE_PORT": "8081", "AWS_INIT_HEALTH_STATUS": "HEALTHY"}},
        {"Attributes": {"AWS_INSTANCE_IPV4": "10.0.0.3", "AWS_INSTANCE_PORT": "8082"}}]}"#;
    assert_eq!(resolution("billing", ok(SERVICES), ok(instances)), Ok(("10.0.0.2".to_string(), 8081)));
    let unstated = instances.replace("\"HEALTHY\"", "\"UNHEALTHY\"");
    assert_eq!(resolution("billing", ok(SERVICES), ok(&unstated)), Ok(("10.0.0.3".to_string(), 8082)));
    let none = r#"{"Instances": [
        {"Attributes": {"AWS_INSTANCE_IPV4": "10.0.0.1", "AWS_INSTANCE_PORT": "8080", "AWS_INIT_HEALTH_STATUS": "UNHEALTHY"}}]}"#;
    assert_eq!(
        resolution("billing", ok(SERVICES), ok(none)),
        Err("no healthy instances registered for 'billing'".to_string())
    );
    let bare = r#"{"Instances": [{"Id": "i-1"}, {"Attributes": {"AWS_INSTANCE_IPV4": "10.0.0.2", "AWS_INSTANCE_PORT": "8081"}}]}"#;
    assert_eq!(
        resolution("billing", ok(SERVICES), ok(bare)),
        Err("no healthy instances registered for 'billing'".to_string())
    );
}

#[test]
fn a_service_name_may_not_resolve() {
    assert_eq!(
        resolution("nope", ok(SERVICES), ok("{}")),
        Err("Cloud Map service 'nope' not found".to_string())
    );
    assert_eq!(
        resolution("bare", ok(SERVICES), ok("{}")),
        Err("Cloud Map service 'bare' not found".to_string())
    );
    assert_eq!(
        resolution("orders", ok(SERVICES), ok(r#"{"Instances": []}"#)),
        Err("no healthy instances registered for 'orders'".to_string())
    );
    assert_eq!(
        resolution("orders", ok(SERVICES), ok(r#"{"Instances": [{"Attributes": {"AWS_INSTANCE_IPV4": "10.0.0.1", "AWS_INSTANCE_PORT": "http"}}]}"#)),
        Err("instance for 'orders' missing IPv4/port attributes".to_string())
    );
    assert_eq!(
        resolution("orders", failed(b"no token"), ok("{}")),
        Err("aws servicediscovery list-services: no token".to_string())
    );
    assert_eq!(
        resolution("orders", ok(SERVICES), failed(b"no token")),
        Err("aws servicediscovery list-instances --service-id srv-1: no token".to_string())
    );
}

const CLUSTERS: &str = r#"{"DBClusters": [
    {"DBClusterIdentifier": "zeta", "Endpoint": "zeta.rds", "Port": 3306, "Engine": "aurora-mysql"},
    {"DBClusterIdentifier": "gone", "Endpoint": "", "Port": 1},
    {"DBClusterIdentifier": "beta", "Endpoint": "beta.rds", "Engine": "aurora-postgresql"}]}"#;

const INSTANCES: &str = r#"{"DBInstances": [
    {"DBInstanceIdentifier": "zeta-1", "DBClusterIdentifier": "zeta", "Endpoint": {"Address": "z1", "Port": 3306}},
    {"DBInstanceIdentifier": "alone", "Endpoint": {"Address": "alone.rds", "Port": 70000}, "Engine": "postgres"},
    {"DBInstanceIdentifier": "creating"}]}"#;

#[test]
fn databases_are_listed_by_identifier() {
    let found = rds::list(&ok(CLUSTERS), &ok(INSTANCES)).unwrap();
    let shown: Vec<(String, String, u16, String)> =
        found.into_iter().map(|i| (i.identifier, i.endpoint, i.port, i.engine)).collect();
    assert_eq!(
        shown,
        vec![
            ("alone".to_string(), "alone.rds".to_string(), 70000u32 as u16, "postgres".to_string()),
            ("beta".to_string(), "beta.rds".to_string(), 5432, "aurora-postgresql".to_string()),
            ("zeta".to_string(), "zeta.rds".to_string(), 3306, "aurora-mysql".to_string()),
        ]
    );
}

#[test]
fn databases_without_clusters_and_without_instances() {
    assert_eq!(rds::list(&failed(b"denied"), &ok(INSTANCES)).unwrap().len(), 1);
    assert_eq!(
        rds::list(&ok(CLUSTERS), &failed(b"denied")).unwrap_err(),
        "aws rds describe-db-instances: denied"
    );
    assert_eq!(rds::describe_clusters_args(), strings(&["rds", "describe-db-clusters"]));
    assert_eq!(rds::describe_instances_args(), strings(&["rds", "describe-db-instances"]));
}

#[test]
fn equal_identifiers_keep_their_order() {
    let clusters = r#"{"DBClusters": [
        {"DBClusterIdentifier": "b", "Endpoint": "1"},
        {"DBClusterIdentifier": "a", "Endpoint": "2"},
        {"DBClusterIdentifier": "b", "Endpoint": "3"}]}"#;
    let found = rds::list(&ok(clusters), &ok("{}")).unwrap();
    let ends: Vec<&str> = found.iter().map(|i| i.endpoint.as_str()).collect();
    assert_eq!(ends, vec!["2", "1", "3"]);
}

#[test]
fn token_files_are_named_by_digest() {
    assert_eq!(sso::token_file_name("dev"), "34c6fceca75e456f25e7e99531e2425c6c1de443.json");
    assert_eq!(sso::token_file_name("ünï"), "146f11febcba34ed0d0f8824d4d8a1b23c8480c7.json");
    assert_eq!(sso::token_file_name("").len(), 45);
    assert_eq!(sso::cache_file_name(&vec![0, 0xab]), "00ab.json");
}

#[test]
fn every_session_has_its_token_file() {
    let cfg = profiles::from_sections(&vec![
        Section { name: "sso-session my-sso".to_string(), keys: Vec::new() },
        Section { name: "sso-session dev".to_string(), keys: Vec::new() },
    ]);
    assert_eq!(
        sso::token_paths(&cfg, "/home/u"),
        strings(&[
            "/home/u/.aws/sso/cache/34c6fceca75e456f25e7e99531e2425c6c1de443.json",
            "/home/u/.aws/sso/cache/0ad374308c5a4e22f723adf10145eafad7c4031c.json",
        ])
    );
}

fn token(expires: &str) -> Option<String> {
    Some(format!(r#"{{"accessToken": "t", "expiresAt": "{expires}"}}"#))
}

const NOON: UnixTime = UnixTime { secs: 1714564800, nanos: 0 };

#[test]
fn tokens_are_valid_expiring_or_expired() {
    assert_eq!(sso::scan_session(&token("2024-05-01T15:12:00Z"), NOON), TokenStatus::Valid(11520));
    assert_eq!(sso::scan_session(&token("2024-05-01T12:15:00Z"), NOON), TokenStatus::Valid(900));
    assert_eq!(sso::scan_session(&token("2024-05-01T12:14:59Z"), NOON), TokenStatus::Expiring(899));
    assert_eq!(sso::scan_session(&token("2024-05-01T12:00:01Z"), NOON), TokenStatus::Expiring(1));
    assert_eq!(sso::scan_session(&token("2024-05-01T12:00:00Z"), NOON), TokenStatus::Expired);
    assert_eq!(sso::scan_session(&token("2020-01-01T00:00:00Z"), NOON), TokenStatus::Expired);
    assert_eq!(sso::scan_session(&token("2024-05-01T14:08:00+02:00"), NOON), TokenStatus::Expiring(480));
    let late = UnixTime { secs: NOON.secs, nanos: 500_000_000 };
    assert_eq!(sso::scan_session(&token("2024-05-01T12:00:01Z"), late), TokenStatus::Expired);
    assert_eq!(sso::scan_session(&token("2024-05-01T12:00:02Z"), late), TokenStatus::Expiring(1));
}

#[test]
fn files_without_a_usable_token() {
    for file in [
        None,
        Some("not json".to_string()),
        Some("{}".to_string()),
        Some(r#"{"expiresAt": "2030-01-01T00:00:00Z"}"#.to_string()),
        Some(r#"{"accessToken": "t"}"#.to_string()),
        Some(r#"{"accessToken": "t", "expiresAt": 5}"#.to_string()),
        token("tomorrow"),
    ] {
        assert_eq!(sso::scan_session(&file, NOON), TokenStatus::NoToken, "{file:?}");
    }
    let odd = Some(r#"{"accessToken": null, "expiresAt": "2024-05-01T12:10:00Z"}"#.to_string());
    assert_eq!(sso::scan_session(&odd, NOON), TokenStatus::Expiring(600));
}

#[test]
fn a_token_only_declines() {
    let file = token("2024-05-01T12:20:00Z");
    let at = |secs: i64| sso::scan_session(&file, UnixTime { secs: NOON.secs + secs, nanos: 0 });
    assert_eq!(at(0), TokenStatus::Valid(1200));
    assert_eq!(at(600), TokenStatus::Expiring(600));
    assert_eq!(at(1200), TokenStatus::Expired);
    assert_eq!(at(90000), TokenStatus::Expired);
    assert_eq!(sso::classify(900), TokenStatus::Valid(900));
    assert_eq!(sso::classify(899), TokenStatus::Expiring(899));
    assert_eq!(sso::classify(0), TokenStatus::Expired);
    assert_eq!(sso::classify(-5), TokenStatus::Expired);
}

#[test]
fn leap_seconds_count_once() {
    let expiry = Some(UnixTime { secs: 1_483_228_800, nanos: 0 });
    let leap = UnixTime { secs: 1_483_228_799, nanos: 1_000_000_000 };
    let before = UnixTime { secs: 1_483_228_799, nanos: 0 };
    assert_eq!(sso::expiry_status(expiry, before), TokenStatus::Expiring(1));
    assert_eq!(sso::expiry_status(expiry, leap), TokenStatus::Expired);
    assert_eq!(sso::expiry_status(None, before), TokenStatus::NoToken);
}

#[test]
fn login_command() {
    assert_eq!(sso::login("dev"), strings(&["sso", "login", "--sso-session", "dev"]));
}

const AWS_CONFIG: &str = "
[default]
region = us-east-1

[profile Dev-Admin]
sso_session = corp
sso_account_id = 123456789012
sso_role_name = AWSPowerUserAccess
region = eu-west-1

[sso-session corp]
sso_start_url = https://corp.awsapps.com/start
sso_region = us-east-1

[services s3]
x = y
";

#[test]
fn every_profile_and_session_is_read() {
    let cfg = profiles::load("/home/u/.aws/config", &ConfigFile::Text(AWS_CONFIG.to_string())).unwrap();
    let mut names: Vec<&str> = cfg.profiles.iter().map(|p| p.name.as_str()).collect();
    names.sort();
    assert_eq!(names, vec!["Dev-Admin", "default"]);
    let dev = cfg.profiles.iter().find(|p| p.name == "Dev-Admin").unwrap();
    assert_eq!(dev.sso_session.as_deref(), Some("corp"));
    assert_eq!(dev.account_id.as_deref(), Some("123456789012"));
    assert_eq!(dev.role.as_deref(), Some("AWSPowerUserAccess"));
    assert_eq!(dev.region.as_deref(), Some("eu-west-1"));
    let default = cfg.profiles.iter().find(|p| p.name == "default").unwrap();
    assert_eq!(default.sso_session, None);
    assert_eq!(default.region.as_deref(), Some("us-east-1"));
    assert_eq!(cfg.sessions.keys(), strings(&["corp"]));
    let corp = cfg.sessions.get("corp").unwrap();
    assert_eq!(corp.name, "corp");
    assert_eq!(corp.start_url.as_deref(), Some("https://corp.awsapps.com/start"));
    assert_eq!(corp.region.as_deref(), Some("us-east-1"));
}

#[test]
fn config_files_that_are_missing_or_broken() {
    let cfg = profiles::load("/x", &ConfigFile::Missing).unwrap();
    assert!(cfg.profiles.is_empty());
    assert_eq!(cfg.sessions.len(), 0);
    assert_eq!(AwsConfig::default().clone().sessions.keys(), cfg.sessions.keys());
    let e = profiles::load("/x", &ConfigFile::Unreadable("permission denied".to_string())).unwrap_err();
    assert_eq!(e, "reading AWS config: parsing /x: couldn't read /x: permission denied");
    let e = profiles::load("/x", &ConfigFile::Text("[broken".to_string())).unwrap_err();
    assert!(e.starts_with("reading AWS config: parsing /x: couldn't read /x: "), "{e}");
}

#[test]
fn sections_become_profiles_in_their_order() {
    let section = |name: &str, keys: &[(&str, Option<&str>)]| Section {
        name: name.to_string(),
        keys: keys.iter().map(|(k, v)| (k.to_string(), v.map(|v| v.to_string()))).collect(),
    };
    let cfg = profiles::from_sections(&vec![
        section("profile b", &[("sso_session", Some("s")), ("region", None)]),
        section("profiles", &[]),
        section("profile ", &[]),
        section("default", &[("sso_role_name", Some("r"))]),
        section("sso-session s", &[]),
    ]);
    let names: Vec<&str> = cfg.profiles.iter().map(|p| p.name.as_str()).collect();
    assert_eq!(names, vec!["b", "", "default"]);
    assert_eq!(cfg.profiles[0].sso_session.as_deref(), Some("s"));
    assert_eq!(cfg.profiles[0].region, None);
    assert_eq!(cfg.profiles[2].role.as_deref(), Some("r"));
    assert_eq!(cfg.sessions.keys(), strings(&["s"]));
}
