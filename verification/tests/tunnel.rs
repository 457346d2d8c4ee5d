use moleman::tunnel::{
    self, CommandFacts, Group, StartAction, StartEvent, Status, StopSignals, TickAction, TickEvent, TickReport,
    Tunnel, TunnelKind, LOG_CAP,
};

fn service() -> Tunnel {
    Tunnel::new(
        "orders".to_string(),
        Group::Services,
        TunnelKind::SsmService { service_name: "orders".to_string() },
        Some("dev".to_string()),
        "us-east-1".to_string(),
        Some("i-1".to_string()),
        8009,
    )
}

fn database() -> Tunnel {
    Tunnel::new(
        "db (dev)".to_string(),
        Group::Databases,
        TunnelKind::SsmRds { endpoint: "db.rds".to_string(), remote_port: 5432 },
        None,
        "us-east-1".to_string(),
        None,
        5433,
    )
}

fn temporal() -> Tunnel {
    Tunnel::new(
        "temporal-dev".to_string(),
        Group::Temporal,
        TunnelKind::Ssh {
            pem: "/keys/k.pem".to_string(),
            elb_host: "elb.internal".to_string(),
            remote_port: 80,
            ec2_host: "203.0.113.10".to_string(),
            ec2_user: "ec2-user".to_string(),
        },
        None,
        "us-east-1".to_string(),
        None,
        8081,
    )
}

fn status_text(t: &Tunnel) -> String {
    match &t.status {
        Status::Failed(why) => format!("failed: {why}"),
        other => other.label().to_string(),
    }
}

#[test]
fn groups_and_labels() {
    let titles: Vec<&str> = Group::ALL.iter().map(|g| g.title()).collect();
    assert_eq!(titles, vec!["Services", "Databases", "Temporal"]);
    let labels: Vec<String> =
        vec![Status::Stopped, Status::Starting, Status::Running, Status::Failed("x".to_string()), Status::External]
            .iter()
            .map(|s| s.label().to_string())
            .collect();
    assert_eq!(labels, vec!["stopped", "starting", "running", "failed", "external"]);
}

#[test]
fn statuses_compare() {
    let why = Status::Failed("x".to_string());
    assert_eq!(why.clone(), Status::Failed("x".to_string()));
    assert_ne!(why, Status::Failed("y".to_string()));
    assert_ne!(Status::Running, Status::Starting);
}

#[test]
fn a_new_tunnel_is_stopped() {
    let t = service();
    assert_eq!(status_text(&t), "stopped");
    assert!(!t.is_active());
    assert!(t.log.is_empty());
    assert_eq!(t.local_port, 8009);
}

#[test]
fn the_log_keeps_its_last_lines() {
    let mut t = service();
    for i in 0..LOG_CAP + 5 {
        t.push_log(format!("{i}"));
    }
    assert_eq!(t.log.len(), LOG_CAP);
    assert_eq!(t.log[0], "5");
    assert_eq!(t.log[LOG_CAP - 1], format!("{}", LOG_CAP + 4));
    t.push_log("  ".to_string());
    assert_eq!(t.last_log_line(), Some(format!("{}", LOG_CAP + 4)));
}

#[test]
fn a_service_is_resolved_and_spawned() {
    let mut t = service();
    t.push_log("old".to_string());
    assert!(matches!(t.start(StartEvent::Requested), StartAction::Probe));
    match t.start(StartEvent::Probed(false)) {
        StartAction::Resolve { profile, region, service_name } => {
            assert_eq!((profile.as_str(), region.as_str(), service_name.as_str()), ("dev", "us-east-1", "orders"))
        }
        other => panic!("{other:?}"),
    }
    assert_eq!(status_text(&t), "starting");
    assert!(t.log.is_empty());
    let facts = CommandFacts::Resolved(Ok(("10.0.0.1".to_string(), 8080)));
    match t.start(StartEvent::Facts(facts)) {
        StartAction::Spawn(c) => {
            assert_eq!(c.program, "aws");
            assert_eq!(
                c.args,
                vec![
                    "ssm", "start-session", "--target", "i-1", "--region", "us-east-1", "--profile", "dev",
                    "--document-name", "AWS-StartPortForwardingSessionToRemoteHost", "--parameters",
                    "{\"host\":[\"10.0.0.1\"],\"portNumber\":[\"8080\"],\"localPortNumber\":[\"8009\"]}",
                ]
            );
        }
        other => panic!("{other:?}"),
    }
    assert!(t.log[0].starts_with("$ aws ssm start-session --target i-1 "));
    assert!(matches!(t.start(StartEvent::Spawned(Ok(Some(42)))), StartAction::Done));
    assert!(t.is_active());
    assert_eq!(status_text(&t), "starting");
    assert!(matches!(t.start(StartEvent::Requested), StartAction::Done));
}

#[test]
fn a_port_in_use_is_external() {
    let mut t = service();
    assert!(matches!(t.start(StartEvent::Probed(true)), StartAction::Done));
    assert_eq!(status_text(&t), "external");
    assert_eq!(t.log, vec!["local port 8009 already in use — not starting (external)"]);
    assert!(!t.is_active());
}

#[test]
fn a_name_that_does_not_resolve_fails_the_start() {
    let mut t = service();
    t.start(StartEvent::Probed(false));
    let facts = CommandFacts::Resolved(Err("nothing there".to_string()));
    assert!(matches!(t.start(StartEvent::Facts(facts)), StartAction::Done));
    assert_eq!(status_text(&t), "failed: nothing there");
    assert_eq!(t.log, vec!["start failed: nothing there"]);
}

#[test]
fn a_command_that_cannot_be_spawned_fails_the_start() {
    let mut t = database();
    match t.start(StartEvent::Probed(false)) {
        StartAction::Spawn(c) => {
            assert_eq!(c.args[3], "");
            assert_eq!(c.args[7], "default");
            assert_eq!(c.args[11], "{\"host\":[\"db.rds\"],\"portNumber\":[\"5432\"],\"localPortNumber\":[\"5433\"]}");
        }
        other => panic!("{other:?}"),
    }
    assert!(matches!(t.start(StartEvent::Spawned(Err("no such file".to_string()))), StartAction::Done));
    assert_eq!(status_text(&t), "failed: failed to spawn aws: no such file");
    assert!(!t.is_active());
}

#[test]
fn ssh_needs_a_private_key() {
    let mut t = temporal();
    match t.start(StartEvent::Probed(false)) {
        StartAction::ReadPemMode(pem) => assert_eq!(pem, "/keys/k.pem"),
        other => panic!("{other:?}"),
    }
    match t.start(StartEvent::Facts(CommandFacts::PemMode(Some(0o100600)))) {
        StartAction::Spawn(c) => {
            assert_eq!(c.program, "ssh");
            assert_eq!(
                c.args,
                vec![
                    "-i", "/keys/k.pem", "-L", "8081:elb.internal:80", "ec2-user@203.0.113.10", "-N", "-o",
                    "StrictHostKeyChecking=accept-new", "-o", "ExitOnForwardFailure=yes", "-o",
                    "ConnectTimeout=10", "-o", "ServerAliveInterval=30", "-o", "BatchMode=yes",
                ]
            );
        }
        other => panic!("{other:?}"),
    }
    let mut t = temporal();
    t.start(StartEvent::Probed(false));
    t.start(StartEvent::Facts(CommandFacts::PemMode(Some(0o100644))));
    assert_eq!(
        status_text(&t),
        "failed: pem /keys/k.pem has permissions 644 — ssh requires 0600 or stricter (chmod 600)"
    );
    let mut t = temporal();
    t.start(StartEvent::Probed(false));
    t.start(StartEvent::Facts(CommandFacts::PemMode(None)));
    assert_eq!(status_text(&t), "failed: pem not found: /keys/k.pem");
}

#[test]
fn keys_pass_exactly_when_they_are_private() {
    for mode in 0u32..0o1000 {
        assert_eq!(tunnel::check_pem("k", Some(mode)).is_ok(), mode & 0o077 == 0, "{mode:o}");
    }
    assert!(tunnel::check_pem("k", None).is_err());
}

fn running() -> Tunnel {
    let mut t = database();
    t.start(StartEvent::Probed(false));
    t.start(StartEvent::Spawned(Ok(Some(42))));
    assert_eq!(t.tick(TickEvent::Waited(None)), TickAction::Probe);
    assert_eq!(t.tick(TickEvent::Probed(true)), TickAction::Done);
    t
}

#[test]
fn health_follows_the_port() {
    let mut t = running();
    assert_eq!(status_text(&t), "running");
    t.tick(TickEvent::Probed(false));
    assert_eq!(status_text(&t), "starting");
    t.tick(TickEvent::Probed(true));
    assert_eq!(status_text(&t), "running");
}

#[test]
fn tunnels_brought_up_elsewhere_are_seen() {
    let mut t = service();
    t.tick(TickEvent::Probed(true));
    assert_eq!(status_text(&t), "external");
    t.tick(TickEvent::Probed(false));
    assert_eq!(status_text(&t), "stopped");
}

#[test]
fn an_exit_is_a_failure_with_the_last_line() {
    let mut t = running();
    t.push_log("Session terminated".to_string());
    t.push_log("".to_string());
    assert_eq!(t.tick(TickEvent::Waited(Some("exit status: 1".to_string()))), TickAction::Done);
    assert_eq!(status_text(&t), "failed: Session terminated");
    assert!(!t.is_active());
    let mut t = running();
    t.log.clear();
    t.tick(TickEvent::Waited(Some("exit status: 1".to_string())));
    assert_eq!(status_text(&t), "failed: exit status: 1");
}

#[test]
fn maintenance_in_one_go() {
    let mut t = running();
    t.maintain(&TickReport::Port(false));
    assert_eq!(status_text(&t), "starting");
    t.maintain(&TickReport::Port(true));
    assert_eq!(status_text(&t), "running");
    t.log.clear();
    t.maintain(&TickReport::Exited("exit status: 1".to_string()));
    assert_eq!(status_text(&t), "failed: exit status: 1");
}

#[test]
fn stopping_releases_everything() {
    let mut t = running();
    assert_eq!(t.stop(), StopSignals { group: Some(42), child: true });
    assert_eq!(status_text(&t), "stopped");
    assert_eq!(t.log.last().unwrap(), "stopped");
    assert!(!t.is_active());
    assert_eq!(t.stop(), StopSignals { group: None, child: false });
}

#[test]
fn what_a_tunnel_is_does_not_change() {
    let mut t = running();
    t.tick(TickEvent::Waited(Some("gone".to_string())));
    t.stop();
    assert_eq!((t.name.as_str(), t.local_port, t.group), ("db (dev)", 5433, Group::Databases));
}

#[test]
fn previews() {
    assert_eq!(
        service().command_preview(),
        "aws ssm start-session --target i-1 --profile dev (resolve orders via Cloud Map) -> localhost:8009"
    );
    assert_eq!(
        database().command_preview(),
        "aws ssm start-session --target ? --profile ? db.rds:5432 -> localhost:5433"
    );
    assert_eq!(temporal().command_preview(), "ssh ec2-user@203.0.113.10 -L 8081:elb.internal:80");
}
