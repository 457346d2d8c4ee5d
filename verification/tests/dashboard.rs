use moleman::app::{self, App, Focus, TOAST_TTL};
use moleman::aws::profiles::{AwsConfig, Profile, SsoSession};
use moleman::aws::rds::RdsInstance;
use moleman::aws::sso::{TokenStatus, UnixTime};
use moleman::config::{Config, RdsCfg, ServicesCfg, TemporalCfg};
use moleman::event::{self, Action, KeyCode, KeyEvent};
use moleman::strmap::StrMap;
use moleman::tunnel::{Group, StartEvent, Status, StopSignals, TickReport, TunnelKind};

const NOON: UnixTime = UnixTime { secs: 1714564800, nanos: 0 };

fn profile(name: &str, session: Option<&str>) -> Profile {
    Profile {
        name: name.to_string(),
        sso_session: session.map(|s| s.to_string()),
        account_id: None,
        role: None,
        region: None,
    }
}

fn aws_config() -> AwsConfig {
    let mut sessions = StrMap::new();
    for s in ["corp", "lab"] {
        sessions.insert(s.to_string(), SsoSession { name: s.to_string(), start_url: None, region: None });
    }
    AwsConfig {
        profiles: vec![profile("lab-admin", Some("lab")), profile("default", Some("corp")), profile("plain", None)],
        sessions,
    }
}

fn config(fallback: &[&str], pins: &[(&str, u16)]) -> Config {
    let mut ports = StrMap::new();
    for (name, port) in pins {
        ports.insert(name.to_string(), *port);
    }
    let mut bastions = StrMap::new();
    bastions.insert("corp".to_string(), "i-corp".to_string());
    Config {
        region: "us-east-1".to_string(),
        pem_dir: "pems".to_string(),
        config_dir: "/cfg".to_string(),
        services: ServicesCfg {
            profile: "svc".to_string(),
            bastion: "i-svc".to_string(),
            auto_port_base: 8009,
            ports,
            fallback: fallback.iter().map(|s| s.to_string()).collect(),
        },
        rds: RdsCfg { local_port_base: 5433, bastions },
        temporal: vec![TemporalCfg {
            name: "temporal-dev".to_string(),
            local_port: 8081,
            pem: "k.pem".to_string(),
            elb_host: "elb".to_string(),
            remote_port: 80,
            ec2_host: "h".to_string(),
            ec2_user: "u".to_string(),
        }],
    }
}

fn token(expires: &str) -> Option<String> {
    Some(format!(r#"{{"accessToken": "t", "expiresAt": "{expires}"}}"#))
}

fn files() -> Vec<Option<String>> {
    vec![token("2024-05-01T15:12:00Z"), None]
}

fn dashboard() -> App {
    App::new(
        config(&["orders", "billing"], &[("billing", 8010)]),
        "/home/u/.config/moleman/config.toml".to_string(),
        aws_config(),
        &files(),
        NOON,
        "/home/u",
    )
}

fn press(code: KeyCode) -> KeyEvent {
    KeyEvent { press: true, code, control: false }
}

fn letter(c: char) -> KeyEvent {
    press(KeyCode::Char(c))
}

fn toast(a: &App) -> (String, bool) {
    let t = a.toast.as_ref().unwrap();
    (t.message.clone(), t.error)
}

fn instance(id: &str) -> RdsInstance {
    RdsInstance { identifier: id.to_string(), endpoint: format!("{id}.rds"), port: 5432, engine: "postgres".to_string() }
}

fn bring_up(a: &mut App, i: usize, pid: i32) {
    a.tunnels[i].status = Status::Starting;
    a.tunnels[i].start(StartEvent::Spawned(Ok(Some(pid))));
}

fn tick(a: &mut App, done: &Vec<bool>, files: &Vec<Option<String>>, unix_now: UnixTime, now: u64) {
    let reports: Vec<TickReport> = a.tunnels.iter().map(|_| TickReport::Port(false)).collect();
    a.on_tick(&reports, done, files, unix_now, now);
}

#[test]
fn a_tick_reaches_every_tunnel() {
    let mut a = dashboard();
    bring_up(&mut a, 0, 7);
    bring_up(&mut a, 1, 8);
    a.tunnels[1].push_log("Session terminated".to_string());
    let reports = vec![
        TickReport::Port(true),
        TickReport::Exited("exit status: 1".to_string()),
        TickReport::Port(true),
    ];
    a.on_tick(&reports, &vec![], &vec![], NOON, 1);
    assert_eq!(a.tunnels[0].status, Status::Running);
    assert_eq!(a.tunnels[1].status, Status::Failed("Session terminated".to_string()));
    assert!(!a.tunnels[1].is_active());
    assert_eq!(a.tunnels[2].status, Status::External);
    tick(&mut a, &vec![], &vec![], NOON, 2);
    assert_eq!(a.tunnels[0].status, Status::Starting);
    assert_eq!(a.tunnels[2].status, Status::Stopped);
}

#[test]
fn services_are_looked_up_with_their_own_profile() {
    assert_eq!(dashboard().services_query(), ("svc".to_string(), "us-east-1".to_string()));
}

#[test]
fn the_dashboard_at_the_start() {
    let a = dashboard();
    assert_eq!((a.active_profile, a.profile_sel, a.tunnel_sel), (1, 1, 0));
    assert_eq!(a.focus, Focus::Tunnels);
    assert!(a.picker.is_none() && a.toast.is_none() && !a.should_quit);
    assert_eq!(a.active_profile_name(), "default");
    assert_eq!(a.active_session_name(), Some("corp".to_string()));
    let shown: Vec<(&str, u16, Group)> =
        a.tunnels.iter().map(|t| (t.name.as_str(), t.local_port, t.group)).collect();
    assert_eq!(
        shown,
        vec![
            ("orders", 8009, Group::Services),
            ("billing", 8010, Group::Services),
            ("temporal-dev", 8081, Group::Temporal),
        ]
    );
    assert_eq!(a.tunnels[0].profile.as_deref(), Some("svc"));
    assert_eq!(a.tunnels[0].bastion.as_deref(), Some("i-svc"));
    match &a.tunnels[2].kind {
        TunnelKind::Ssh { pem, .. } => assert_eq!(pem, "/cfg/pems/k.pem"),
        other => panic!("{other:?}"),
    }
}

#[test]
fn without_a_default_profile_the_first_is_active() {
    let mut aws = aws_config();
    aws.profiles.remove(1);
    let a = App::new(config(&[], &[]), "c".to_string(), aws, &files(), NOON, "/home/u");
    assert_eq!(a.active_profile_name(), "lab-admin");
    let mut aws = aws_config();
    aws.profiles.clear();
    let a = App::new(config(&[], &[]), "c".to_string(), aws, &files(), NOON, "/home/u");
    assert_eq!(a.active_profile_name(), "default");
    assert_eq!(a.active_session_name(), None);
}

#[test]
fn ports_of_configured_services_do_not_collide() {
    let c = config(&["a", "pinned", "b", "c"], &[("pinned", 8010), ("other", 8011)]);
    assert_eq!(app::assign_seed_ports(&c), Some(vec![8009, 8010, 8012, 8013]));
    let mut c = config(&["a", "b"], &[]);
    c.services.auto_port_base = 65535;
    assert_eq!(app::assign_seed_ports(&c), None);
    let mut c = config(&["a"], &[]);
    c.services.auto_port_base = 65535;
    assert_eq!(app::assign_seed_ports(&c), Some(vec![65535]));
}

#[test]
fn statuses_belong_to_sessions() {
    let mut a = dashboard();
    assert_eq!(a.status_for_profile(0), TokenStatus::NoToken);
    assert_eq!(a.status_for_profile(1), TokenStatus::Valid(11520));
    assert_eq!(a.status_for_profile(2), TokenStatus::NoToken);
    assert_eq!(a.status_for_profile(9), TokenStatus::NoToken);
    a.rescan_sso(&vec![None, token("2024-05-01T12:05:00Z")], NOON);
    assert_eq!(a.status_for_profile(0), TokenStatus::Expiring(300));
    assert_eq!(a.status_for_profile(1), TokenStatus::NoToken);
}

#[test]
fn tunnels_are_shown_group_by_group() {
    let mut a = dashboard();
    a.show_rds_instances("default".to_string(), Ok(vec![instance("db")]), 1);
    a.confirm_rds_pick(2);
    let found: Result<Vec<String>, String> = Ok(vec!["late".to_string()]);
    a.refresh(&files(), NOON, &found, 3);
    assert_eq!(a.ordered(), vec![0, 1, 4, 3, 2]);
    assert_eq!(a.in_group(Group::Services), vec![0, 1, 4]);
    a.tunnel_sel = 3;
    assert_eq!(a.selected_tunnel(), Some(3));
    assert_eq!(a.selected_group(), Some(Group::Databases));
    a.tunnel_sel = 5;
    assert_eq!(a.selected_tunnel(), None);
    assert_eq!(a.selected_group(), None);
}

#[test]
fn stopping_the_selected_tunnel() {
    let mut a = dashboard();
    bring_up(&mut a, 0, 7);
    assert_eq!(a.start_selected(), Some(0));
    assert_eq!(a.stop_selected(), Some((0, StopSignals { group: Some(7), child: true })));
    assert!(!a.tunnels[0].is_active());
}

#[test]
fn starting_and_stopping_a_group() {
    let mut a = dashboard();
    bring_up(&mut a, 1, 8);
    bring_up(&mut a, 2, 9);
    assert_eq!(a.start_group(Group::Services), vec![0]);
    assert_eq!(a.stop_group(Group::Services), vec![(1, StopSignals { group: Some(8), child: true })]);
    assert!(!a.tunnels[1].is_active());
    assert!(a.tunnels[2].is_active());
    assert_eq!(a.tunnels[0].log.len(), 0);
}

#[test]
fn quitting_leaves_no_process() {
    let mut a = dashboard();
    bring_up(&mut a, 0, 7);
    bring_up(&mut a, 2, 9);
    let orders = a.shutdown();
    assert_eq!(
        orders,
        vec![
            (0, StopSignals { group: Some(7), child: true }),
            (2, StopSignals { group: Some(9), child: true })
        ]
    );
    assert!(a.tunnels.iter().all(|t| !t.is_active()));
    assert!(a.tunnels[1].log.is_empty());
}

#[test]
fn the_picker_opens_on_what_was_found() {
    let mut a = dashboard();
    assert_eq!(a.open_rds_picker(5), ("default".to_string(), "us-east-1".to_string()));
    assert_eq!(toast(&a), ("discovering RDS in default…".to_string(), false));
    a.show_rds_instances("default".to_string(), Ok(vec![]), 6);
    assert_eq!(toast(&a), ("no RDS instances visible to default".to_string(), true));
    assert!(a.picker.is_none());
    a.show_rds_instances("default".to_string(), Err("denied".to_string()), 7);
    assert_eq!(toast(&a), ("RDS discovery failed: denied".to_string(), true));
    a.show_rds_instances("default".to_string(), Ok(vec![instance("a"), instance("b")]), 8);
    assert!(a.toast.is_none());
    assert_eq!(a.picker.as_ref().unwrap().selected, 0);
}

#[test]
fn a_picked_database_gets_a_free_port_and_the_selection() {
    let mut a = dashboard();
    a.tunnels[0].local_port = 5433;
    a.focus = Focus::Profiles;
    a.show_rds_instances("default".to_string(), Ok(vec![instance("a"), instance("b")]), 1);
    a.picker.as_mut().unwrap().selected = 1;
    assert!(a.can_confirm_pick());
    assert_eq!(a.confirm_rds_pick(2), Some(3));
    assert!(a.picker.is_none());
    assert_eq!(a.focus, Focus::Tunnels);
    assert_eq!(a.selected_tunnel(), Some(3));
    assert_eq!(a.tunnel_sel, 2);
    let t = &a.tunnels[3];
    assert_eq!((t.name.as_str(), t.local_port, t.group), ("b (default)", 5434, Group::Databases));
    assert_eq!(t.bastion.as_deref(), Some("i-corp"));
    assert_eq!(t.profile.as_deref(), Some("default"));
    match &t.kind {
        TunnelKind::SsmRds { endpoint, remote_port } => assert_eq!((endpoint.as_str(), *remote_port), ("b.rds", 5432)),
        other => panic!("{other:?}"),
    }
}

#[test]
fn a_picked_database_goes_through_its_own_profiles_bastion() {
    let mut a = dashboard();
    a.config.rds.bastions.insert("lab".to_string(), "i-lab".to_string());
    assert_eq!(a.active_profile_name(), "default");
    a.show_rds_instances("lab-admin".to_string(), Ok(vec![instance("db")]), 1);
    assert_eq!(a.confirm_rds_pick(2), Some(3));
    assert_eq!(a.tunnels[3].profile.as_deref(), Some("lab-admin"));
    assert_eq!(a.tunnels[3].bastion.as_deref(), Some("i-lab"));
    a.config.rds.bastions.remove("lab");
    a.show_rds_instances("lab-admin".to_string(), Ok(vec![instance("db")]), 3);
    assert_eq!(a.confirm_rds_pick(4), None);
    assert_eq!(
        toast(&a),
        ("no RDS bastion configured for session 'lab' — add it under [rds.bastions]".to_string(), true)
    );
    a.show_rds_instances("unknown".to_string(), Ok(vec![instance("db")]), 5);
    assert_eq!(a.confirm_rds_pick(6), None);
    assert_eq!(
        toast(&a),
        ("no RDS bastion configured for session '?' — add it under [rds.bastions]".to_string(), true)
    );
}

#[test]
fn of_two_profiles_of_one_name_the_active_one_counts() {
    let mut a = dashboard();
    a.config.rds.bastions.insert("lab".to_string(), "i-lab".to_string());
    a.aws.profiles.push(profile("lab-admin", Some("corp")));
    a.active_profile = 3;
    a.show_rds_instances("lab-admin".to_string(), Ok(vec![instance("db")]), 1);
    a.confirm_rds_pick(2);
    assert_eq!(a.tunnels[3].bastion.as_deref(), Some("i-corp"));
    a.active_profile = 1;
    a.show_rds_instances("lab-admin".to_string(), Ok(vec![instance("db")]), 3);
    a.confirm_rds_pick(4);
    assert_eq!(a.tunnels[4].bastion.as_deref(), Some("i-lab"));
}

#[test]
fn a_session_without_a_bastion_cannot_reach_databases() {
    let mut a = dashboard();
    a.active_profile = 0;
    a.show_rds_instances("lab-admin".to_string(), Ok(vec![instance("a")]), 1);
    assert_eq!(a.confirm_rds_pick(2), None);
    assert_eq!(
        toast(&a),
        ("no RDS bastion configured for session 'lab' — add it under [rds.bastions]".to_string(), true)
    );
    a.active_profile = 2;
    a.show_rds_instances("plain".to_string(), Ok(vec![instance("a")]), 1);
    assert_eq!(a.confirm_rds_pick(2), None);
    assert_eq!(
        toast(&a),
        ("no RDS bastion configured for session '?' — add it under [rds.bastions]".to_string(), true)
    );
    assert_eq!(a.tunnels.len(), 3);
    assert_eq!(a.confirm_rds_pick(3), None);
}

#[test]
fn local_ports_can_run_out() {
    let mut a = dashboard();
    a.config.rds.local_port_base = 65535;
    assert_eq!(a.find_local_port(65535), Some(65535));
    assert_eq!(a.next_local_port(8009), 8011);
    a.tunnels[0].local_port = 65535;
    assert_eq!(a.find_local_port(65535), None);
    assert!(a.can_confirm_pick());
    a.show_rds_instances("default".to_string(), Ok(vec![instance("a")]), 1);
    assert!(!a.can_confirm_pick());
    assert!(!event::can_handle(&a, press(KeyCode::Enter)));
    assert!(event::can_handle(&a, press(KeyCode::Esc)));
    a.config.services.auto_port_base = 65535;
    assert!(!a.has_room_for(&vec!["new".to_string()]));
    assert!(a.has_room_for(&vec!["orders".to_string(), "billing".to_string()]));
    a.config.services.auto_port_base = 65534;
    assert!(a.has_room_for(&vec!["new".to_string(), "new".to_string()]));
    assert!(!a.has_room_for(&vec!["new".to_string(), "newer".to_string()]));
}

#[test]
fn logins() {
    let mut a = dashboard();
    a.focus = Focus::Profiles;
    a.profile_sel = 2;
    assert_eq!(a.trigger_login(1), None);
    assert_eq!(toast(&a), ("selected profile has no sso-session".to_string(), true));
    a.profile_sel = 0;
    assert_eq!(a.trigger_login(2), Some("lab".to_string()));
    a.focus = Focus::Tunnels;
    assert_eq!(a.trigger_login(3), Some("corp".to_string()));
    a.login_started("corp".to_string(), Ok(()), 4);
    assert_eq!(toast(&a), ("logging in to 'corp' — complete it in your browser".to_string(), false));
    assert_eq!(a.trigger_login(5), None);
    assert_eq!(toast(&a), ("login for 'corp' already in progress".to_string(), false));
    a.login_started("lab".to_string(), Err("no aws".to_string()), 6);
    assert_eq!(toast(&a), ("failed to start aws sso login: no aws".to_string(), true));
    assert_eq!(a.login_children.keys(), vec!["corp".to_string()]);
}

#[test]
fn logins_end() {
    let mut a = dashboard();
    for s in ["lab", "corp", "alpha"] {
        a.login_started(s.to_string(), Ok(()), 1);
    }
    let later = vec![None, token("2024-05-01T13:00:00Z")];
    tick(&mut a, &vec![false, false, false], &vec![], NOON, 2);
    assert_eq!(a.status_for_profile(0), TokenStatus::NoToken);
    tick(&mut a, &vec![true, false, true], &later, NOON, 3);
    assert_eq!(a.login_children.keys(), vec!["corp".to_string()]);
    assert_eq!(toast(&a), ("login complete: alpha, lab".to_string(), false));
    assert_eq!(a.status_for_profile(0), TokenStatus::Valid(3600));
    assert_eq!(a.status_for_profile(1), TokenStatus::NoToken);
}

#[test]
fn toasts_fade() {
    let mut a = dashboard();
    a.set_toast("hello".to_string(), false, 100);
    tick(&mut a, &vec![], &files(), NOON, 100 + TOAST_TTL);
    assert!(a.toast.is_some());
    tick(&mut a, &vec![], &files(), NOON, 101 + TOAST_TTL);
    assert!(a.toast.is_none());
    a.set_toast("hello".to_string(), false, 100);
    tick(&mut a, &vec![], &files(), NOON, 50);
    assert!(a.toast.is_some());
}

#[test]
fn refreshing_adds_what_is_not_shown() {
    let mut a = dashboard();
    let found: Result<Vec<String>, String> =
        Ok(vec!["billing".to_string(), "new".to_string(), "new".to_string(), "newer".to_string()]);
    a.refresh(&files(), NOON, &found, 1);
    assert_eq!(toast(&a), ("refreshed — discovered 2 new service(s)".to_string(), false));
    let added: Vec<(&str, u16)> = a.tunnels[3..].iter().map(|t| (t.name.as_str(), t.local_port)).collect();
    assert_eq!(added, vec![("new", 8011), ("newer", 8012)]);
    a.refresh(&files(), NOON, &found, 2);
    assert_eq!(toast(&a), ("refreshed".to_string(), false));
    assert_eq!(a.tunnels.len(), 5);
}

#[test]
fn a_discovered_service_gets_its_pinned_port() {
    let mut a = dashboard();
    a.config.services.ports.insert("new".to_string(), 9000);
    let found: Result<Vec<String>, String> = Ok(vec!["new".to_string()]);
    a.refresh(&files(), NOON, &found, 1);
    assert_eq!(a.tunnels[3].local_port, 9000);
}

#[test]
fn configured_services_stay_shown_when_nothing_is_found() {
    let mut a = dashboard();
    a.refresh(&vec![None, None], NOON, &Err("expired".to_string()), 1);
    assert_eq!(toast(&a), ("refreshed SSO; Cloud Map discovery failed: expired".to_string(), true));
    assert_eq!(a.status_for_profile(1), TokenStatus::NoToken);
    assert_eq!(a.in_group(Group::Services), vec![0, 1]);
    a.refresh(&files(), NOON, &Ok(vec![]), 2);
    assert_eq!(a.in_group(Group::Services), vec![0, 1]);
}

#[test]
fn selection_moves_within_the_list() {
    let mut a = dashboard();
    a.move_up();
    assert_eq!(a.tunnel_sel, 0);
    a.move_down();
    a.move_down();
    a.move_down();
    assert_eq!(a.tunnel_sel, 2);
    a.move_up();
    assert_eq!(a.tunnel_sel, 1);
    a.toggle_focus();
    assert_eq!(a.focus, Focus::Profiles);
    a.move_down();
    a.move_down();
    assert_eq!((a.profile_sel, a.tunnel_sel), (2, 1));
    a.move_up();
    assert_eq!(a.profile_sel, 1);
    a.toggle_focus();
    assert_eq!(a.focus, Focus::Tunnels);
}

#[test]
fn keys_of_the_panels() {
    let mut a = dashboard();
    assert!(matches!(event::handle_key(&mut a, press(KeyCode::Tab), 1), Action::Nothing));
    assert_eq!(a.focus, Focus::Profiles);
    event::handle_key(&mut a, press(KeyCode::Up), 1);
    assert!(matches!(event::handle_key(&mut a, press(KeyCode::Enter), 2), Action::Nothing));
    assert_eq!(a.active_profile, 0);
    assert_eq!(toast(&a), ("active profile → lab-admin".to_string(), false));
    event::handle_key(&mut a, press(KeyCode::BackTab), 1);
    event::handle_key(&mut a, letter('j'), 1);
    assert_eq!(a.tunnel_sel, 1);
    match event::handle_key(&mut a, press(KeyCode::Enter), 1) {
        Action::Start(v) => assert_eq!(v, vec![1]),
        other => panic!("{other:?}"),
    }
    match event::handle_key(&mut a, letter('s'), 1) {
        Action::Start(v) => assert_eq!(v, vec![1]),
        other => panic!("{other:?}"),
    }
    event::handle_key(&mut a, letter('k'), 1);
    assert_eq!(a.tunnel_sel, 0);
    match event::handle_key(&mut a, letter('S'), 1) {
        Action::Start(v) => assert_eq!(v, vec![0, 1]),
        other => panic!("{other:?}"),
    }
    bring_up(&mut a, 0, 7);
    bring_up(&mut a, 1, 8);
    match event::handle_key(&mut a, letter('x'), 1) {
        Action::Signal(v) => assert_eq!(v, vec![(0, StopSignals { group: Some(7), child: true })]),
        other => panic!("{other:?}"),
    }
    match event::handle_key(&mut a, letter('X'), 1) {
        Action::Signal(v) => assert_eq!(v, vec![(1, StopSignals { group: Some(8), child: true })]),
        other => panic!("{other:?}"),
    }
    match event::handle_key(&mut a, letter('d'), 1) {
        Action::Discover { profile, region } => {
            assert_eq!((profile.as_str(), region.as_str()), ("lab-admin", "us-east-1"))
        }
        other => panic!("{other:?}"),
    }
    match event::handle_key(&mut a, letter('l'), 1) {
        Action::Login(s) => assert_eq!(s, "lab"),
        other => panic!("{other:?}"),
    }
    assert!(matches!(event::handle_key(&mut a, letter('r'), 1), Action::Refresh));
    assert!(matches!(event::handle_key(&mut a, letter('z'), 1), Action::Nothing));
    assert!(!a.should_quit);
    event::handle_key(&mut a, letter('q'), 1);
    assert!(a.should_quit);
    assert_eq!(a.tunnels.len(), 3);
}

#[test]
fn only_presses_count() {
    let mut a = dashboard();
    event::handle_key(&mut a, KeyEvent { press: false, code: KeyCode::Char('q'), control: false }, 1);
    event::handle_key(&mut a, KeyEvent { press: false, code: KeyCode::Char('c'), control: true }, 1);
    assert!(!a.should_quit);
    event::handle_key(&mut a, letter('c'), 1);
    assert!(!a.should_quit);
}

#[test]
fn control_c_quits_even_from_the_picker() {
    let mut a = dashboard();
    a.show_rds_instances("default".to_string(), Ok(vec![instance("a")]), 1);
    event::handle_key(&mut a, KeyEvent { press: true, code: KeyCode::Char('c'), control: true }, 1);
    assert!(a.should_quit);
    assert!(a.picker.is_some());
}

#[test]
fn the_picker_captures_the_keys() {
    let mut a = dashboard();
    a.show_rds_instances("default".to_string(), Ok(vec![instance("a"), instance("b")]), 1);
    for code in [KeyCode::Tab, KeyCode::Char('r'), KeyCode::Char('x'), KeyCode::Other] {
        assert!(matches!(event::handle_key(&mut a, press(code), 1), Action::Nothing));
    }
    let at = |a: &App| a.picker.as_ref().unwrap().selected;
    event::handle_key(&mut a, press(KeyCode::Up), 1);
    assert_eq!(at(&a), 0);
    event::handle_key(&mut a, letter('j'), 1);
    event::handle_key(&mut a, press(KeyCode::Down), 1);
    assert_eq!(at(&a), 1);
    event::handle_key(&mut a, letter('k'), 1);
    assert_eq!(at(&a), 0);
    assert_eq!(a.picker.as_ref().unwrap().profile, a.active_profile_name());
    match event::handle_key(&mut a, press(KeyCode::Enter), 1) {
        Action::Start(v) => assert_eq!(v, vec![3]),
        other => panic!("{other:?}"),
    }
    assert_eq!(a.tunnels[3].name, "a (default)");
    a.show_rds_instances("default".to_string(), Ok(vec![instance("a")]), 1);
    event::handle_key(&mut a, letter('q'), 1);
    assert!(a.picker.is_none() && !a.should_quit);
    a.show_rds_instances("default".to_string(), Ok(vec![instance("a")]), 1);
    event::handle_key(&mut a, press(KeyCode::Esc), 1);
    assert!(a.picker.is_none());
}
