use moleman::app::{App, Focus};
use moleman::aws::profiles::{AwsConfig, Profile, SsoSession};
use moleman::aws::rds::RdsInstance;
use moleman::aws::sso::{TokenStatus, UnixTime};
use moleman::config::{Config, RdsCfg, ServicesCfg, TemporalCfg};
use moleman::layout::{self, Area};
use moleman::strmap::StrMap;
use moleman::tunnel::Status;
use moleman::ui::{self, Color, Span, Style};

const NOON: UnixTime = UnixTime { secs: 1714564800, nanos: 0 };

fn dashboard(fallback: &[&str]) -> App {
    let mut sessions = StrMap::new();
    sessions.insert("corp".to_string(), SsoSession { name: "corp".to_string(), start_url: None, region: None });
    let aws = AwsConfig {
        profiles: vec![
            Profile {
                name: "default".to_string(),
                sso_session: Some("corp".to_string()),
                account_id: None,
                role: Some("Admin".to_string()),
                region: None,
            },
            Profile {
                name: "a-profile-with-quite-a-long-name".to_string(),
                sso_session: None,
                account_id: None,
                role: None,
                region: None,
            },
        ],
        sessions,
    };
    let config = Config {
        region: "us-east-1".to_string(),
        pem_dir: "pems".to_string(),
        config_dir: "/cfg".to_string(),
        services: ServicesCfg {
            profile: "svc".to_string(),
            bastion: "i-svc".to_string(),
            auto_port_base: 8009,
            ports: StrMap::new(),
            fallback: fallback.iter().map(|s| s.to_string()).collect(),
        },
        rds: RdsCfg { local_port_base: 5433, bastions: StrMap::new() },
        temporal: vec![TemporalCfg {
            name: "temporal-dev".to_string(),
            local_port: 8081,
            pem: "k.pem".to_string(),
            elb_host: "elb".to_string(),
            remote_port: 80,
            ec2_host: "h".to_string(),
            ec2_user: "u".to_string(),
        }],
    };
    let token = r#"{"accessToken": "t", "expiresAt": "2024-05-01T15:12:00Z"}"#.to_string();
    App::new(config, "/home/u/.config/moleman/config.toml".to_string(), aws, &vec![Some(token)], NOON, "/home/u")
}

fn flat(row: &[Span]) -> String {
    row.iter().map(|s| s.text.as_str()).collect()
}

fn tint(color: Color) -> Style {
    Style { fg: Some(color), bg: None, bold: false, dim: false }
}

#[test]
fn durations() {
    assert_eq!(ui::fmt_dur(11520), "3h12m");
    assert_eq!(ui::fmt_dur(3600), "1h0m");
    assert_eq!(ui::fmt_dur(3599), "59m");
    assert_eq!(ui::fmt_dur(480), "8m");
    assert_eq!(ui::fmt_dur(60), "1m");
    assert_eq!(ui::fmt_dur(59), "59s");
    assert_eq!(ui::fmt_dur(0), "0s");
    assert_eq!(ui::fmt_dur(-5), "-5s");
    assert_eq!(ui::fmt_dur(90061), "25h1m");
}

#[test]
fn badges() {
    let shown = |s: TokenStatus| {
        let (symbol, color, text) = ui::badge(s);
        (format!("{symbol} {text}"), color)
    };
    assert_eq!(shown(TokenStatus::Valid(11520)), ("● valid 3h12m".to_string(), Color::Green));
    assert_eq!(shown(TokenStatus::Expiring(480)), ("▲ expiring 8m".to_string(), Color::Yellow));
    assert_eq!(shown(TokenStatus::Expired), ("✕ expired".to_string(), Color::Red));
    assert_eq!(shown(TokenStatus::NoToken), ("○ login".to_string(), Color::DarkGray));
}

#[test]
fn glyphs() {
    assert_eq!(ui::status_glyph(&Status::Stopped), ("○", Color::DarkGray));
    assert_eq!(ui::status_glyph(&Status::Starting), ("◍", Color::Yellow));
    assert_eq!(ui::status_glyph(&Status::Running), ("●", Color::Green));
    assert_eq!(ui::status_glyph(&Status::Failed("x".to_string())), ("✗", Color::Red));
    assert_eq!(ui::status_glyph(&Status::External), ("▣", Color::Blue));
}

#[test]
fn long_texts_are_cut() {
    assert_eq!(ui::truncate("abc", 3), "abc");
    assert_eq!(ui::truncate("abcd", 3), "ab…");
    assert_eq!(ui::truncate("éééé", 3), "éé…");
    assert_eq!(ui::truncate("ab", 1), "…");
    assert_eq!(ui::truncate("ab", 0), "…");
    assert_eq!(ui::truncate("", 0), "");
}

#[test]
fn the_title_names_the_active_profile() {
    let mut a = dashboard(&[]);
    assert_eq!(flat(&ui::render_title(&a)), " moleman   active: default · Admin  [corp ● valid 3h12m]");
    assert_eq!(ui::render_title(&a)[5].style, tint(Color::Green));
    a.active_profile = 1;
    assert_eq!(
        flat(&ui::render_title(&a)),
        " moleman   active: a-profile-with-quite-a-long-name  [— ○ login]"
    );
    assert_eq!(flat(&ui::render_config_path(&a, "/home/u")), "cfg: ~/.config/moleman/config.toml ");
    assert_eq!(flat(&ui::render_config_path(&a, "/root")), "cfg: /home/u/.config/moleman/config.toml ");
}

#[test]
fn profiles_stand_in_columns() {
    let mut a = dashboard(&[]);
    let p = ui::render_profiles(&a);
    let rows: Vec<String> = p.rows.iter().map(|r| flat(r)).collect();
    assert_eq!(
        rows,
        vec![
            "▶ default                 ● valid 3h12m".to_string(),
            "  a-profile-with-quite-a-…○ login".to_string(),
        ]
    );
    assert!(p.rows.iter().all(|r| r[1].text.chars().count() == 24));
    assert_eq!(p.selected, Some(0));
    assert_eq!(p.symbol, " ");
    assert_eq!(p.frame.border, Color::DarkGray);
    assert_eq!(p.frame.title.text, " Profiles  (Enter = make active, l = login) ");
    assert_eq!(p.frame.title.style, tint(Color::DarkGray));
    assert_eq!(p.highlight, Style { fg: None, bg: None, bold: false, dim: true });
    a.focus = Focus::Profiles;
    a.profile_sel = 9;
    let p = ui::render_profiles(&a);
    assert_eq!(p.selected, Some(1));
    assert_eq!(p.symbol, "│");
    assert_eq!(p.frame.border, Color::Cyan);
    assert_eq!(p.frame.title.style, tint(Color::White));
    assert_eq!(p.highlight, Style { fg: None, bg: Some(Color::Rgb(40, 50, 60)), bold: true, dim: false });
}

#[test]
fn tunnels_stand_under_their_groups() {
    let mut a = dashboard(&["orders"]);
    a.tunnels[0].status = Status::Running;
    let p = ui::render_tunnels(&a);
    let rows: Vec<String> = p.rows.iter().map(|r| flat(r)).collect();
    assert_eq!(
        rows,
        vec![
            "── Services ──".to_string(),
            "● orders                :8009  running  svc".to_string(),
            "── Databases ──".to_string(),
            "   (none — press d to add a database)".to_string(),
            "── Temporal ──".to_string(),
            "○ temporal-dev          :8081  stopped  ssh".to_string(),
        ]
    );
    assert_eq!(p.frame.title.text, " Tunnels  (s start · x stop · S/X group · d RDS) ");
    assert_eq!(p.symbol, "│ ");
}

#[test]
fn the_highlighted_row_is_the_selected_tunnel() {
    let mut a = dashboard(&["orders", "billing"]);
    for (sel, name) in [(0, "orders"), (1, "billing"), (2, "temporal-dev")] {
        a.tunnel_sel = sel;
        let p = ui::render_tunnels(&a);
        assert!(flat(&p.rows[p.selected.unwrap()]).contains(name));
    }
    a.tunnel_sel = 7;
    assert_eq!(ui::render_tunnels(&a).selected, None);
    let a = dashboard(&[]);
    let p = ui::render_tunnels(&a);
    assert_eq!(p.selected, Some(5));
    assert!(flat(&p.rows[5]).contains("temporal-dev"));
}

#[test]
fn the_detail_ends_with_the_log() {
    let mut a = dashboard(&["orders"]);
    for i in 0..10 {
        a.tunnels[0].push_log(format!("line {i}"));
    }
    a.tunnels[0].status = Status::Failed("boom".to_string());
    let d = ui::render_detail(&a);
    let rows: Vec<String> = d.rows.iter().map(|r| flat(r)).collect();
    assert_eq!(rows[0], "✗ orders   Services  →  localhost:8009");
    assert_eq!(
        rows[1],
        "aws ssm start-session --target i-svc --profile svc (resolve orders via Cloud Map) -> localhost:8009"
    );
    assert_eq!(rows[2], "error: boom");
    assert_eq!(rows[3], "── log ──");
    assert_eq!(rows[4], "line 2");
    assert_eq!(rows[11], "line 9");
    assert_eq!(rows.len(), 12);
    assert!(d.wrap);
    assert_eq!(d.frame.title.text, " Detail ");
    a.tunnel_sel = 1;
    assert_eq!(ui::render_detail(&a).rows.len(), 3);
    a.tunnel_sel = 9;
    let d = ui::render_detail(&a);
    assert_eq!(flat(&d.rows[0]), "No tunnel selected");
    assert!(!d.wrap);
}

#[test]
fn toasts_and_keys() {
    let mut a = dashboard(&[]);
    assert!(ui::render_toast(&a).is_none());
    a.set_toast("hi".to_string(), false, 0);
    let row = ui::render_toast(&a).unwrap();
    assert_eq!(flat(&row), " hi ");
    assert_eq!(row[0].style, Style { fg: Some(Color::Green), bg: None, bold: true, dim: false });
    a.set_toast("bad".to_string(), true, 0);
    assert_eq!(ui::render_toast(&a).unwrap()[0].style.fg, Some(Color::Red));
    assert!(flat(&ui::render_keys()).starts_with("Tab focus · ↑↓ move · "));
}

#[test]
fn the_picker_lists_databases() {
    let mut a = dashboard(&[]);
    assert!(ui::render_picker(&a).is_none());
    let inst = RdsInstance {
        identifier: "db".to_string(),
        endpoint: "e".repeat(60),
        port: 5432,
        engine: "postgres".to_string(),
    };
    a.show_rds_instances("default".to_string(), Ok(vec![inst]), 1);
    let p = ui::render_picker(&a).unwrap();
    let wanted = format!("{:<28}{}…:5432  postgres", "db", "e".repeat(47));
    assert_eq!(flat(&p.rows[0]), wanted);
    assert_eq!(p.selected, Some(0));
    assert_eq!(p.frame.title.text, " Select RDS — default  (↑↓ move · Enter tunnel · Esc cancel) ");
    assert_eq!(p.frame.border, Color::Cyan);
}

#[test]
fn the_screen_is_divided() {
    let s = layout::divide_screen(Area { x: 0, y: 0, width: 100, height: 40 });
    assert_eq!(s.title, Area { x: 0, y: 0, width: 60, height: 1 });
    assert_eq!(s.config, Area { x: 60, y: 0, width: 40, height: 1 });
    assert_eq!(s.body, Area { x: 0, y: 1, width: 100, height: 37 });
    assert_eq!(s.profiles, Area { x: 0, y: 1, width: 34, height: 37 });
    assert_eq!(s.tunnels.x, 34);
    assert_eq!(s.tunnels.y, 1);
    assert_eq!(s.tunnels.width, 66);
    assert_eq!(s.tunnels.height + s.detail.height, 37);
    assert_eq!(s.toast, Area { x: 0, y: 38, width: 100, height: 1 });
    assert_eq!(s.keys, Area { x: 0, y: 39, width: 100, height: 1 });
}

#[test]
fn the_picker_stands_in_the_middle() {
    let r = layout::centered_rect(70, 60, Area { x: 0, y: 0, width: 100, height: 50 });
    assert_eq!(r, Area { x: 15, y: 10, width: 70, height: 30 });
}
