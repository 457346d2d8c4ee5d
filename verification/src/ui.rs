//! What the screen shows: rows of styled text, and which row is highlighted.

use vstd::prelude::*;

use crate::app;
use crate::app::{App, Focus, RdsPicker};
use crate::aws::rds;
use crate::aws::rds::RdsInstance;
use crate::aws::sso::TokenStatus;
use crate::config;
use crate::text;
use crate::tunnel;
use crate::tunnel::{Group, Status, Tunnel};

verus! {

/// A terminal colour.
#[derive(Debug, Clone, Copy, PartialEq, Eq, Structural)]
pub enum Color {
    Black,
    Red,
    Green,
    Yellow,
    Blue,
    Cyan,
    DarkGray,
    White,
    Rgb(u8, u8, u8),
}

/// The colour of what has the focus.
pub const ACTIVE: Color = Color::Cyan;

/// The colour of what stands back.
pub const DIM: Color = Color::DarkGray;

/// How a text is drawn; a colour that is not set stays what it was.
#[derive(Debug, Clone, Copy, PartialEq, Eq, Structural)]
pub struct Style {
    pub fg: Option<Color>,
    pub bg: Option<Color>,
    pub bold: bool,
    pub dim: bool,
}

/// No style.
pub open spec fn unstyled() -> Style {
    Style { fg: None, bg: None, bold: false, dim: false }
}

/// A colour, and nothing else.
pub open spec fn tinted(color: Color) -> Style {
    Style { fg: Some(color), bg: None, bold: false, dim: false }
}

/// A colour in bold.
pub open spec fn strong(color: Color) -> Style {
    Style { fg: Some(color), bg: None, bold: true, dim: false }
}

fn raw() -> (r: Style)
    ensures
        r == unstyled(),
{
    Style { fg: None, bg: None, bold: false, dim: false }
}

fn fg(color: Color) -> (r: Style)
    ensures
        r == tinted(color),
{
    Style { fg: Some(color), bg: None, bold: false, dim: false }
}

fn bold(color: Color) -> (r: Style)
    ensures
        r == strong(color),
{
    Style { fg: Some(color), bg: None, bold: true, dim: false }
}

/// A piece of text in one style.
#[derive(Debug)]
pub struct Span {
    pub text: String,
    pub style: Style,
}

/// `Span` as a mathematical value.
pub struct SpanView {
    pub text: Seq<char>,
    pub style: Style,
}

impl View for Span {
    type V = SpanView;

    open spec fn view(&self) -> SpanView {
        SpanView { text: self.text@, style: self.style }
    }
}

/// A row as a mathematical value.
pub open spec fn spans_view(s: Seq<Span>) -> Seq<SpanView> {
    s.map_values(|x: Span| x@)
}

/// Rows as mathematical values.
pub open spec fn rows_view(s: Seq<Vec<Span>>) -> Seq<Seq<SpanView>> {
    s.map_values(|row: Vec<Span>| spans_view(row@))
}

/// A text in a style.
pub open spec fn sp(text: Seq<char>, style: Style) -> SpanView {
    SpanView { text, style }
}

fn push(row: &mut Vec<Span>, text: String, style: Style)
    ensures
        spans_view(final(row)@) == spans_view(old(row)@).push(sp(text@, style)),
{
    row.push(Span { text, style });
    assert(spans_view(row@) =~= spans_view(old(row)@).push(sp(text@, style)));
}

fn push_row(rows: &mut Vec<Vec<Span>>, row: Vec<Span>)
    ensures
        rows_view(final(rows)@) == rows_view(old(rows)@).push(spans_view(row@)),
        final(rows)@.len() == old(rows)@.len() + 1,
{
    rows.push(row);
    assert(rows_view(rows@) =~= rows_view(old(rows)@).push(spans_view(row@)));
}

fn one(text: String, style: Style) -> (r: Vec<Span>)
    ensures
        spans_view(r@) == seq![sp(text@, style)],
{
    let mut r: Vec<Span> = Vec::new();
    push(&mut r, text, style);
    assert(spans_view(r@) =~= seq![sp(text@, style)]);
    r
}

/// A titled frame.
#[derive(Debug)]
pub struct Frame {
    pub title: Span,
    pub border: Color,
}

/// `Frame` as a mathematical value.
pub struct FrameView {
    pub title: SpanView,
    pub border: Color,
}

impl View for Frame {
    type V = FrameView;

    open spec fn view(&self) -> FrameView {
        FrameView { title: self.title@, border: self.border }
    }
}

/// A framed list with a highlighted row.
#[derive(Debug)]
pub struct Panel {
    pub frame: Frame,
    pub rows: Vec<Vec<Span>>,
    pub selected: Option<usize>,
    pub highlight: Style,
    pub symbol: String,
}

/// `Panel` as a mathematical value.
pub struct PanelView {
    pub frame: FrameView,
    pub rows: Seq<Seq<SpanView>>,
    pub selected: Option<usize>,
    pub highlight: Style,
    pub symbol: Seq<char>,
}

impl View for Panel {
    type V = PanelView;

    open spec fn view(&self) -> PanelView {
        PanelView {
            frame: self.frame@,
            rows: rows_view(self.rows@),
            selected: self.selected,
            highlight: self.highlight,
            symbol: self.symbol@,
        }
    }
}

// ---- helpers ---------------------------------------------------------------

/// The frame of a panel.
pub open spec fn panel_frame(title: Seq<char>, focused: bool) -> FrameView {
    FrameView {
        title: sp(
            " "@ + title + " "@,
            tinted(
                if focused {
                    Color::White
                } else {
                    DIM
                },
            ),
        ),
        border: if focused {
            ACTIVE
        } else {
            DIM
        },
    }
}

/// The frame of a panel.
pub fn panel_block(title: &str, focused: bool) -> (r: Frame)
    ensures
        r@ == panel_frame(title@, focused),
{
    let mut text = " ".to_string();
    text.append(title);
    text.append(" ");
    Frame {
        title: Span {
            text,
            style: fg(
                if focused {
                    Color::White
                } else {
                    DIM
                },
            ),
        },
        border: if focused {
            ACTIVE
        } else {
            DIM
        },
    }
}

/// The style of the highlighted row.
pub open spec fn highlighted(focused: bool) -> Style {
    if focused {
        Style { fg: None, bg: Some(Color::Rgb(40, 50, 60)), bold: true, dim: false }
    } else {
        Style { fg: None, bg: None, bold: false, dim: true }
    }
}

/// The style of the highlighted row.
pub fn highlight(focused: bool) -> (r: Style)
    ensures
        r == highlighted(focused),
{
    if focused {
        Style { fg: None, bg: Some(Color::Rgb(40, 50, 60)), bold: true, dim: false }
    } else {
        Style { fg: None, bg: None, bold: false, dim: true }
    }
}

/// The glyph of a status, and its colour.
pub open spec fn glyph(status: tunnel::StatusView) -> (Seq<char>, Color) {
    match status {
        tunnel::StatusView::Stopped => ("○"@, DIM),
        tunnel::StatusView::Starting => ("◍"@, Color::Yellow),
        tunnel::StatusView::Running => ("●"@, Color::Green),
        tunnel::StatusView::Failed(_) => ("✗"@, Color::Red),
        tunnel::StatusView::External => ("▣"@, Color::Blue),
    }
}

/// The glyph of a status, and its colour.
pub fn status_glyph(status: &Status) -> (r: (&'static str, Color))
    ensures
        (r.0@, r.1) == glyph(status@),
{
    match status {
        Status::Stopped => ("○", DIM),
        Status::Starting => ("◍", Color::Yellow),
        Status::Running => ("●", Color::Green),
        Status::Failed(_) => ("✗", Color::Red),
        Status::External => ("▣", Color::Blue),
    }
}

/// A number of seconds in words: hours and minutes, or minutes, or seconds.
pub open spec fn duration(secs: int) -> Seq<char> {
    if secs >= 3600 {
        text::signed_digits(secs / 3600) + "h"@ + text::signed_digits((secs % 3600) / 60) + "m"@
    } else if secs >= 60 {
        text::signed_digits(secs / 60) + "m"@
    } else {
        text::signed_digits(secs) + "s"@
    }
}

/// A number of seconds in words: hours and minutes, or minutes, or seconds.
pub fn fmt_dur(secs: i64) -> (r: String)
    ensures
        r@ == duration(secs as int),
{
    if secs >= 3600 {
        let mut r = text::signed(secs / 3600);
        r.append("h");
        r.append(text::signed((secs % 3600) / 60).as_str());
        r.append("m");
        r
    } else if secs >= 60 {
        let mut r = text::signed(secs / 60);
        r.append("m");
        r
    } else {
        let mut r = text::signed(secs);
        r.append("s");
        r
    }
}

/// The badge of a token: its symbol, its colour and its text.
pub open spec fn badge_of(status: TokenStatus) -> (Seq<char>, Color, Seq<char>) {
    match status {
        TokenStatus::Valid(s) => ("●"@, Color::Green, "valid "@ + duration(s as int)),
        TokenStatus::Expiring(s) => ("▲"@, Color::Yellow, "expiring "@ + duration(s as int)),
        TokenStatus::Expired => ("✕"@, Color::Red, "expired"@),
        TokenStatus::NoToken => ("○"@, DIM, "login"@),
    }
}

/// The badge of a token: its symbol, its colour and its text.
pub fn badge(status: TokenStatus) -> (r: (&'static str, Color, String))
    ensures
        (r.0@, r.1, r.2@) == badge_of(status),
{
    match status {
        TokenStatus::Valid(s) => {
            let mut text = "valid ".to_string();
            text.append(fmt_dur(s).as_str());
            ("●", Color::Green, text)
        },
        TokenStatus::Expiring(s) => {
            let mut text = "expiring ".to_string();
            text.append(fmt_dur(s).as_str());
            ("▲", Color::Yellow, text)
        },
        TokenStatus::Expired => ("✕", Color::Red, "expired".to_string()),
        TokenStatus::NoToken => ("○", DIM, "login".to_string()),
    }
}

/// A text cut to `max` characters, the last of which then says that it was cut.
pub open spec fn truncated(s: Seq<char>, max: nat) -> Seq<char> {
    if s.len() <= max {
        s
    } else if max == 0 {
        seq!['…']
    } else {
        s.take(max - 1).push('…')
    }
}

/// A text cut to `max` characters, the last of which then says that it was cut.
pub fn truncate(s: &str, max: usize) -> (r: String)
    ensures
        r@ == truncated(s@, max as nat),
{
    let chars = text::chars_of(s);
    if chars.len() <= max {
        s.to_owned()
    } else {
        let kept: usize = if max == 0 {
            0
        } else {
            max - 1
        };
        let mut r = text::string_of(&chars, 0, kept);
        r.push('…');
        assert(r@ =~= truncated(s@, max as nat));
        r
    }
}

/// A text in a column of `width` characters.
pub open spec fn column(s: Seq<char>, width: nat) -> Seq<char> {
    text::padded(truncated(s, width), width)
}

fn in_column(s: &str, width: usize) -> (r: String)
    ensures
        r@ == column(s@, width as nat),
{
    text::pad_right(truncate(s, width).as_str(), width)
}

/// Columns are aligned: whatever stands in one takes its width exactly, and a
/// text that fits is not changed but for the space that follows it.
pub proof fn law_columns_are_aligned(s: Seq<char>, width: nat)
    requires
        width > 0,
    ensures
        column(s, width).len() == width,
        truncated(s, width).len() <= width,
        s.len() <= width ==> column(s, width).take(s.len() as int) == s,
{
    assert(s.len() <= width ==> column(s, width).take(s.len() as int) =~= s);
}

// ---- the title -------------------------------------------------------------

/// Two texts with a blank between them.
pub open spec fn spaced(a: Seq<char>, b: Seq<char>) -> Seq<char> {
    a + " "@ + b
}

fn with_space(a: &str, b: &str) -> (r: String)
    ensures
        r@ == spaced(a@, b@),
{
    let mut r = a.to_owned();
    r.append(" ");
    r.append(b);
    r
}

/// The role of the active profile; empty where it has none.
pub open spec fn active_role(a: App) -> Seq<char> {
    if a.active_profile < a.profile_list().len() {
        tunnel::or_else(a.profile_list()[a.active_profile as int].role, Seq::empty())
    } else {
        Seq::empty()
    }
}

/// The left side of the title: the active profile, its role and its session.
pub open spec fn title_row(a: App) -> Seq<SpanView> {
    let badge = badge_of(a.status_of(a.active_profile as int));
    let session = tunnel::or_else(a.session_of(a.active_profile as int), "—"@);
    let role = active_role(a);
    seq![
        sp(
            " moleman "@,
            Style { fg: Some(Color::Black), bg: Some(ACTIVE), bold: true, dim: false },
        ),
        sp("  active: "@, unstyled()),
        sp(a.active_name(), strong(Color::White)),
    ] + (if role.len() > 0 {
        seq![sp(" · "@ + role, tinted(DIM))]
    } else {
        seq![]
    }) + seq![
        sp("  ["@ + session + " "@, unstyled()),
        sp(spaced(badge.0, badge.2), tinted(badge.1)),
        sp("]"@, unstyled()),
    ]
}

/// The right side of the title: where the config file is.
pub open spec fn config_row(shown_path: Seq<char>) -> Seq<SpanView> {
    seq![sp("cfg: "@ + shown_path + " "@, tinted(DIM))]
}

/// The left side of the title: the active profile, its role and its session.
pub fn render_title(a: &App) -> (r: Vec<Span>)
    ensures
        spans_view(r@) == title_row(*a),
{
    let (symbol, color, label) = badge(a.status_for_profile(a.active_profile));
    let mut r: Vec<Span> = Vec::new();
    push(
        &mut r,
        " moleman ".to_string(),
        Style { fg: Some(Color::Black), bg: Some(ACTIVE), bold: true, dim: false },
    );
    push(&mut r, "  active: ".to_string(), raw());
    push(&mut r, a.active_profile_name().to_owned(), bold(Color::White));
    let role = if a.active_profile < a.aws.profiles.len() {
        match &a.aws.profiles[a.active_profile].role {
            Some(role) => role.clone(),
            None => String::new(),
        }
    } else {
        String::new()
    };
    assert(role@ =~= active_role(*a));
    if role.as_str().unicode_len() > 0 {
        let mut text = " · ".to_string();
        text.append(role.as_str());
        push(&mut r, text, fg(DIM));
    }
    let mut text = "  [".to_string();
    match a.active_session_name() {
        Some(session) => {
            text.append(session.as_str());
        },
        None => {
            text.append("—");
        },
    }
    text.append(" ");
    push(&mut r, text, raw());
    push(&mut r, with_space(symbol, label.as_str()), fg(color));
    push(&mut r, "]".to_string(), raw());
    assert(spans_view(r@) =~= title_row(*a));
    r
}

/// The right side of the title: where the config file is.
pub fn render_config_path(a: &App, home: &str) -> (r: Vec<Span>)
    ensures
        spans_view(r@) == config_row(
            config::shown(a.config_path@, config::path_below(a.config_path@, home@)),
        ),
{
    let mut text = "cfg: ".to_string();
    text.append(config::display_path(a.config_path.as_str(), home).as_str());
    text.append(" ");
    one(text, fg(DIM))
}

// ---- the profiles ----------------------------------------------------------

/// The row of a profile.
pub open spec fn profile_row(a: App, i: int) -> Seq<SpanView> {
    let badge = badge_of(a.status_of(i));
    seq![
        sp(
            if i == a.active_profile {
                "▶ "@
            } else {
                "  "@
            },
            tinted(ACTIVE),
        ),
        sp(column(a.profile_list()[i].name, 24), unstyled()),
        sp(spaced(badge.0, badge.2), tinted(badge.1)),
    ]
}

/// The panel of the profiles.
pub open spec fn profiles_panel(a: App) -> PanelView {
    let focused = a.focus == Focus::Profiles;
    let n = a.profile_list().len();
    PanelView {
        frame: panel_frame("Profiles  (Enter = make active, l = login)"@, focused),
        rows: Seq::new(n, |i: int| profile_row(a, i)),
        selected: Some(
            if a.profile_sel < n {
                a.profile_sel
            } else if n > 0 {
                (n - 1) as usize
            } else {
                0
            },
        ),
        highlight: highlighted(focused),
        symbol: if focused {
            "│"@
        } else {
            " "@
        },
    }
}

fn profile_item(a: &App, i: usize) -> (r: Vec<Span>)
    requires
        i < a.aws.profiles@.len(),
    ensures
        spans_view(r@) == profile_row(*a, i as int),
{
    let (symbol, color, label) = badge(a.status_for_profile(i));
    let marker = if i == a.active_profile {
        "▶ "
    } else {
        "  "
    };
    let mut r: Vec<Span> = Vec::new();
    push(&mut r, marker.to_owned(), fg(ACTIVE));
    push(&mut r, in_column(a.aws.profiles[i].name.as_str(), 24), raw());
    push(&mut r, with_space(symbol, label.as_str()), fg(color));
    assert(spans_view(r@) =~= profile_row(*a, i as int));
    r
}

/// The panel of the profiles.
pub fn render_profiles(a: &App) -> (r: Panel)
    ensures
        r@ == profiles_panel(*a),
{
    let focused: bool = a.focus == Focus::Profiles;
    let mut rows: Vec<Vec<Span>> = Vec::new();
    let ghost wanted = profiles_panel(*a).rows;
    let n: usize = a.aws.profiles.len();
    assert(wanted.take(0) =~= Seq::empty());
    assert(rows_view(rows@) =~= Seq::empty());
    for i in 0..n
        invariant
            n == a.aws.profiles@.len(),
            wanted == profiles_panel(*a).rows,
            rows_view(rows@) == wanted.take(i as int),
    {
        push_row(&mut rows, profile_item(a, i));
        assert(wanted.take(i + 1) =~= wanted.take(i as int).push(wanted[i as int]));
    }
    assert(wanted.take(n as int) =~= wanted);
    let selected: usize = if a.profile_sel < n {
        a.profile_sel
    } else if n > 0 {
        n - 1
    } else {
        0
    };
    Panel {
        frame: panel_block("Profiles  (Enter = make active, l = login)", focused),
        rows,
        selected: Some(selected),
        highlight: highlight(focused),
        symbol: (if focused {
            "│"
        } else {
            " "
        }).to_owned(),
    }
}

// ---- the tunnels -----------------------------------------------------------

/// The row of a tunnel.
pub open spec fn tunnel_row(t: tunnel::TunnelView) -> Seq<SpanView> {
    let (symbol, color) = glyph(t.status);
    seq![
        sp(symbol + " "@, tinted(color)),
        sp(column(t.name, 22), unstyled()),
        sp(
            ":"@ + text::padded(text::decimal_digits(t.local_port as nat), 6),
            tinted(Color::White),
        ),
        sp(text::padded(t.status.word(), 9), tinted(color)),
        sp(tunnel::or_else(t.profile, "ssh"@), tinted(DIM)),
    ]
}

/// The row of a tunnel.
pub fn tunnel_item(t: &Tunnel) -> (r: Vec<Span>)
    ensures
        spans_view(r@) == tunnel_row(t@),
{
    let (symbol, color) = status_glyph(&t.status);
    let mut r: Vec<Span> = Vec::new();
    let mut lead = symbol.to_owned();
    lead.append(" ");
    push(&mut r, lead, fg(color));
    push(&mut r, in_column(t.name.as_str(), 22), raw());
    let mut port = ":".to_string();
    port.append(text::pad_right(text::decimal(t.local_port as u64).as_str(), 6).as_str());
    push(&mut r, port, fg(Color::White));
    push(&mut r, text::pad_right(t.status.label(), 9), fg(color));
    let profile = match &t.profile {
        Some(p) => p.clone(),
        None => "ssh".to_string(),
    };
    push(&mut r, profile, fg(DIM));
    assert(spans_view(r@) =~= tunnel_row(t@));
    r
}

/// The heading of a group.
pub open spec fn heading_row(group: Group) -> Seq<SpanView> {
    seq![sp("── "@ + group.heading() + " ──"@, strong(DIM))]
}

/// The row of a group without tunnels.
pub open spec fn empty_row() -> Seq<SpanView> {
    seq![sp("   (none — press d to add a database)"@, tinted(DIM))]
}

/// The rows of a group: its heading, and its tunnels or the notice that it has
/// none.
pub open spec fn group_rows(ts: Seq<tunnel::TunnelView>, group: Group) -> Seq<Seq<SpanView>> {
    let members = app::members(ts, group);
    seq![heading_row(group)] + (if members.len() == 0 {
        seq![empty_row()]
    } else {
        members.map_values(|i: usize| tunnel_row(ts[i as int]))
    })
}

/// The rows of the tunnels, group by group.
pub open spec fn tunnel_rows(ts: Seq<tunnel::TunnelView>) -> Seq<Seq<SpanView>> {
    group_rows(ts, Group::Services) + group_rows(ts, Group::Databases) + group_rows(
        ts,
        Group::Temporal,
    )
}

/// How many rows of the groups before this one do not show a tunnel, its own
/// heading among them.
pub open spec fn rows_between(ts: Seq<tunnel::TunnelView>, group: Group) -> int {
    let no_services: int = if app::members(ts, Group::Services).len() == 0 {
        1
    } else {
        0
    };
    let no_databases: int = if app::members(ts, Group::Databases).len() == 0 {
        1
    } else {
        0
    };
    match group {
        Group::Services => 1,
        Group::Databases => 2 + no_services,
        Group::Temporal => 3 + no_services + no_databases,
    }
}

/// The row of the selected tunnel.
pub open spec fn selected_row(a: App) -> Option<int> {
    match a.selection() {
        Some(i) => Some(
            a.tunnel_sel + rows_between(a.tunnel_list(), a.tunnel_list()[i as int].group),
        ),
        None => None,
    }
}

/// The panel of the tunnels.
pub open spec fn tunnels_panel(a: App) -> PanelView {
    let focused = a.focus == Focus::Tunnels;
    PanelView {
        frame: panel_frame("Tunnels  (s start · x stop · S/X group · d RDS)"@, focused),
        rows: tunnel_rows(a.tunnel_list()),
        selected: match selected_row(a) {
            Some(row) => Some(row as usize),
            None => None,
        },
        highlight: highlighted(focused),
        symbol: if focused {
            "│ "@
        } else {
            "  "@
        },
    }
}

/// The highlighted row is the one of the selected tunnel.
pub proof fn law_selected_row_shows_the_selection(a: App)
    requires
        a.selection() is Some,
    ensures
        0 <= selected_row(a)->0 < tunnel_rows(a.tunnel_list()).len(),
        tunnel_rows(a.tunnel_list())[selected_row(a)->0] == tunnel_row(
            a.tunnel_list()[a.selection()->0 as int],
        ),
{
    let ts = a.tunnel_list();
    assert(a.tunnels@.len() == a.tunnels.len());
    app::law_display_order(ts);
    app::lemma_display_at(ts, a.tunnel_sel as int);
    let s = group_rows(ts, Group::Services);
    let d = group_rows(ts, Group::Databases);
    let t = group_rows(ts, Group::Temporal);
    let i = a.selection()->0 as int;
    let row = selected_row(a)->0;
    match ts[i].group {
        Group::Services => {
            assert(tunnel_rows(ts)[row] == s[row]);
        },
        Group::Databases => {
            assert(tunnel_rows(ts)[row] == d[row - s.len()]);
        },
        Group::Temporal => {
            assert(tunnel_rows(ts)[row] == t[row - s.len() - d.len()]);
        },
    }
}

fn push_group(rows: &mut Vec<Vec<Span>>, a: &App, group: Group) -> (r: bool)
    ensures
        rows_view(final(rows)@) == rows_view(old(rows)@) + group_rows(a.tunnel_list(), group),
        final(rows)@.len() >= old(rows)@.len(),
        r == (app::members(a.tunnel_list(), group).len() == 0),
{
    let ghost before = rows_view(rows@);
    let ghost ts = a.tunnel_list();
    let ghost wanted = group_rows(ts, group);
    let mut heading = "── ".to_string();
    heading.append(group.title());
    heading.append(" ──");
    push_row(rows, one(heading, bold(DIM)));
    let members = a.in_group(group);
    proof {
        assert(a.tunnels@.len() == a.tunnels.len());
        app::lemma_members(ts, group);
    }
    if members.len() == 0 {
        push_row(rows, one("   (none — press d to add a database)".to_string(), fg(DIM)));
        assert(rows_view(rows@) =~= before + wanted);
        return true;
    }
    assert(rows_view(rows@) =~= before + wanted.take(1));
    for k in 0..members.len()
        invariant
            ts == a.tunnel_list(),
            members@ == app::members(ts, group),
            members@.len() > 0,
            wanted == group_rows(ts, group),
            forall|j: int| 0 <= j < members@.len() ==> (#[trigger] members@[j]) < ts.len(),
            rows_view(rows@) == before + wanted.take(1 + k),
            rows@.len() >= old(rows)@.len(),
    {
        let i: usize = members[k];
        assert(ts[i as int] == a.tunnels@[i as int]@);
        push_row(rows, tunnel_item(&a.tunnels[i]));
        assert(wanted[1 + k] == tunnel_row(ts[members@[k as int] as int]));
        assert(wanted.take(2 + k) =~= wanted.take(1 + k).push(wanted[1 + k]));
        assert(rows_view(rows@) =~= before + wanted.take(2 + k));
    }
    assert(wanted.take(1 + members@.len() as int) =~= wanted);
    false
}

/// The panel of the tunnels.
pub fn render_tunnels(a: &App) -> (r: Panel)
    ensures
        r@ == tunnels_panel(*a),
{
    let focused: bool = a.focus == Focus::Tunnels;
    let mut rows: Vec<Vec<Span>> = Vec::new();
    assert(rows_view(rows@) =~= Seq::empty());
    let no_services: bool = push_group(&mut rows, a, Group::Services);
    let no_databases: bool = push_group(&mut rows, a, Group::Databases);
    let _ = push_group(&mut rows, a, Group::Temporal);
    assert(rows_view(rows@) =~= tunnel_rows(a.tunnel_list()));
    let selected: Option<usize> = match a.selected_group() {
        None => None,
        Some(group) => {
            proof {
                law_selected_row_shows_the_selection(*a);
                assert(rows@.len() == rows_view(rows@).len());
                assert(rows@.len() == rows.len());
            }
            let first: usize = if no_services {
                1
            } else {
                0
            };
            let second: usize = if no_databases {
                1
            } else {
                0
            };
            let between: usize = match group {
                Group::Services => 1,
                Group::Databases => 2 + first,
                Group::Temporal => 3 + first + second,
            };
            Some(a.tunnel_sel + between)
        },
    };
    Panel {
        frame: panel_block("Tunnels  (s start · x stop · S/X group · d RDS)", focused),
        rows,
        selected,
        highlight: highlight(focused),
        symbol: (if focused {
            "│ "
        } else {
            "  "
        }).to_owned(),
    }
}

// ---- the detail ------------------------------------------------------------

/// How many lines of the log the detail shows.
pub const LOG_TAIL: usize = 8;

/// A framed text.
#[derive(Debug)]
pub struct Detail {
    pub frame: Frame,
    pub rows: Vec<Vec<Span>>,
    /// Rows that are too long go on in the next line.
    pub wrap: bool,
}

/// `Detail` as a mathematical value.
pub struct DetailView {
    pub frame: FrameView,
    pub rows: Seq<Seq<SpanView>>,
    pub wrap: bool,
}

impl View for Detail {
    type V = DetailView;

    open spec fn view(&self) -> DetailView {
        DetailView { frame: self.frame@, rows: rows_view(self.rows@), wrap: self.wrap }
    }
}

/// The last entries of a log.
pub open spec fn log_tail(log: Seq<Seq<char>>) -> Seq<Seq<char>> {
    if log.len() <= LOG_TAIL {
        log
    } else {
        log.skip(log.len() - LOG_TAIL)
    }
}

/// What the detail says of a tunnel: what it is, the command, why it failed if
/// it did, and the end of its log.
pub open spec fn detail_rows(t: tunnel::TunnelView) -> Seq<Seq<SpanView>> {
    let (symbol, color) = glyph(t.status);
    seq![
        seq![
            sp(symbol + " "@, tinted(color)),
            sp(t.name, strong(Color::White)),
            sp(
                "   "@ + t.group.heading() + "  →  localhost:"@ + text::decimal_digits(
                    t.local_port as nat,
                ),
                unstyled(),
            ),
        ],
        seq![sp(t.preview(), tinted(DIM))],
    ] + (match t.status {
        tunnel::StatusView::Failed(why) => seq![seq![sp("error: "@ + why, tinted(Color::Red))]],
        _ => seq![],
    }) + seq![seq![sp("── log ──"@, tinted(DIM))]] + log_tail(t.log).map_values(
        |line: Seq<char>| seq![sp(line, unstyled())],
    )
}

/// The detail of the selected tunnel.
pub open spec fn detail_panel(a: App) -> DetailView {
    DetailView {
        frame: panel_frame("Detail"@, false),
        rows: match a.selection() {
            Some(i) => detail_rows(a.tunnel_list()[i as int]),
            None => seq![seq![sp("No tunnel selected"@, unstyled())]],
        },
        wrap: a.selection() is Some,
    }
}

fn detail_of(t: &Tunnel) -> (r: Vec<Vec<Span>>)
    ensures
        rows_view(r@) == detail_rows(t@),
{
    let (symbol, color) = status_glyph(&t.status);
    let mut head: Vec<Span> = Vec::new();
    let mut lead = symbol.to_owned();
    lead.append(" ");
    push(&mut head, lead, fg(color));
    push(&mut head, t.name.clone(), bold(Color::White));
    let mut place = "   ".to_string();
    place.append(t.group.title());
    place.append("  →  localhost:");
    place.append(text::decimal(t.local_port as u64).as_str());
    push(&mut head, place, raw());
    let ghost wanted = detail_rows(t@);
    assert(spans_view(head@) =~= wanted[0]);
    let mut r: Vec<Vec<Span>> = Vec::new();
    push_row(&mut r, head);
    push_row(&mut r, one(t.command_preview(), fg(DIM)));
    if let Status::Failed(why) = &t.status {
        let mut text = "error: ".to_string();
        text.append(why.as_str());
        push_row(&mut r, one(text, fg(Color::Red)));
    }
    push_row(&mut r, one("── log ──".to_string(), fg(DIM)));
    let from: usize = if t.log.len() > LOG_TAIL {
        t.log.len() - LOG_TAIL
    } else {
        0
    };
    let ghost tail = log_tail(t@.log);
    let ghost above = rows_view(r@);
    assert(t@.log.len() == t.log@.len());
    assert(above =~= wanted.take(above.len() as int));
    assert(wanted.len() == above.len() + tail.len());
    for i in from..t.log.len()
        invariant
            from <= t.log@.len(),
            t@.log.len() == t.log@.len(),
            tail == log_tail(t@.log),
            tail.len() == t.log@.len() - from,
            forall|j: int| 0 <= j < tail.len() ==> #[trigger] tail[j] == t.log@[from + j]@,
            wanted == detail_rows(t@),
            wanted.len() == above.len() + tail.len(),
            rows_view(r@) == wanted.take(above.len() + i - from),
    {
        push_row(&mut r, one(t.log[i].clone(), raw()));
        let ghost k = above.len() + i - from;
        assert(tail[i - from] == t.log@[i as int]@);
        assert(wanted[k] == seq![sp(tail[i - from], unstyled())]);
        assert(wanted.take(k + 1) =~= wanted.take(k).push(wanted[k]));
    }
    assert(wanted.take(wanted.len() as int) =~= wanted);
    r
}

/// The detail of the selected tunnel.
pub fn render_detail(a: &App) -> (r: Detail)
    ensures
        r@ == detail_panel(*a),
{
    let frame = panel_block("Detail", false);
    match a.selected_tunnel() {
        None => {
            let mut rows: Vec<Vec<Span>> = Vec::new();
            push_row(&mut rows, one("No tunnel selected".to_string(), raw()));
            assert(rows_view(rows@) =~= detail_panel(*a).rows);
            Detail { frame, rows, wrap: false }
        },
        Some(i) => Detail { frame, rows: detail_of(&a.tunnels[i]), wrap: true },
    }
}

// ---- toast, keys, picker ---------------------------------------------------

/// The line of the toast.
pub open spec fn toast_row(a: App) -> Option<Seq<SpanView>> {
    match a.toast {
        Some(t) => Some(
            seq![
                sp(
                    " "@ + t.message@ + " "@,
                    strong(
                        if t.error {
                            Color::Red
                        } else {
                            Color::Green
                        },
                    ),
                ),
            ],
        ),
        None => None,
    }
}

/// The line of the toast.
pub fn render_toast(a: &App) -> (r: Option<Vec<Span>>)
    ensures
        match r {
            Some(row) => toast_row(*a) == Some(spans_view(row@)),
            None => toast_row(*a) is None,
        },
{
    match &a.toast {
        Some(t) => {
            let mut text = " ".to_string();
            text.append(t.message.as_str());
            text.append(" ");
            let color = if t.error {
                Color::Red
            } else {
                Color::Green
            };
            Some(one(text, bold(color)))
        },
        None => None,
    }
}

/// The line of the keys.
pub fn render_keys() -> (r: Vec<Span>)
    ensures
        spans_view(r@) == seq![
            sp(
                "Tab focus · ↑↓ move · Enter select/start · s start · x stop · S/X group · d RDS · l login · r refresh · q quit"@,
                tinted(DIM),
            ),
        ],
{
    one(
        "Tab focus · ↑↓ move · Enter select/start · s start · x stop · S/X group · d RDS · l login · r refresh · q quit".to_string(),
        fg(DIM),
    )
}

/// The row of a database.
pub open spec fn database_row(inst: rds::RdsInstanceView) -> Seq<SpanView> {
    seq![
        sp(column(inst.identifier, 28), tinted(Color::White)),
        sp(
            truncated(inst.endpoint, 48) + ":"@ + text::decimal_digits(inst.port as nat) + "  "@,
            unstyled(),
        ),
        sp(inst.engine, tinted(DIM)),
    ]
}

/// The picker.
pub open spec fn picker_panel(p: RdsPicker) -> PanelView {
    PanelView {
        frame: FrameView {
            title: sp(
                " Select RDS — "@ + p.profile@ + "  (↑↓ move · Enter tunnel · Esc cancel) "@,
                unstyled(),
            ),
            border: ACTIVE,
        },
        rows: Seq::new(p.items@.len(), |i: int| database_row(p.items@[i]@)),
        selected: Some(p.selected),
        highlight: highlighted(true),
        symbol: "│ "@,
    }
}

fn database_item(inst: &RdsInstance) -> (r: Vec<Span>)
    ensures
        spans_view(r@) == database_row(inst@),
{
    let mut r: Vec<Span> = Vec::new();
    push(&mut r, in_column(inst.identifier.as_str(), 28), fg(Color::White));
    let mut place = truncate(inst.endpoint.as_str(), 48);
    place.append(":");
    place.append(text::decimal(inst.port as u64).as_str());
    place.append("  ");
    push(&mut r, place, raw());
    push(&mut r, inst.engine.clone(), fg(DIM));
    assert(spans_view(r@) =~= database_row(inst@));
    r
}

/// The picker, where it is open.
pub fn render_picker(a: &App) -> (r: Option<Panel>)
    ensures
        match (r, a.picker) {
            (Some(panel), Some(p)) => panel@ == picker_panel(p),
            (None, None) => true,
            _ => false,
        },
{
    match &a.picker {
        None => None,
        Some(p) => {
            let mut rows: Vec<Vec<Span>> = Vec::new();
            let ghost wanted = picker_panel(*p).rows;
            assert(wanted.take(0) =~= Seq::empty());
            assert(rows_view(rows@) =~= Seq::empty());
            for i in 0..p.items.len()
                invariant
                    wanted == picker_panel(*p).rows,
                    rows_view(rows@) == wanted.take(i as int),
            {
                push_row(&mut rows, database_item(&p.items[i]));
                assert(wanted.take(i + 1) =~= wanted.take(i as int).push(wanted[i as int]));
            }
            assert(wanted.take(p.items@.len() as int) =~= wanted);
            let mut title = " Select RDS — ".to_string();
            title.append(p.profile.as_str());
            title.append("  (↑↓ move · Enter tunnel · Esc cancel) ");
            Some(
                Panel {
                    frame: Frame { title: Span { text: title, style: raw() }, border: ACTIVE },
                    rows,
                    selected: Some(p.selected),
                    highlight: highlight(true),
                    symbol: "│ ".to_string(),
                },
            )
        },
    }
}

} // verus!
