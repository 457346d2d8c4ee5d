//! What holds of what the screen shows.

use vstd::prelude::*;

use crate::app;
use crate::app::{App, Focus, RdsPicker};
use crate::aws::rds;
use crate::aws::sso::TokenStatus;
use crate::layout;
use crate::text;
use crate::tunnel;
use crate::tunnel::Group;
use crate::ui;
use crate::ui::{Color, Style};

verus! {

/// The colours and styles.
pub proof fn law_styles(c: Color, focused: bool, title: Seq<char>)
    ensures
        ui::unstyled() == (Style { fg: None, bg: None, bold: false, dim: false }),
        ui::tinted(c) == (Style { fg: Some(c), bg: None, bold: false, dim: false }),
        ui::strong(c) == (Style { fg: Some(c), bg: None, bold: true, dim: false }),
        ui::highlighted(true) == (Style {
            fg: None,
            bg: Some(Color::Rgb(40, 50, 60)),
            bold: true,
            dim: false,
        }),
        ui::highlighted(false) == (Style { fg: None, bg: None, bold: false, dim: true }),
        ui::panel_frame(title, focused).title.text == " "@ + title + " "@,
        ui::panel_frame(title, true).title.style == ui::tinted(Color::White),
        ui::panel_frame(title, false).title.style == ui::tinted(Color::DarkGray),
        ui::panel_frame(title, true).border == Color::Cyan,
        ui::panel_frame(title, false).border == Color::DarkGray,
{
}

/// Each status has its own glyph and colour.
pub proof fn law_glyphs(s: tunnel::StatusView)
    ensures
        s is Stopped ==> ui::glyph(s) == ("○"@, Color::DarkGray),
        s is Starting ==> ui::glyph(s) == ("◍"@, Color::Yellow),
        s is Running ==> ui::glyph(s) == ("●"@, Color::Green),
        s is Failed ==> ui::glyph(s) == ("✗"@, Color::Red),
        s is External ==> ui::glyph(s) == ("▣"@, Color::Blue),
{
}

/// Durations lose only what is below their smallest unit: hours and minutes from
/// an hour on, minutes from a minute on, seconds below.
pub proof fn law_durations(secs: int, h: nat, m: nat, s: nat)
    requires
        secs == h * 3600 + m * 60 + s,
        m < 60,
        s < 60,
    ensures
        h > 0 ==> ui::duration(secs) == text::decimal_digits(h) + "h"@ + text::decimal_digits(m)
            + "m"@,
        h == 0 && m > 0 ==> ui::duration(secs) == text::decimal_digits(m) + "m"@,
        h == 0 && m == 0 ==> ui::duration(secs) == text::decimal_digits(s) + "s"@,
{
    assert(secs / 3600 == h) by (nonlinear_arith)
        requires
            secs == h * 3600 + m * 60 + s,
            m < 60,
            s < 60,
            h >= 0,
            m >= 0,
            s >= 0,
    ;
    assert(secs % 3600 == m * 60 + s) by (nonlinear_arith)
        requires
            secs == h * 3600 + m * 60 + s,
            m < 60,
            s < 60,
            h >= 0,
            m >= 0,
            s >= 0,
    ;
    assert((m * 60 + s) / 60 == m as int);
}

/// A badge tells the four states of a token apart, and how long it lasts.
pub proof fn law_badges(status: TokenStatus)
    ensures
        status matches TokenStatus::Valid(s) ==> ui::badge_of(status) == (
            "●"@,
            Color::Green,
            "valid "@ + ui::duration(s as int),
        ),
        status matches TokenStatus::Expiring(s) ==> ui::badge_of(status) == (
            "▲"@,
            Color::Yellow,
            "expiring "@ + ui::duration(s as int),
        ),
        status is Expired ==> ui::badge_of(status) == ("✕"@, Color::Red, "expired"@),
        status is NoToken ==> ui::badge_of(status) == ("○"@, Color::DarkGray, "login"@),
{
}

/// A text that fits is not cut; one that does not keeps its beginning and ends in
/// an ellipsis.
pub proof fn law_truncation(s: Seq<char>, max: nat)
    requires
        max > 0,
    ensures
        s.len() <= max ==> ui::truncated(s, max) == s,
        s.len() > max ==> {
            &&& ui::truncated(s, max).len() == max
            &&& ui::truncated(s, max).last() == '…'
            &&& ui::truncated(s, max).drop_last() == s.take(max - 1)
        },
{
    if s.len() > max {
        assert(ui::truncated(s, max).drop_last() =~= s.take(max - 1));
    }
}

/// The title names the active profile, its role if it has one, its session and
/// the state of its token.
pub proof fn law_title(a: App, session: Seq<char>)
    requires
        a.session_of(a.active_profile as int) matches Some(s) ==> session == s,
        a.session_of(a.active_profile as int) is None ==> session == "—"@,
    ensures
        ({
            let row = ui::title_row(a);
            let (symbol, color, label) = ui::badge_of(a.status_of(a.active_profile as int));
            let role = if a.active_profile < a.aws.profiles@.len() {
                text::opt_view(a.aws.profiles@[a.active_profile as int].role)
            } else {
                None
            };
            let n = row.len();
            &&& row[0].text == " moleman "@
            &&& row[0].style == (Style {
                fg: Some(Color::Black),
                bg: Some(Color::Cyan),
                bold: true,
                dim: false,
            })
            &&& row[1].text == "  active: "@ && row[1].style == ui::unstyled()
            &&& row[2].text == a.active_name() && row[2].style == ui::strong(Color::White)
            &&& role is Some && role->0.len() > 0 ==> n == 7 && row[3].text == " · "@ + role->0
                && row[3].style == ui::tinted(Color::DarkGray)
            &&& role is None || role->0.len() == 0 ==> n == 6
            &&& row[n - 3].text == "  ["@ + session + " "@ && row[n - 3].style == ui::unstyled()
            &&& row[n - 2].text == symbol + " "@ + label && row[n - 2].style == ui::tinted(color)
            &&& row[n - 1].text == "]"@ && row[n - 1].style == ui::unstyled()
        }),
{
    if a.active_profile < a.aws.profiles@.len() {
        assert(a.profile_list()[a.active_profile as int]
            == a.aws.profiles@[a.active_profile as int]@);
    }
}

/// The path of the config file stands to the right of the title.
pub proof fn law_config_path(path: Seq<char>)
    ensures
        ui::config_row(path).len() == 1,
        ui::config_row(path)[0].text == "cfg: "@ + path + " "@,
        ui::config_row(path)[0].style == ui::tinted(Color::DarkGray),
{
}

/// Every profile has its row, in order, with its own badge; the active one is
/// marked, the selected one highlighted.
pub proof fn law_profiles(a: App, i: int)
    requires
        0 <= i < a.aws.profiles@.len(),
        a.profile_sel < a.aws.profiles@.len(),
    ensures
        ({
            let panel = ui::profiles_panel(a);
            let row = panel.rows[i];
            let (symbol, color, label) = ui::badge_of(a.status_of(i));
            let name = a.aws.profiles@[i].name@;
            &&& panel.rows.len() == a.aws.profiles@.len()
            &&& panel.selected == Some(a.profile_sel)
            &&& row.len() == 3
            &&& row[0].text == (if i == a.active_profile {
                "▶ "@
            } else {
                "  "@
            })
            &&& row[0].style == ui::tinted(Color::Cyan)
            &&& name.len() <= 24 ==> row[1].text == text::padded(name, 24)
            &&& name.len() > 24 ==> row[1].text == name.take(23).push('…')
            &&& row[1].style == ui::unstyled()
            &&& row[2].text == symbol + " "@ + label
            &&& row[2].style == ui::tinted(color)
            &&& panel.frame == ui::panel_frame(
                "Profiles  (Enter = make active, l = login)"@,
                a.focus == Focus::Profiles,
            )
            &&& panel.highlight == ui::highlighted(a.focus == Focus::Profiles)
            &&& panel.symbol == (if a.focus == Focus::Profiles {
                "│"@
            } else {
                " "@
            })
        }),
{
    assert(a.profile_list()[i] == a.aws.profiles@[i]@);
}

/// Without profiles, or with a selection beyond them, the highlight stays within
/// the list.
pub proof fn law_highlight_of_profiles(a: App)
    ensures
        ui::profiles_panel(a).selected is Some,
        a.aws.profiles@.len() == 0 ==> ui::profiles_panel(a).selected == Some(0usize),
        a.aws.profiles@.len() > 0 ==> ui::profiles_panel(a).selected->0 < a.aws.profiles@.len(),
        a.profile_sel >= a.aws.profiles@.len() && a.aws.profiles@.len() > 0
            ==> ui::profiles_panel(a).selected->0 == a.aws.profiles@.len() - 1,
{
    assert(a.aws.profiles@.len() == a.aws.profiles.len());
}

/// The row of a tunnel shows its status, name, local port, and profile.
pub proof fn law_rows_of_tunnels(t: tunnel::TunnelView)
    ensures
        ({
            let row = ui::tunnel_row(t);
            let (symbol, color) = ui::glyph(t.status);
            &&& row.len() == 5
            &&& row[0].text == symbol + " "@ && row[0].style == ui::tinted(color)
            &&& t.name.len() <= 22 ==> row[1].text == text::padded(t.name, 22)
            &&& t.name.len() > 22 ==> row[1].text == t.name.take(21).push('…')
            &&& row[1].style == ui::unstyled()
            &&& row[2].text == ":"@ + text::padded(
                text::decimal_digits(t.local_port as nat),
                6,
            ) && row[2].style == ui::tinted(Color::White)
            &&& row[3].text == text::padded(t.status.word(), 9) && row[3].style == ui::tinted(
                color,
            )
            &&& t.profile matches Some(p) ==> row[4].text == p
            &&& t.profile is None ==> row[4].text == "ssh"@
            &&& row[4].style == ui::tinted(Color::DarkGray)
        }),
{
}

/// Under the heading of each group stand the rows of its tunnels, in order, or the
/// notice that there are none; the groups come services first, Temporal last.
pub proof fn law_groups(ts: Seq<tunnel::TunnelView>, group: Group, k: int)
    ensures
        ({
            let rows = ui::group_rows(ts, group);
            let members = app::members(ts, group);
            &&& rows[0].len() == 1
            &&& rows[0][0].text == "── "@ + group.heading() + " ──"@
            &&& rows[0][0].style == ui::strong(Color::DarkGray)
            &&& members.len() == 0 ==> rows.len() == 2 && rows[1].len() == 1 && rows[1][0].text
                == "   (none — press d to add a database)"@ && rows[1][0].style == ui::tinted(
                Color::DarkGray,
            )
            &&& members.len() > 0 ==> rows.len() == members.len() + 1
            &&& 0 <= k < members.len() ==> rows[k + 1] == ui::tunnel_row(ts[members[k] as int])
        }),
        ui::tunnel_rows(ts) == ui::group_rows(ts, Group::Services) + ui::group_rows(
            ts,
            Group::Databases,
        ) + ui::group_rows(ts, Group::Temporal),
{
}

/// The panel of the tunnels highlights the row of the selected tunnel, and no row
/// where none is selected.
pub proof fn law_tunnels_panel(a: App)
    ensures
        ({
            let panel = ui::tunnels_panel(a);
            &&& panel.rows == ui::tunnel_rows(a.tunnel_list())
            &&& a.selection() is None ==> panel.selected is None
            &&& a.selection() matches Some(i) ==> panel.selected is Some && (a.tunnels@.len() + 6
                <= usize::MAX ==> panel.rows[panel.selected->0 as int] == ui::tunnel_row(
                a.tunnels@[i as int]@,
            ))
            &&& panel.frame == ui::panel_frame(
                "Tunnels  (s start · x stop · S/X group · d RDS)"@,
                a.focus == Focus::Tunnels,
            )
            &&& panel.highlight == ui::highlighted(a.focus == Focus::Tunnels)
            &&& panel.symbol == (if a.focus == Focus::Tunnels {
                "│ "@
            } else {
                "  "@
            })
        }),
{
    if let Some(i) = a.selection() {
        ui::law_selected_row_shows_the_selection(a);
        assert(a.tunnels@.len() == a.tunnels.len());
        app::law_display_order(a.tunnel_list());
        assert(a.tunnel_list()[i as int] == a.tunnels@[i as int]@);
    }
}

/// The detail says what the tunnel is, what it runs, why it failed if it did, and
/// the last eight lines of its log.
pub proof fn law_detail(t: tunnel::TunnelView, k: int)
    ensures
        ({
            let rows = ui::detail_rows(t);
            let (symbol, color) = ui::glyph(t.status);
            let shown: int = if t.log.len() <= 8 {
                t.log.len() as int
            } else {
                8
            };
            let head: int = if t.status is Failed {
                4
            } else {
                3
            };
            &&& rows.len() == head + shown
            &&& rows[0].len() == 3
            &&& rows[0][0].text == symbol + " "@ && rows[0][0].style == ui::tinted(color)
            &&& rows[0][1].text == t.name && rows[0][1].style == ui::strong(Color::White)
            &&& rows[0][2].text == "   "@ + t.group.heading() + "  →  localhost:"@
                + text::decimal_digits(t.local_port as nat) && rows[0][2].style == ui::unstyled()
            &&& rows[1] == seq![ui::SpanView {
                text: t.preview(),
                style: ui::tinted(Color::DarkGray),
            }]
            &&& t.status matches tunnel::StatusView::Failed(why) ==> rows[2] == seq![ui::SpanView {
                text: "error: "@ + why,
                style: ui::tinted(Color::Red),
            }]
            &&& rows[head - 1] == seq![ui::SpanView {
                text: "── log ──"@,
                style: ui::tinted(Color::DarkGray),
            }]
            &&& 0 <= k < shown ==> rows[head + k] == seq![ui::SpanView {
                text: t.log[t.log.len() - shown + k],
                style: ui::unstyled(),
            }]
        }),
{
}

/// The detail is that of the selected tunnel.
pub proof fn law_detail_panel(a: App)
    ensures
        a.selection() matches Some(i) ==> ui::detail_panel(a).rows == ui::detail_rows(
            a.tunnel_list()[i as int],
        ) && ui::detail_panel(a).wrap,
        a.selection() is None ==> ui::detail_panel(a).rows == seq![
            seq![ui::SpanView { text: "No tunnel selected"@, style: ui::unstyled() }],
        ] && !ui::detail_panel(a).wrap,
        ui::detail_panel(a).frame == ui::panel_frame("Detail"@, false),
{
}

/// A toast is shown as it is, red where it is an error and green otherwise.
pub proof fn law_toast_row(a: App)
    ensures
        a.toast is None ==> ui::toast_row(a) is None,
        a.toast matches Some(t) ==> ui::toast_row(a) == Some(
            seq![ui::SpanView {
                text: " "@ + t.message@ + " "@,
                style: ui::strong(
                    if t.error {
                        Color::Red
                    } else {
                        Color::Green
                    },
                ),
            }],
        ),
{
}

/// The picker lists every database, in order, by identifier, endpoint and port,
/// and engine, and highlights the selected one.
pub proof fn law_picker(p: RdsPicker, i: int)
    requires
        0 <= i < p.items@.len(),
    ensures
        ({
            let panel = ui::picker_panel(p);
            let row = panel.rows[i];
            let inst = p.items@[i]@;
            &&& panel.rows.len() == p.items@.len()
            &&& panel.selected == Some(p.selected)
            &&& panel.frame.title.text == " Select RDS — "@ + p.profile@
                + "  (↑↓ move · Enter tunnel · Esc cancel) "@
            &&& panel.frame.title.style == ui::unstyled()
            &&& panel.frame.border == Color::Cyan
            &&& panel.highlight == ui::highlighted(true)
            &&& panel.symbol == "│ "@
            &&& row == ui::database_row(inst)
        }),
{
}

/// The row of a database.
pub proof fn law_rows_of_databases(inst: rds::RdsInstanceView)
    ensures
        ({
            let row = ui::database_row(inst);
            let place = ":"@ + text::decimal_digits(inst.port as nat) + "  "@;
            &&& row.len() == 3
            &&& inst.identifier.len() <= 28 ==> row[0].text == text::padded(inst.identifier, 28)
            &&& inst.identifier.len() > 28 ==> row[0].text == inst.identifier.take(27).push('…')
            &&& row[0].style == ui::tinted(Color::White)
            &&& inst.endpoint.len() <= 48 ==> row[1].text == inst.endpoint + place
            &&& inst.endpoint.len() > 48 ==> row[1].text == inst.endpoint.take(47).push('…')
                + place
            &&& row[1].style == ui::unstyled()
            &&& row[2].text == inst.engine
            &&& row[2].style == ui::tinted(Color::DarkGray)
        }),
{
    let place = ":"@ + text::decimal_digits(inst.port as nat) + "  "@;
    assert(ui::database_row(inst)[1].text =~= ui::truncated(inst.endpoint, 48) + place);
}

// ---- where it stands -------------------------------------------------------

/// The middle part takes its share and leaves the same on both sides.
pub proof fn law_middle(percent: u16)
    requires
        percent <= 100,
    ensures
        ({
            let m = layout::middle(percent);
            &&& m.len() == 3
            &&& m[1] == layout::Size::Percentage(percent)
            &&& m[0] == m[2]
            &&& m[0] matches layout::Size::Percentage(side) && 99 <= 2 * side + percent <= 100
        }),
{
}

/// How the screen is divided: a line for the title, a line each for the toast and
/// the keys at the bottom, and between them the profiles on the left and the
/// tunnels above the detail on the right.
pub proof fn law_screen(area: layout::Area, s: layout::Screen) -> (parts: (
    Seq<layout::Area>,
    Seq<layout::Area>,
    Seq<layout::Area>,
    Seq<layout::Area>,
))
    requires
        layout::divides(area, s),
    ensures
        ({
            let (rows, title, body, right) = parts;
            &&& layout::may_split(
                layout::Direction::Vertical,
                seq![
                    layout::Size::Length(1),
                    layout::Size::Min(0),
                    layout::Size::Length(1),
                    layout::Size::Length(1),
                ],
                area,
                rows,
            )
            &&& layout::may_split(
                layout::Direction::Horizontal,
                seq![layout::Size::Min(0), layout::Size::Length(40)],
                rows[0],
                title,
            )
            &&& layout::may_split(
                layout::Direction::Horizontal,
                seq![layout::Size::Percentage(34), layout::Size::Min(0)],
                rows[1],
                body,
            )
            &&& layout::may_split(
                layout::Direction::Vertical,
                seq![layout::Size::Percentage(58), layout::Size::Min(0)],
                body[1],
                right,
            )
            &&& s.title == title[0] && s.config == title[1]
            &&& s.body == rows[1] && s.toast == rows[2] && s.keys == rows[3]
            &&& s.profiles == body[0]
            &&& s.tunnels == right[0] && s.detail == right[1]
        }),
{
    let (rows, title, body, right) = choose|
        rows: Seq<layout::Area>,
        title: Seq<layout::Area>,
        body: Seq<layout::Area>,
        right: Seq<layout::Area>,
    |
        {
            &&& #[trigger] layout::may_split(
                layout::Direction::Vertical,
                layout::screen_rows(),
                area,
                rows,
            )
            &&& #[trigger] layout::may_split(
                layout::Direction::Horizontal,
                layout::title_columns(),
                rows[0],
                title,
            )
            &&& #[trigger] layout::may_split(
                layout::Direction::Horizontal,
                layout::share(34),
                rows[1],
                body,
            )
            &&& #[trigger] layout::may_split(
                layout::Direction::Vertical,
                layout::share(58),
                body[1],
                right,
            )
            &&& s == (layout::Screen {
                title: title[0],
                config: title[1],
                body: rows[1],
                profiles: body[0],
                tunnels: right[0],
                detail: right[1],
                toast: rows[2],
                keys: rows[3],
            })
        };
    (rows, title, body, right)
}

/// What is centered is the middle of the middle.
pub proof fn law_centered(percent_x: u16, percent_y: u16, area: layout::Area, r: layout::Area)
    requires
        layout::centered(percent_x, percent_y, area, r),
    ensures
        exists|rows: Seq<layout::Area>, columns: Seq<layout::Area>| #[trigger]
            layout::may_split(
                layout::Direction::Vertical,
                layout::middle(percent_y),
                area,
                rows,
            ) && #[trigger] layout::may_split(
                layout::Direction::Horizontal,
                layout::middle(percent_x),
                rows[1],
                columns,
            ) && r == columns[1],
{
}

} // verus!
