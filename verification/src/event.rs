//! What the keys do.

use vstd::prelude::*;

use crate::app;
use crate::app::{App, Focus, RdsPicker};
use crate::tunnel::StopSignals;

verus! {

/// The keys that the dashboard tells apart.
#[derive(Debug, Clone, Copy, PartialEq, Eq, Structural)]
pub enum KeyCode {
    Char(char),
    Tab,
    BackTab,
    Up,
    Down,
    Enter,
    Esc,
    Other,
}

/// A key event.
#[derive(Debug, Clone, Copy, PartialEq, Eq, Structural)]
pub struct KeyEvent {
    /// The key went down; it was neither held nor let go.
    pub press: bool,
    pub code: KeyCode,
    /// The control key was held.
    pub control: bool,
}

/// What a key asks to be done outside.
#[derive(Debug)]
pub enum Action {
    Nothing,
    /// Start these tunnels, one after the other.
    Start(Vec<usize>),
    /// Signal the processes of these tunnels.
    Signal(Vec<(usize, StopSignals)>),
    /// Look up the databases visible to a profile.
    Discover { profile: String, region: String },
    /// Run `aws sso login` for a session.
    Login(String),
    /// Read the token cache and look up the services.
    Refresh,
}

/// `Action` as a mathematical value.
pub enum ActionView {
    Nothing,
    Start(Seq<usize>),
    Signal(Seq<(usize, StopSignals)>),
    Discover { profile: Seq<char>, region: Seq<char> },
    Login(Seq<char>),
    Refresh,
}

impl View for Action {
    type V = ActionView;

    open spec fn view(&self) -> ActionView {
        match *self {
            Action::Nothing => ActionView::Nothing,
            Action::Start(v) => ActionView::Start(v@),
            Action::Signal(v) => ActionView::Signal(v@),
            Action::Discover { profile, region } => ActionView::Discover {
                profile: profile@,
                region: region@,
            },
            Action::Login(s) => ActionView::Login(s@),
            Action::Refresh => ActionView::Refresh,
        }
    }
}

/// Control-C.
pub open spec fn interrupts(key: KeyEvent) -> bool {
    key.code == KeyCode::Char('c') && key.control
}

/// The key goes to the picker, and confirms the pick.
pub open spec fn confirms(app: App, key: KeyEvent) -> bool {
    key.press && !interrupts(key) && app.picker is Some && key.code == KeyCode::Enter
}

/// The action that starts what `started` names.
pub open spec fn starts(started: Option<usize>) -> ActionView {
    match started {
        Some(i) => ActionView::Start(seq![i]),
        None => ActionView::Nothing,
    }
}

/// What a key does while the picker is open.
pub open spec fn picker_key(
    pre: App,
    post: App,
    code: KeyCode,
    action: ActionView,
    now: u64,
) -> bool {
    match pre.picker {
        None => post == pre && action is Nothing,
        Some(p) => if code == KeyCode::Esc || code == KeyCode::Char('q') {
            post == (App { picker: None, ..pre }) && action is Nothing
        } else if code == KeyCode::Up || code == KeyCode::Char('k') {
            &&& action is Nothing
            &&& post == (App {
                picker: Some(RdsPicker { selected: app::step_up(p.selected), ..p }),
                ..pre
            })
        } else if code == KeyCode::Down || code == KeyCode::Char('j') {
            &&& action is Nothing
            &&& post == (App {
                picker: Some(
                    RdsPicker { selected: app::step_down(p.selected, p.items@.len()), ..p },
                ),
                ..pre
            })
        } else if code == KeyCode::Enter {
            exists|started: Option<usize>| #[trigger]
                app::confirmed(pre, post, started, now) && action == starts(started)
        } else {
            post == pre && action is Nothing
        },
    }
}

/// What a key does while no picker is open.
pub open spec fn panel_key(
    pre: App,
    post: App,
    code: KeyCode,
    action: ActionView,
    now: u64,
) -> bool {
    match code {
        KeyCode::Tab | KeyCode::BackTab => post == pre.refocused() && action is Nothing,
        KeyCode::Up => post == pre.moved_up() && action is Nothing,
        KeyCode::Down => post == pre.moved_down() && action is Nothing,
        KeyCode::Enter => match pre.focus {
            Focus::Profiles => app::activated(pre, post, now) && action is Nothing,
            Focus::Tunnels => post == pre && action == starts(pre.selection()),
        },
        KeyCode::Char(c) => letter_key(pre, post, c, action, now),
        KeyCode::Esc | KeyCode::Other => post == pre && action is Nothing,
    }
}

/// What a letter does while no picker is open.
pub open spec fn letter_key(pre: App, post: App, c: char, action: ActionView, now: u64) -> bool {
    if c == 'q' {
        post == (App { should_quit: true, ..pre }) && action is Nothing
    } else if c == 'k' {
        post == pre.moved_up() && action is Nothing
    } else if c == 'j' {
        post == pre.moved_down() && action is Nothing
    } else if c == 's' {
        post == pre && action == starts(pre.selection())
    } else if c == 'x' {
        match pre.selection() {
            Some(i) => action matches ActionView::Signal(orders) && orders.len() == 1
                && app::selected_stopped(pre, post, Some(orders[0])),
            None => post == pre && action is Nothing,
        }
    } else if c == 'S' {
        post == pre && match pre.selection() {
            Some(i) => action == ActionView::Start(
                app::idle_members(pre.tunnel_list(), pre.tunnel_list()[i as int].group),
            ),
            None => action is Nothing,
        }
    } else if c == 'X' {
        match pre.selection() {
            Some(i) => action matches ActionView::Signal(orders) && app::group_stopped(
                pre,
                post,
                Some(pre.tunnel_list()[i as int].group),
                orders,
            ),
            None => post == pre && action is Nothing,
        }
    } else if c == 'd' {
        app::discovery_announced(pre, post, now) && action == (ActionView::Discover {
            profile: pre.active_name(),
            region: pre.config.region@,
        })
    } else if c == 'l' {
        match action {
            ActionView::Login(s) => app::login_triggered(pre, post, Some(s), now),
            ActionView::Nothing => app::login_triggered(pre, post, None, now),
            _ => false,
        }
    } else if c == 'r' {
        post == pre && action is Refresh
    } else {
        post == pre && action is Nothing
    }
}

/// What a key does.
pub open spec fn handled(pre: App, post: App, key: KeyEvent, action: ActionView, now: u64) -> bool {
    if !key.press {
        post == pre && action is Nothing
    } else if interrupts(key) {
        post == (App { should_quit: true, ..pre }) && action is Nothing
    } else if pre.picker is Some {
        picker_key(pre, post, key.code, action, now)
    } else {
        panel_key(pre, post, key.code, action, now)
    }
}

/// Whether the key can be handled: it does not confirm a pick, or the pick can
/// be confirmed.
pub fn can_handle(app: &App, key: KeyEvent) -> (r: bool)
    ensures
        r == (confirms(*app, key) ==> app.pick_fits()),
{
    let interrupt: bool = key.code == KeyCode::Char('c') && key.control;
    let confirm: bool = key.press && !interrupt && app.picker.is_some() && key.code
        == KeyCode::Enter;
    !confirm || app.can_confirm_pick()
}

fn start_action(started: Option<usize>) -> (r: Action)
    ensures
        r@ == starts(started),
{
    match started {
        Some(i) => {
            let mut v: Vec<usize> = Vec::new();
            v.push(i);
            assert(v@ =~= seq![i]);
            Action::Start(v)
        },
        None => Action::Nothing,
    }
}

/// Translate a key press into an action on the app.
pub fn handle_key(app: &mut App, key: KeyEvent, now: u64) -> (r: Action)
    requires
        confirms(*old(app), key) ==> old(app).pick_fits(),
    ensures
        old(app).wf() ==> final(app).wf(),
        handled(*old(app), *final(app), key, r@, now),
{
    if !key.press {
        return Action::Nothing;
    }
    // Global quit.
    if key.code == KeyCode::Char('c') && key.control {
        app.should_quit = true;
        return Action::Nothing;
    }
    // The RDS picker overlay captures input while open.
    if app.picker.is_some() {
        return handle_picker_key(app, key.code, now);
    }
    match key.code {
        KeyCode::Tab | KeyCode::BackTab => {
            app.toggle_focus();
            Action::Nothing
        },
        KeyCode::Up => {
            app.move_up();
            Action::Nothing
        },
        KeyCode::Down => {
            app.move_down();
            Action::Nothing
        },
        KeyCode::Enter => match app.focus {
            Focus::Profiles => {
                app.set_active_to_selected(now);
                Action::Nothing
            },
            Focus::Tunnels => start_action(app.start_selected()),
        },
        KeyCode::Char(c) => handle_letter(app, c, now),
        KeyCode::Esc | KeyCode::Other => Action::Nothing,
    }
}

fn handle_letter(app: &mut App, c: char, now: u64) -> (r: Action)
    ensures
        old(app).wf() ==> final(app).wf(),
        letter_key(*old(app), *final(app), c, r@, now),
{
    if c == 'q' {
        app.should_quit = true;
        Action::Nothing
    } else if c == 'k' {
        app.move_up();
        Action::Nothing
    } else if c == 'j' {
        app.move_down();
        Action::Nothing
    } else if c == 's' {
        start_action(app.start_selected())
    } else if c == 'x' {
        match app.stop_selected() {
            Some(order) => {
                let mut v: Vec<(usize, StopSignals)> = Vec::new();
                v.push(order);
                Action::Signal(v)
            },
            None => Action::Nothing,
        }
    } else if c == 'S' {
        match app.selected_group() {
            Some(g) => Action::Start(app.start_group(g)),
            None => Action::Nothing,
        }
    } else if c == 'X' {
        match app.selected_group() {
            Some(g) => Action::Signal(app.stop_group(g)),
            None => Action::Nothing,
        }
    } else if c == 'd' {
        let (profile, region) = app.open_rds_picker(now);
        Action::Discover { profile, region }
    } else if c == 'l' {
        match app.trigger_login(now) {
            Some(s) => Action::Login(s),
            None => Action::Nothing,
        }
    } else if c == 'r' {
        Action::Refresh
    } else {
        Action::Nothing
    }
}

/// What a key does while the picker is open.
pub fn handle_picker_key(app: &mut App, code: KeyCode, now: u64) -> (r: Action)
    requires
        old(app).picker is Some && code == KeyCode::Enter ==> old(app).pick_fits(),
    ensures
        old(app).wf() ==> final(app).wf(),
        picker_key(*old(app), *final(app), code, r@, now),
{
    if code == KeyCode::Enter {
        if app.picker.is_none() {
            return Action::Nothing;
        }
        let started = app.confirm_rds_pick(now);
        return start_action(started);
    }
    if code == KeyCode::Esc || code == KeyCode::Char('q') {
        app.picker = None;
        return Action::Nothing;
    }
    match &mut app.picker {
        None => {},
        Some(picker) => {
            if code == KeyCode::Up || code == KeyCode::Char('k') {
                if picker.selected > 0 {
                    picker.selected = picker.selected - 1;
                }
            } else if code == KeyCode::Down || code == KeyCode::Char('j') {
                let n: usize = picker.items.len();
                if n > 0 && picker.selected < n - 1 {
                    picker.selected = picker.selected + 1;
                }
            }
        },
    }
    Action::Nothing
}

/// Control-C quits in every state, and nothing else happens.
pub proof fn law_control_c_quits(pre: App, post: App, key: KeyEvent, action: ActionView, now: u64)
    requires
        handled(pre, post, key, action, now),
        key.press,
        interrupts(key),
    ensures
        post.should_quit,
        post == (App { should_quit: true, ..pre }),
        action is Nothing,
{
}

/// While the picker is open it captures the keys: apart from Control-C, none of
/// them quits, changes the profiles, stops a tunnel or touches those that are
/// listed.
pub proof fn law_picker_captures_keys(
    pre: App,
    post: App,
    key: KeyEvent,
    action: ActionView,
    now: u64,
)
    requires
        handled(pre, post, key, action, now),
        pre.picker is Some,
        !interrupts(key),
    ensures
        post.should_quit == pre.should_quit,
        post.active_profile == pre.active_profile,
        post.profile_sel == pre.profile_sel,
        pre.tunnel_list().is_prefix_of(post.tunnel_list()),
        action is Nothing || action is Start,
        key.code != KeyCode::Enter ==> post.tunnels == pre.tunnels && action is Nothing,
{
    if key.press && key.code == KeyCode::Enter {
        let started = choose|started: Option<usize>| #[trigger]
            app::confirmed(pre, post, started, now) && action == starts(started);
        assert(app::confirmed(pre, post, started, now));
    }
}

/// Letting a key go, or holding it, does nothing.
pub proof fn law_only_presses_count(
    pre: App,
    post: App,
    key: KeyEvent,
    action: ActionView,
    now: u64,
)
    requires
        handled(pre, post, key, action, now),
        !key.press,
    ensures
        post == pre,
        action is Nothing,
{
}

/// No key takes a tunnel off the list or changes what it is a tunnel to.
pub proof fn law_keys_keep_tunnels(
    pre: App,
    post: App,
    key: KeyEvent,
    action: ActionView,
    now: u64,
    i: int,
)
    requires
        handled(pre, post, key, action, now),
        0 <= i < pre.tunnel_list().len(),
    ensures
        i < post.tunnel_list().len(),
        pre.tunnel_list()[i].same_target(post.tunnel_list()[i]),
{
    if key.press && !interrupts(key) && pre.picker is Some {
        law_picker_captures_keys(pre, post, key, action, now);
        assert(pre.tunnel_list()[i] == post.tunnel_list()[i]);
    } else if key.press && !interrupts(key) && key.code == KeyCode::Char('x') {
        assert(pre.tunnels@.len() == pre.tunnels.len());
        app::law_display_order(pre.tunnel_list());
    } else if key.press && !interrupts(key) && key.code == KeyCode::Char('X') {
        assert(post.tunnel_list().len() == pre.tunnel_list().len());
    } else {
        assert(post.tunnels == pre.tunnels);
    }
}

/// The picker shows what the active profile can see.
pub open spec fn picker_in_step(a: App) -> bool {
    a.picker matches Some(p) ==> p.profile@ == a.active_name()
}

/// No key parts an open picker from the active profile.
pub proof fn law_picker_stays_in_step(
    pre: App,
    post: App,
    key: KeyEvent,
    action: ActionView,
    now: u64,
)
    requires
        handled(pre, post, key, action, now),
        picker_in_step(pre),
    ensures
        picker_in_step(post),
{
    if key.press && !interrupts(key) && pre.picker is Some && key.code == KeyCode::Enter {
        let started = choose|started: Option<usize>| #[trigger]
            app::confirmed(pre, post, started, now) && action == starts(started);
        assert(app::confirmed(pre, post, started, now));
    }
}

} // verus!
