//! What holds of the dashboard's actions and of what it says.

use vstd::prelude::*;

use crate::app;
use crate::app::{App, Focus, Toast};
use crate::aws::rds;
use crate::aws::sso;
use crate::aws::sso::{TokenStatus, UnixTime};
use crate::config::Config;
use crate::event;
use crate::event::{KeyCode, KeyEvent};
use crate::laws::{lists, strings};
use crate::ports;
use crate::strmap;
use crate::text;
use crate::tunnel;
use crate::tunnel::{Group, StopSignals};

verus! {

// ---- what is known ---------------------------------------------------------

/// What is read off the state: the names, sessions and statuses of profiles are
/// those of the profile in question, and the selected tunnel is the one at the
/// selected place of the screen.
pub proof fn law_what_is_shown_of_profiles(a: App, i: int)
    ensures
        a.active_profile < a.aws.profiles@.len() ==> a.active_name()
            == a.aws.profiles@[a.active_profile as int].name@,
        a.active_profile >= a.aws.profiles@.len() ==> a.active_name() == "default"@,
        0 <= i < a.aws.profiles@.len() ==> a.session_of(i) == text::opt_view(
            a.aws.profiles@[i].sso_session,
        ),
        !(0 <= i < a.aws.profiles@.len()) ==> a.session_of(i) is None && a.status_of(i)
            == TokenStatus::NoToken,
        0 <= i < a.aws.profiles@.len() ==> (a.aws.profiles@[i].sso_session matches Some(s)
            ==> a.status_of(i) == (if a.session_status@.contains_key(s@) {
            a.session_status@[s@]
        } else {
            TokenStatus::NoToken
        })),
        0 <= i < a.aws.profiles@.len() && a.aws.profiles@[i].sso_session is None ==> a.status_of(i)
            == TokenStatus::NoToken,
        a.selection() == (if a.tunnel_sel < a.tunnels@.len() {
            Some(app::display_order(a.tunnel_list())[a.tunnel_sel as int])
        } else {
            None
        }),
        a.tunnel_list().len() == a.tunnels@.len(),
        0 <= i < a.tunnels@.len() ==> a.tunnel_list()[i] == a.tunnels@[i]@,
        a.profile_list().len() == a.aws.profiles@.len(),
        0 <= i < a.aws.profiles@.len() ==> a.profile_list()[i] == a.aws.profiles@[i]@,
{
}

/// After a scan every session has the status of its own token file, and nothing
/// else has a status.
pub proof fn law_scans(
    sessions: Seq<Seq<char>>,
    files: Seq<Option<String>>,
    now: UnixTime,
    statuses: Map<Seq<char>, TokenStatus>,
    i: int,
    s: Seq<char>,
)
    requires
        app::rescanned(sessions, app::token_views(files), now, statuses),
        files.len() == sessions.len(),
        0 <= i < sessions.len(),
    ensures
        statuses.contains_key(sessions[i]),
        statuses[sessions[i]] == sso::scanned(
            match files[i] {
                Some(f) => Some(f@),
                None => None,
            },
            now,
        ),
        statuses.contains_key(s) ==> sessions.contains(s),
{
    assert(sessions.contains(sessions[i]));
}

/// A toast says what it was told to say, when, and whether it is an error.
pub proof fn law_toasts(t: Option<Toast>, message: Seq<char>, error: bool, at: u64)
    requires
        app::toasted(t, message, error, at),
    ensures
        t is Some,
        t->0.message@ == message,
        t->0.error == error,
        t->0.at == at,
{
}

/// A toast stays for six seconds.
pub proof fn law_toasts_stay_six_seconds(t: Toast, now: u64)
    ensures
        now <= t.at + 6_000_000_000 ==> app::faded(Some(t), now) == Some(t),
        now > t.at + 6_000_000_000 ==> app::faded(Some(t), now) is None,
        app::faded(None, now) is None,
{
}

/// What the dashboard says.
pub proof fn law_messages(s: Seq<char>, sessions: Seq<Seq<char>>, n: nat)
    ensures
        app::discovering(s) == "discovering RDS in "@ + s + "…"@,
        app::no_instances(s) == "no RDS instances visible to "@ + s,
        app::discovery_failed(s) == "RDS discovery failed: "@ + s,
        app::no_bastion(Some(s)) == "no RDS bastion configured for session '"@ + s
            + "' — add it under [rds.bastions]"@,
        app::no_bastion(None) == "no RDS bastion configured for session '"@ + "?"@
            + "' — add it under [rds.bastions]"@,
        app::logging_in(s) == "logging in to '"@ + s + "' — complete it in your browser"@,
        app::already_logging_in(s) == "login for '"@ + s + "' already in progress"@,
        app::login_failed(s) == "failed to start aws sso login: "@ + s,
        app::login_complete(sessions) == "login complete: "@ + text::joined(sessions, ", "@),
        app::refreshed(0) == "refreshed"@,
        n > 0 ==> app::refreshed(n) == "refreshed — discovered "@ + text::decimal_digits(n)
            + " new service(s)"@,
        app::half_refreshed(s) == "refreshed SSO; Cloud Map discovery failed: "@ + s,
{
}

// ---- logins ----------------------------------------------------------------

/// A login is for the session of the selected profile while the profiles have
/// the focus, and for that of the active profile otherwise. One that is going on
/// is not started again, and without a session there is none to start.
pub proof fn law_logins(pre: App, post: App, session: Option<Seq<char>>, now: u64, i: int)
    requires
        app::login_triggered(pre, post, session, now),
        pre.focus == Focus::Profiles ==> i == pre.profile_sel,
        pre.focus == Focus::Tunnels ==> i == pre.active_profile,
    ensures
        post == (App { toast: post.toast, ..pre }),
        session matches Some(s) ==> {
            &&& 0 <= i < pre.aws.profiles@.len()
            &&& text::opt_view(pre.aws.profiles@[i].sso_session) == Some(s)
            &&& !pre.login_children@.contains_key(s)
            &&& post.toast == pre.toast
        },
        session is None ==> post.toast is Some && post.toast->0.at == now && {
            ||| {
                &&& i >= pre.aws.profiles@.len() || pre.aws.profiles@[i].sso_session is None
                &&& post.toast->0.message@ == "selected profile has no sso-session"@
                &&& post.toast->0.error
            }
            ||| {
                &&& i < pre.aws.profiles@.len()
                &&& pre.aws.profiles@[i].sso_session is Some
                &&& pre.login_children@.contains_key(pre.aws.profiles@[i].sso_session->0@)
                &&& post.toast->0.message@ == "login for '"@
                    + pre.aws.profiles@[i].sso_session->0@ + "' already in progress"@
                &&& !post.toast->0.error
            }
        },
{
}

/// The sessions whose login has ended are exactly those whose flag is set, in
/// order.
pub proof fn law_ended_logins(keys: Seq<Seq<char>>, flags: Seq<bool>, key: Seq<char>)
    requires
        keys.len() <= flags.len(),
    ensures
        app::flagged(keys, flags).contains(key) <==> exists|i: int|
            0 <= i < keys.len() && (#[trigger] keys[i]) == key && flags[i],
        app::flagged(Seq::empty(), flags).len() == 0,
        keys.len() < flags.len() ==> app::flagged(keys.push(key), flags) == (
        if flags[keys.len() as int] {
            app::flagged(keys, flags).push(key)
        } else {
            app::flagged(keys, flags)
        }),
    decreases keys.len(),
{
    assert(keys.push(key).drop_last() =~= keys);
    if keys.len() > 0 {
        let rest = keys.drop_last();
        law_ended_logins(rest, flags, key);
        let before = app::flagged(rest, flags);
        let all = app::flagged(keys, flags);
        let last = keys.len() - 1;
        if before.contains(key) {
            let k = before.index_of(key);
            assert(all[k] == key);
            let i = choose|i: int| 0 <= i < rest.len() && (#[trigger] rest[i]) == key && flags[i];
            assert(keys[i] == key);
        }
        if keys[last] == key && flags[last] {
            assert(all[before.len() as int] == key);
        }
        if all.contains(key) && !before.contains(key) {
            let k = all.index_of(key);
            if k < before.len() {
                assert(before[k] == key);
            }
            assert(keys[last] == key && flags[last]);
        }
        if exists|i: int| 0 <= i < keys.len() && (#[trigger] keys[i]) == key && flags[i] {
            let i = choose|i: int| 0 <= i < keys.len() && (#[trigger] keys[i]) == key && flags[i];
            if i < last {
                assert(rest[i] == key);
            }
        }
    }
}

/// A login that was started goes on from then on, beside those that did; one
/// that was not changes none of them. A toast says which.
pub proof fn law_noted_logins(
    pre: App,
    post: App,
    session: Seq<char>,
    outcome: Result<(), String>,
    now: u64,
    s: Seq<char>,
)
    requires
        app::login_noted(pre, post, session, outcome, now),
    ensures
        outcome is Ok ==> post.login_children@.contains_key(session),
        s != session || outcome is Err ==> (post.login_children@.contains_key(s)
            <==> pre.login_children@.contains_key(s)),
        post.toast is Some && post.toast->0.at == now,
        post.toast->0.error <==> outcome is Err,
        outcome is Ok ==> post.toast->0.message@ == "logging in to '"@ + session
            + "' — complete it in your browser"@,
        outcome matches Err(e) ==> post.toast->0.message@ == "failed to start aws sso login: "@
            + e@,
{
}

/// A login goes on exactly as long as its flag is not set. Once any has ended, a
/// toast says so and every session has the status of its own token file; as long
/// as none has, no status changes, and the toast stays for its six seconds.
pub proof fn law_logins_go_on_until_they_end(
    pre: App,
    post: App,
    done: Seq<bool>,
    files: Seq<Option<Seq<char>>>,
    unix_now: UnixTime,
    now: u64,
    k: int,
)
    requires
        app::logins_ended(pre, post, done, files, unix_now, now),
        done.len() == pre.login_children.key_seq().len(),
        0 <= k < done.len(),
        strmap::ascending(pre.login_children.key_seq()),
        pre.login_children@.contains_key(pre.login_children.key_seq()[k]),
    ensures
        post.login_children@.contains_key(pre.login_children.key_seq()[k]) <==> !done[k],
        done[k] ==> {
            &&& post.toast is Some && !post.toast->0.error && post.toast->0.at == now
            &&& forall|i: int|
                0 <= i < pre.aws.sessions.key_seq().len()
                    ==> post.session_status@[#[trigger] pre.aws.sessions.key_seq()[i]]
                    == sso::scanned(files[i], unix_now)
        },
        !done.contains(true) ==> {
            &&& post.session_status == pre.session_status
            &&& pre.toast is None ==> post.toast is None
            &&& pre.toast matches Some(t) ==> post.toast == (if now <= t.at + 6_000_000_000 {
                Some(t)
            } else {
                None
            })
        },
{
    let keys = pre.login_children.key_seq();
    let ended = app::flagged(keys, done);
    law_ended_logins(keys, done, keys[k]);
    assert(ended.to_set().contains(keys[k]) <==> ended.contains(keys[k]));
    assert forall|i: int| 0 <= i < keys.len() && (#[trigger] keys[i]) == keys[k] implies i == k by {
        lemma_keys_differ(keys, i, k);
    }
    if done[k] {
        assert(ended.contains(keys[k]));
        assert(ended.len() > 0);
    }
    if !done.contains(true) {
        if ended.len() > 0 {
            law_ended_logins(keys, done, ended[0]);
            assert(ended.contains(ended[0]));
            let i = choose|i: int| 0 <= i < keys.len() && (#[trigger] keys[i]) == ended[0] && done[i];
            assert(done.contains(true));
        }
    }
}

proof fn lemma_keys_differ(keys: Seq<Seq<char>>, i: int, k: int)
    requires
        strmap::ascending(keys),
        0 <= i < keys.len(),
        0 <= k < keys.len(),
        keys[i] == keys[k],
    ensures
        i == k,
{
    strings::law_order_of_texts(keys[i], keys[k], keys[i].len() as int);
    if i < k {
        assert(text::lex_lt(keys[i], keys[k]));
    } else if k < i {
        assert(text::lex_lt(keys[k], keys[i]));
    }
}

/// A refresh whose discovery failed leaves the tunnels as they are and says why.
/// One that succeeded keeps every tunnel in its place, and says how many were
/// added.
pub proof fn law_refreshing(
    pre: App,
    post: App,
    names: Result<Vec<String>, String>,
    now: u64,
    i: int,
    name: Seq<char>,
)
    requires
        app::services_refreshed(pre, post, names, now),
        0 <= i < pre.tunnel_list().len(),
    ensures
        post.toast is Some && post.toast->0.at == now,
        post.toast->0.error <==> names is Err,
        names matches Err(e) ==> post.tunnels == pre.tunnels && post.toast->0.message@
            == "refreshed SSO; Cloud Map discovery failed: "@ + e@,
        names is Ok ==> {
            let added = post.tunnel_list().len() - pre.tunnel_list().len();
            &&& added >= 0
            &&& post.tunnel_list()[i] == pre.tunnel_list()[i]
            &&& added == 0 ==> post.toast->0.message@ == "refreshed"@
            &&& added > 0 ==> post.toast->0.message@ == "refreshed — discovered "@
                + text::decimal_digits(added as nat) + " new service(s)"@
        },
        names matches Ok(found) ==> text::views(found@).contains(name) ==> app::shows_service(
            post.tunnel_list(),
            name,
        ),
{
    if let Ok(found) = names {
        app::law_services_are_added_once(pre.config, pre.tunnel_list(), text::views(found@));
        let shown = post.tunnel_list();
        assert(shown.take(pre.tunnel_list().len() as int)[i] == shown[i]);
    }
}

// ---- databases -------------------------------------------------------------

/// The picker opens on all that was found, at its first entry, for the profile
/// that was asked about. Where nothing was found, or the lookup failed, it does
/// not open, and a toast says which.
pub proof fn law_opening_the_picker(
    pre: App,
    post: App,
    profile: String,
    found: Result<Vec<rds::RdsInstance>, String>,
    now: u64,
)
    requires
        app::instances_shown(pre, post, profile, found, now),
    ensures
        found is Ok && found->Ok_0@.len() > 0 ==> {
            &&& post.picker is Some
            &&& post.picker->0.items == found->Ok_0
            &&& post.picker->0.selected == 0
            &&& post.picker->0.profile == profile
            &&& post.toast is None
        },
        found is Err || found->Ok_0@.len() == 0 ==> {
            &&& post.picker == pre.picker
            &&& post.toast is Some && post.toast->0.error && post.toast->0.at == now
            &&& post.toast->0.message@ == (match found {
                Ok(_) => "no RDS instances visible to "@ + profile@,
                Err(e) => "RDS discovery failed: "@ + e@,
            })
        },
{
}

/// A tunnel to a database goes to its endpoint and port, with the profile and in
/// the region, through the bastion, and is named after the database and the
/// profile.
pub proof fn law_database_tunnels(
    c: Config,
    inst: rds::RdsInstanceView,
    profile: Seq<char>,
    bastion: Seq<char>,
    port: u16,
)
    ensures
        app::database_tunnel(c, inst, profile, bastion, port) == (tunnel::TunnelView {
            name: inst.identifier + " ("@ + profile + ")"@,
            group: Group::Databases,
            kind: tunnel::KindView::SsmRds { endpoint: inst.endpoint, remote_port: inst.port },
            profile: Some(profile),
            region: c.region@,
            bastion: Some(bastion),
            local_port: port,
            status: tunnel::StatusView::Stopped,
            log: Seq::empty(),
            child: false,
            pgid: None,
        }),
{
}

/// The next database gets the least local port from the base upward that no
/// tunnel has.
pub proof fn law_database_ports(a: App, q: u16)
    requires
        a.database_port() <= 65535,
    ensures
        a.database_port() >= a.config.rds.local_port_base,
        !lists::has_port(a.tunnel_list(), a.database_port() as u16),
        a.config.rds.local_port_base <= q < a.database_port() ==> lists::has_port(
            a.tunnel_list(),
            q,
        ),
{
    let taken = app::local_ports(a.tunnel_list());
    ports::law_first_free_is_least(taken, a.config.rds.local_port_base as int);
    if a.config.rds.local_port_base <= q < a.database_port() {
        assert(taken.contains(q as int));
    }
    assert(!taken.contains(a.database_port()));
}

/// Confirming closes the picker. Where it stood on a database whose profile's
/// session has a bastion, exactly one tunnel is added, to that database and
/// through that bastion; it is selected, focused and to be started. Otherwise no
/// tunnel is added, and nothing is started.
pub proof fn law_picks(pre: App, post: App, started: Option<usize>, now: u64)
    requires
        app::confirmed(pre, post, started, now),
        pre.pick_fits(),
        pre.picker matches Some(p) ==> p.selected < p.items@.len(),
    ensures
        post.picker is None,
        post == (App {
            picker: None,
            tunnels: post.tunnels,
            tunnel_sel: post.tunnel_sel,
            focus: post.focus,
            toast: post.toast,
            ..pre
        }),
        pre.picker is None ==> started is None && post.tunnels == pre.tunnels && post.toast
            == pre.toast,
        pre.picker matches Some(p) ==> {
            let inst = p.items@[p.selected as int];
            let session = pre.session_named(p.profile@);
            let reachable = session is Some && pre.config.rds.bastions@.contains_key(session->0);
            &&& !reachable ==> {
                &&& started is None
                &&& post.tunnels == pre.tunnels
                &&& post.tunnel_sel == pre.tunnel_sel
                &&& post.focus == pre.focus
                &&& post.toast is Some && post.toast->0.error && post.toast->0.at == now
                &&& post.toast->0.message@ == "no RDS bastion configured for session '"@ + (if session is Some {
                    session->0
                } else {
                    "?"@
                }) + "' — add it under [rds.bastions]"@
            }
            &&& reachable ==> {
                let t = post.tunnel_list().last();
                &&& post.tunnel_list().drop_last() == pre.tunnel_list()
                &&& t.kind == (tunnel::KindView::SsmRds {
                    endpoint: inst.endpoint@,
                    remote_port: inst.port,
                })
                &&& t.name == inst.identifier@ + " ("@ + p.profile@ + ")"@
                &&& t.profile == Some(p.profile@)
                &&& t.bastion == Some(pre.config.rds.bastions@[session->0]@)
                &&& t.region == pre.config.region@
                &&& t.group == Group::Databases
                &&& t.status is Stopped && !t.child && t.pgid is None && t.log.len() == 0
                &&& t.local_port >= pre.config.rds.local_port_base
                &&& !lists::has_port(pre.tunnel_list(), t.local_port)
                &&& started == Some((post.tunnel_list().len() - 1) as usize)
                &&& post.selection() == started
                &&& post.focus == Focus::Tunnels
                &&& post.toast == pre.toast
            }
        },
{
    if let Some(p) = pre.picker {
        if pre.database_bastion(p.profile@) is Some {
            law_database_ports(pre, 0);
            assert(post.tunnel_list().drop_last() =~= pre.tunnel_list());
        }
    }
}

/// A name of a profile stands for the active profile where it bears that name,
/// and otherwise for the first that does.
pub proof fn law_names_of_profiles(a: App, name: Seq<char>, i: int)
    requires
        0 <= i < a.aws.profiles@.len(),
        a.aws.profiles@[i].name@ == name,
        forall|j: int| 0 <= j < i ==> (#[trigger] a.aws.profiles@[j]).name@ != name,
    ensures
        a.active_profile < a.aws.profiles@.len() && a.aws.profiles@[a.active_profile as int].name@
            == name ==> a.session_named(name) == text::opt_view(
            a.aws.profiles@[a.active_profile as int].sso_session,
        ),
        !(a.active_profile < a.aws.profiles@.len() && a.aws.profiles@[a.active_profile as int].name@
            == name) ==> a.session_named(name) == text::opt_view(a.aws.profiles@[i].sso_session),
{
    let ps = a.profile_list();
    assert forall|j: int| 0 <= j < i implies (#[trigger] ps[j]).name != name by {
        assert(a.aws.profiles@[j].name@ != name);
    }
    lemma_first_named_is(ps, name, i);
}

proof fn lemma_first_named_is(
    ps: Seq<crate::aws::profiles::ProfileView>,
    name: Seq<char>,
    i: int,
)
    requires
        0 <= i < ps.len(),
        ps[i].name == name,
        forall|j: int| 0 <= j < i ==> (#[trigger] ps[j]).name != name,
    ensures
        app::first_named(ps, name) == i,
    decreases i,
{
    if i > 0 {
        let rest = ps.drop_first();
        assert(ps[0].name != name);
        assert forall|j: int| 0 <= j < i - 1 implies (#[trigger] rest[j]).name != name by {
            assert(rest[j] == ps[j + 1]);
        }
        lemma_first_named_is(rest, name, i - 1);
    }
}

/// Whether a pick can be confirmed turns on a free port alone, and only where a
/// tunnel would be added.
pub proof fn law_when_a_pick_fits(a: App)
    ensures
        a.picker is None ==> a.pick_fits(),
        a.database_port() <= 65535 ==> a.pick_fits(),
        a.picker matches Some(p) ==> (p.selected < p.items@.len() && a.session_named(
            p.profile@,
        ) is Some && a.config.rds.bastions@.contains_key(a.session_named(p.profile@)->0)
            && a.database_port() > 65535 <==> !a.pick_fits()),
{
}

// ---- moving ----------------------------------------------------------------

/// Moving changes the selection of the focused panel alone, by one row, within
/// the list.
pub proof fn law_moving(a: App)
    requires
        a.wf(),
    ensures
        a.focus == Focus::Tunnels ==> {
            &&& a.moved_up() == (App {
                tunnel_sel: if a.tunnel_sel == 0 {
                    0
                } else {
                    (a.tunnel_sel - 1) as usize
                },
                ..a
            })
            &&& a.tunnel_sel + 1 < a.tunnels@.len() ==> a.moved_down() == (App {
                tunnel_sel: (a.tunnel_sel + 1) as usize,
                ..a
            })
            &&& a.tunnel_sel + 1 >= a.tunnels@.len() ==> a.moved_down() == a
        },
        a.focus == Focus::Profiles ==> {
            &&& a.moved_up() == (App {
                profile_sel: if a.profile_sel == 0 {
                    0
                } else {
                    (a.profile_sel - 1) as usize
                },
                ..a
            })
            &&& a.profile_sel + 1 < a.aws.profiles@.len() ==> a.moved_down() == (App {
                profile_sel: (a.profile_sel + 1) as usize,
                ..a
            })
            &&& a.profile_sel + 1 >= a.aws.profiles@.len() ==> a.moved_down() == a
        },
        a.focus == Focus::Tunnels ==> a.refocused() == (App { focus: Focus::Profiles, ..a }),
        a.focus == Focus::Profiles ==> a.refocused() == (App { focus: Focus::Tunnels, ..a }),
{
}

/// Making the selected profile the active one changes that alone, and says which
/// it is.
pub proof fn law_activating(pre: App, post: App, now: u64)
    requires
        app::activated(pre, post, now),
    ensures
        post.active_profile == pre.profile_sel,
        post == (App { active_profile: pre.profile_sel, toast: post.toast, ..pre }),
        post.toast is Some && !post.toast->0.error && post.toast->0.at == now,
        pre.profile_sel < pre.aws.profiles@.len() ==> post.toast->0.message@
            == "active profile → "@ + pre.aws.profiles@[pre.profile_sel as int].name@,
{
}

/// Looking up databases is announced for the active profile and changes nothing
/// else.
pub proof fn law_announcing(pre: App, post: App, now: u64)
    requires
        app::discovery_announced(pre, post, now),
    ensures
        post == (App { toast: post.toast, ..pre }),
        post.toast is Some && !post.toast->0.error && post.toast->0.at == now,
        post.toast->0.message@ == "discovering RDS in "@ + pre.active_name() + "…"@,
{
}

/// Stopping the selected tunnel stops that tunnel and no other, and signals its
/// process.
pub proof fn law_stopping_the_selected(
    pre: App,
    post: App,
    order: Option<(usize, StopSignals)>,
    j: int,
)
    requires
        app::selected_stopped(pre, post, order),
        0 <= j < pre.tunnels@.len(),
    ensures
        post == (App { tunnels: post.tunnels, ..pre }),
        post.tunnels@.len() == pre.tunnels@.len(),
        pre.selection() == Some(j as usize) ==> {
            &&& order == Some(
                (
                    j as usize,
                    StopSignals { group: pre.tunnels@[j].pgid, child: pre.tunnels@[j].child },
                ),
            )
            &&& post.tunnels@[j]@ == pre.tunnels@[j]@.stopped()
        },
        pre.selection() != Some(j as usize) ==> post.tunnels@[j]@ == pre.tunnels@[j]@,
        pre.selection() is None ==> order is None,
{
    assert(pre.tunnels@.len() == pre.tunnels.len());
    app::law_display_order(pre.tunnel_list());
    assert(post.tunnels@.len() == post.tunnel_list().len());
    assert(post.tunnel_list()[j] == post.tunnels@[j]@);
    assert(pre.tunnel_list()[j] == pre.tunnels@[j]@);
}

/// Stopping a group, or everything, changes the tunnels alone.
pub proof fn law_stopping_changes_tunnels_alone(
    pre: App,
    post: App,
    group: Option<Group>,
    orders: Seq<(usize, StopSignals)>,
)
    requires
        app::group_stopped(pre, post, group, orders),
    ensures
        post == (App { tunnels: post.tunnels, ..pre }),
        post.tunnel_list() == app::all_stopped(pre.tunnel_list(), group),
        orders == app::stop_orders(pre.tunnel_list(), group),
{
}

// ---- keys ------------------------------------------------------------------

/// What each key does while no picker is open.
pub proof fn law_keys_of_the_panels(
    pre: App,
    post: App,
    key: KeyEvent,
    action: event::ActionView,
    now: u64,
)
    requires
        event::handled(pre, post, key, action, now),
        key.press,
        !(key.code == KeyCode::Char('c') && key.control),
        pre.picker is None,
    ensures
        key.code == KeyCode::Char('q') ==> post == (App { should_quit: true, ..pre })
            && action is Nothing,
        key.code == KeyCode::Tab || key.code == KeyCode::BackTab ==> post == pre.refocused()
            && action is Nothing,
        key.code == KeyCode::Up || key.code == KeyCode::Char('k') ==> post == pre.moved_up()
            && action is Nothing,
        key.code == KeyCode::Down || key.code == KeyCode::Char('j') ==> post == pre.moved_down()
            && action is Nothing,
        key.code == KeyCode::Enter && pre.focus == Focus::Profiles ==> app::activated(
            pre,
            post,
            now,
        ) && action is Nothing,
        key.code == KeyCode::Char('s') || key.code == KeyCode::Enter && pre.focus == Focus::Tunnels
            ==> post == pre && match pre.selection() {
            Some(i) => action == event::ActionView::Start(seq![i]),
            None => action is Nothing,
        },
        key.code == KeyCode::Char('x') ==> match pre.selection() {
            Some(i) => action is Signal && action->Signal_0.len() == 1 && app::selected_stopped(
                pre,
                post,
                Some(action->Signal_0[0]),
            ),
            None => post == pre && action is Nothing,
        },
        key.code == KeyCode::Char('S') ==> post == pre && match pre.selection() {
            Some(i) => action == event::ActionView::Start(
                app::idle_members(pre.tunnel_list(), pre.tunnel_list()[i as int].group),
            ),
            None => action is Nothing,
        },
        key.code == KeyCode::Char('X') ==> match pre.selection() {
            Some(i) => action is Signal && app::group_stopped(
                pre,
                post,
                Some(pre.tunnel_list()[i as int].group),
                action->Signal_0,
            ),
            None => post == pre && action is Nothing,
        },
        key.code == KeyCode::Char('d') ==> app::discovery_announced(pre, post, now) && action == (
        event::ActionView::Discover {
            profile: pre.active_name(),
            region: pre.config.region@,
        }),
        key.code == KeyCode::Char('l') ==> {
            ||| action is Nothing && app::login_triggered(pre, post, None, now)
            ||| action is Login && app::login_triggered(pre, post, Some(action->Login_0), now)
        },
        key.code == KeyCode::Char('r') ==> post == pre && action is Refresh,
        key.code == KeyCode::Esc || key.code == KeyCode::Other ==> post == pre && action is Nothing,
        (key.code matches KeyCode::Char(c) && c != 'q' && c != 'k' && c != 'j' && c != 's' && c
            != 'x' && c != 'S' && c != 'X' && c != 'd' && c != 'l' && c != 'r') ==> post == pre
            && action is Nothing,
{
}

/// What each key does while the picker is open.
pub proof fn law_keys_of_the_picker(
    pre: App,
    post: App,
    key: KeyEvent,
    action: event::ActionView,
    now: u64,
)
    requires
        event::handled(pre, post, key, action, now),
        key.press,
        !(key.code == KeyCode::Char('c') && key.control),
        pre.picker is Some,
        pre.picker->0.selected < pre.picker->0.items@.len(),
    ensures
        key.code == KeyCode::Esc || key.code == KeyCode::Char('q') ==> post == (App {
            picker: None,
            ..pre
        }) && action is Nothing,
        key.code == KeyCode::Up || key.code == KeyCode::Char('k') ==> {
            let p = pre.picker->0;
            &&& action is Nothing
            &&& post.picker is Some
            &&& post == (App { picker: post.picker, ..pre })
            &&& post.picker->0.items == p.items && post.picker->0.profile == p.profile
            &&& post.picker->0.selected == (if p.selected > 0 {
                p.selected - 1
            } else {
                0
            })
        },
        key.code == KeyCode::Down || key.code == KeyCode::Char('j') ==> {
            let p = pre.picker->0;
            &&& action is Nothing
            &&& post.picker is Some
            &&& post == (App { picker: post.picker, ..pre })
            &&& post.picker->0.items == p.items && post.picker->0.profile == p.profile
            &&& post.picker->0.selected == (if p.selected + 1 < p.items@.len() {
                p.selected + 1
            } else {
                p.selected as int
            })
        },
        key.code == KeyCode::Enter ==> {
            ||| action is Nothing && app::confirmed(pre, post, None, now)
            ||| action is Start && action->Start_0.len() == 1 && app::confirmed(
                pre,
                post,
                Some(action->Start_0[0]),
                now,
            )
        },
        key.code == KeyCode::Tab || key.code == KeyCode::BackTab || key.code == KeyCode::Other
            ==> post == pre && action is Nothing,
        (key.code matches KeyCode::Char(c) && c != 'q' && c != 'k' && c != 'j') ==> post == pre
            && action is Nothing,
{
    let p = pre.picker->0;
    assert(p.items@.len() == p.items.len());
    if key.code == KeyCode::Enter {
        let started = choose|started: Option<usize>| #[trigger]
            app::confirmed(pre, post, started, now) && action == event::starts(started);
        assert(app::confirmed(pre, post, started, now));
    }
}

/// Without a picker its keys do nothing.
pub proof fn law_keys_without_a_picker(
    pre: App,
    post: App,
    code: KeyCode,
    action: event::ActionView,
    now: u64,
)
    requires
        event::picker_key(pre, post, code, action, now),
        pre.picker is None,
    ensures
        post == pre,
        action is Nothing,
{
}

/// Control-C quits wherever it is pressed, and a key that is not pressed does
/// nothing.
pub proof fn law_keys_everywhere(
    pre: App,
    post: App,
    key: KeyEvent,
    action: event::ActionView,
    now: u64,
)
    requires
        event::handled(pre, post, key, action, now),
    ensures
        !key.press ==> post == pre && action is Nothing,
        key.press && key.code == KeyCode::Char('c') && key.control ==> post == (App {
            should_quit: true,
            ..pre
        }) && action is Nothing,
{
}

/// Only Enter on an open picker can ask for a port.
pub proof fn law_what_confirms(a: App, key: KeyEvent)
    ensures
        event::confirms(a, key) <==> key.press && key.code == KeyCode::Enter && a.picker is Some,
{
}

} // verus!
