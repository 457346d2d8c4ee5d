//! What holds of the list of tunnels: what is in it from the start, what is added,
//! in which order it is shown, and what stopping does to it.

use vstd::prelude::*;

use crate::app;
use crate::aws::profiles;
use crate::config::Config;
use crate::ports;
use crate::text;
use crate::tunnel;
use crate::tunnel::{Group, StopSignals, TickReport};

verus! {

/// A tunnel to a service: named by it, resolved by that name, with the profile
/// and through the bastion of the services, in the region, and down.
pub open spec fn reaches_service(
    t: tunnel::TunnelView,
    c: Config,
    name: Seq<char>,
) -> bool {
    &&& t.name == name
    &&& t.group == Group::Services
    &&& t.kind == (tunnel::KindView::SsmService { service_name: name })
    &&& t.profile == Some(c.services.profile@)
    &&& t.region == c.region@
    &&& t.bastion == Some(c.services.bastion@)
    &&& t.status is Stopped
    &&& t.log.len() == 0
    &&& !t.child
    &&& t.pgid is None
}

/// Some tunnel of the list has the local port.
pub open spec fn has_port(ts: Seq<tunnel::TunnelView>, q: u16) -> bool {
    exists|j: int| 0 <= j < ts.len() && (#[trigger] ts[j]).local_port == q
}

/// The port is pinned to some service.
pub open spec fn is_pinned(pins: Map<Seq<char>, u16>, q: u16) -> bool {
    exists|k: Seq<char>| #[trigger] pins.contains_key(k) && pins[k] == q
}

/// Every configured service has its tunnel, in order. Its local port is the
/// pinned one, or else the least from the base upward that is neither pinned nor
/// given to an earlier one.
pub proof fn law_configured_services(c: Config, i: int)
    requires
        app::seeds_fit(c),
        0 <= i < c.services.fallback@.len(),
    ensures
        ({
            let seeds = app::service_seeds(c);
            let name = c.services.fallback@[i]@;
            let pins = c.services.ports@;
            let port = seeds[i].local_port;
            &&& seeds.len() == c.services.fallback@.len()
            &&& reaches_service(seeds[i], c, name)
            &&& pins.contains_key(name) ==> port == pins[name]
            &&& !pins.contains_key(name) ==> {
                &&& port >= c.services.auto_port_base
                &&& forall|k: Seq<char>| #[trigger] pins.contains_key(k) ==> pins[k] != port
                &&& forall|j: int|
                    0 <= j < seeds.len() && j != i ==> (#[trigger] seeds[j]).local_port != port
                &&& forall|q: u16|
                    c.services.auto_port_base <= q < port ==> #[trigger] is_pinned(pins, q)
                        || has_port(seeds.take(i), q)
            }
        }),
{
    let names = text::views(c.services.fallback@);
    let pins = c.services.ports@;
    let base = c.services.auto_port_base;
    let all = app::seed_ports(names, pins, base);
    let seeds = app::service_seeds(c);
    app::lemma_seed_ports_len(names, pins, base);
    assert forall|j: int| 0 <= j < names.len() implies (#[trigger] seeds[j]).local_port
        == all[j] by {
        assert(all[j] <= 65535);
        lemma_seed_port_at(names, pins, base, j);
    }
    lemma_seed_port_at(names, pins, base, i);
    if !pins.contains_key(names[i]) {
        let before = app::seed_ports(names.take(i), pins, base);
        let taken = app::pinned(pins).union(before.to_set());
        ports::law_first_free_is_least(taken, base as int);
        app::lemma_seed_ports_len(names.take(i), pins, base);
        assert forall|k: Seq<char>| #[trigger] pins.contains_key(k) implies pins[k]
            != seeds[i].local_port by {
            assert(app::pinned(pins).contains(pins[k] as int));
        }
        assert forall|j: int| 0 <= j < seeds.len() && j != i implies (
        #[trigger] seeds[j]).local_port != seeds[i].local_port by {
            app::law_seed_ports_do_not_collide(names, pins, base, i, j);
        }
        assert forall|q: u16| base <= q < seeds[i].local_port implies #[trigger] is_pinned(pins, q)
            || has_port(seeds.take(i), q) by {
            assert(taken.contains(q as int));
            if before.to_set().contains(q as int) {
                let j = before.index_of(q as int);
                app::lemma_seed_ports_prefix(names, pins, base, i);
                assert(all[j] == before[j]);
                assert(seeds.take(i)[j].local_port == q);
            }
        }
    }
}

proof fn lemma_seed_port_at(
    names: Seq<Seq<char>>,
    pins: Map<Seq<char>, u16>,
    base: u16,
    i: int,
)
    requires
        0 <= i < names.len(),
    ensures
        app::seed_ports(names, pins, base)[i] == (if pins.contains_key(names[i]) {
            pins[names[i]] as int
        } else {
            ports::first_free(
                app::pinned(pins).union(app::seed_ports(names.take(i), pins, base).to_set()),
                base as int,
            )
        }),
        app::seed_ports(names, pins, base)[i] >= 0,
{
    app::lemma_seed_ports_prefix(names, pins, base, i + 1);
    app::lemma_seed_ports_len(names, pins, base);
    app::lemma_seed_ports_len(names.take(i), pins, base);
    assert(names.take(i + 1).drop_last() =~= names.take(i));
    assert(names.take(i + 1).last() == names[i]);
    ports::law_first_free_is_least(
        app::pinned(pins).union(app::seed_ports(names.take(i), pins, base).to_set()),
        base as int,
    );
}

/// Every Temporal entry has its tunnel, in order, with the values of the entry
/// and its key where keys are kept.
pub proof fn law_temporal_entries(c: Config, home: Seq<char>, i: int)
    requires
        0 <= i < c.temporal@.len(),
    ensures
        ({
            let seeds = app::temporal_seeds(c, home);
            let t = c.temporal@[i];
            &&& seeds.len() == c.temporal@.len()
            &&& seeds[i].name == t.name@
            &&& seeds[i].group == Group::Temporal
            &&& seeds[i].local_port == t.local_port
            &&& seeds[i].kind == (tunnel::KindView::Ssh {
                pem: c.key_path(t.pem@, home),
                elb_host: t.elb_host@,
                remote_port: t.remote_port,
                ec2_host: t.ec2_host@,
                ec2_user: t.ec2_user@,
            })
            &&& seeds[i].profile is None
            &&& seeds[i].bastion is None
            &&& seeds[i].region == c.region@
            &&& seeds[i].status is Stopped
            &&& seeds[i].log.len() == 0
            &&& !seeds[i].child
            &&& seeds[i].pgid is None
        }),
{
}

/// A port is among the local ports exactly when some tunnel has it.
pub proof fn law_local_ports(ts: Seq<tunnel::TunnelView>, p: int)
    ensures
        app::local_ports(ts).contains(p) <==> exists|i: int|
            0 <= i < ts.len() && (#[trigger] ts[i]).local_port == p,
{
}

/// The service is shown by some tunnel of the group of services.
pub proof fn law_shown_services(ts: Seq<tunnel::TunnelView>, name: Seq<char>)
    ensures
        app::shows_service(ts, name) <==> exists|i: int|
            0 <= i < ts.len() && (#[trigger] ts[i]).group == Group::Services && ts[i].name == name,
{
}

/// Looking at one service more: where it is shown already nothing changes, and
/// otherwise its tunnel comes behind the others, on the pinned port or else on the
/// least from the base upward that no tunnel has.
pub proof fn law_one_service_more(
    c: Config,
    ts: Seq<tunnel::TunnelView>,
    names: Seq<Seq<char>>,
    name: Seq<char>,
)
    requires
        app::services_fit(c, ts, names.push(name)),
    ensures
        ({
            let before = app::with_services(c, ts, names);
            let after = app::with_services(c, ts, names.push(name));
            let shown = exists|i: int|
                0 <= i < before.len() && (#[trigger] before[i]).group == Group::Services
                    && before[i].name == name;
            let pins = c.services.ports@;
            &&& shown ==> after == before
            &&& !shown ==> {
                let t = after.last();
                &&& after.drop_last() == before
                &&& after.len() == before.len() + 1
                &&& reaches_service(t, c, name)
                &&& pins.contains_key(name) ==> t.local_port == pins[name]
                &&& !pins.contains_key(name) ==> {
                    &&& t.local_port >= c.services.auto_port_base
                    &&& forall|j: int|
                        0 <= j < before.len() ==> (#[trigger] before[j]).local_port != t.local_port
                    &&& forall|q: u16|
                        c.services.auto_port_base <= q < t.local_port ==> #[trigger] has_port(
                            before,
                            q,
                        )
                }
            }
        }),
        app::with_services(c, ts, Seq::empty()) == ts,
{
    let all = names.push(name);
    assert(all.drop_last() =~= names);
    let before = app::with_services(c, ts, names);
    let after = app::with_services(c, ts, all);
    if !app::shows_service(before, name) {
        assert(after.drop_last() =~= before);
        let taken = app::local_ports(before);
        ports::law_first_free_is_least(taken, c.services.auto_port_base as int);
        let t = after.last();
        if !c.services.ports@.contains_key(name) {
            assert forall|j: int| 0 <= j < before.len() implies (#[trigger] before[j]).local_port
                != t.local_port by {
                assert(taken.contains(before[j].local_port as int));
            }
            assert forall|q: u16| c.services.auto_port_base <= q < t.local_port implies #[trigger] has_port(
                before,
                q,
            ) by {
                assert(taken.contains(q as int));
            }
        }
    }
}

/// There is room for one service more exactly when there was room for those
/// before it and it is shown, is pinned, or some port from the base upward is
/// free.
pub proof fn law_room_for_one_more(
    c: Config,
    ts: Seq<tunnel::TunnelView>,
    names: Seq<Seq<char>>,
    name: Seq<char>,
)
    ensures
        app::services_fit(c, ts, Seq::empty()),
        app::services_fit(c, ts, names.push(name)) <==> app::services_fit(c, ts, names) && {
            let before = app::with_services(c, ts, names);
            ||| exists|i: int|
                0 <= i < before.len() && (#[trigger] before[i]).group == Group::Services
                    && before[i].name == name
            ||| c.services.ports@.contains_key(name)
            ||| exists|q: int|
                #![trigger app::local_ports(before).contains(q)]
                c.services.auto_port_base <= q <= 65535 && !app::local_ports(before).contains(q)
        },
{
    assert(names.push(name).drop_last() =~= names);
    let before = app::with_services(c, ts, names);
    ports::law_first_free_is_least(app::local_ports(before), c.services.auto_port_base as int);
    if app::service_port(c, before, name) <= 65535 && !c.services.ports@.contains_key(name) {
        assert(!app::local_ports(before).contains(app::service_port(c, before, name)));
    }
}

/// The members of a group are the tunnels of that group, in the order of the list.
pub proof fn law_members_of_groups(ts: Seq<tunnel::TunnelView>, group: Group, k: int, l: int)
    requires
        ts.len() <= usize::MAX,
    ensures
        0 <= k < app::members(ts, group).len() ==> app::members(ts, group)[k] < ts.len()
            && ts[app::members(ts, group)[k] as int].group == group,
        0 <= k < l < app::members(ts, group).len() ==> app::members(ts, group)[k] < app::members(
            ts,
            group,
        )[l],
        0 <= k < ts.len() && ts[k].group == group ==> app::members(ts, group).contains(k as usize),
{
    app::lemma_members(ts, group);
    if 0 <= k < ts.len() && ts[k].group == group {
        assert(app::members(ts, group).contains(k as usize));
    }
}

/// On the screen services come before databases and databases before Temporal
/// entries; tunnels of one group keep the order of the list.
pub proof fn law_groups_on_the_screen(ts: Seq<tunnel::TunnelView>, k: int, l: int)
    requires
        ts.len() <= usize::MAX,
        0 <= k < l < ts.len(),
    ensures
        ({
            let a = ts[app::display_order(ts)[k] as int].group;
            let b = ts[app::display_order(ts)[l] as int].group;
            &&& b == Group::Services ==> a == Group::Services
            &&& b == Group::Databases ==> a != Group::Temporal
            &&& a == b ==> app::display_order(ts)[k] < app::display_order(ts)[l]
        }),
        app::display_order(ts).len() == ts.len(),
{
    app::law_display_order(ts);
}

/// To start a group is to start those of its tunnels that are not up, in order.
pub proof fn law_starting_a_group(ts: Seq<tunnel::TunnelView>, group: Group)
    requires
        ts.len() <= usize::MAX,
    ensures
        forall|k: int|
            0 <= k < app::idle_members(ts, group).len() ==> {
                let i = (#[trigger] app::idle_members(ts, group)[k]) as int;
                i < ts.len() && ts[i].group == group && !(ts[i].child || ts[i].status is Starting
                    || ts[i].status is Running)
            },
        forall|k: int, l: int|
            0 <= k < l < app::idle_members(ts, group).len() ==> (#[trigger] app::idle_members(
                ts,
                group,
            )[k]) < (#[trigger] app::idle_members(ts, group)[l]),
        forall|i: usize|
            i < ts.len() && ts[i as int].group == group && !(ts[i as int].child
                || ts[i as int].status is Starting || ts[i as int].status is Running)
                ==> #[trigger] app::idle_members(ts, group).contains(i),
    decreases ts.len(),
{
    if ts.len() > 0 {
        let rest = ts.drop_last();
        let before = app::idle_members(rest, group);
        let all = app::idle_members(ts, group);
        law_starting_a_group(rest, group);
        assert forall|k: int| 0 <= k < all.len() implies ({
            let i = (#[trigger] all[k]) as int;
            i < ts.len() && ts[i].group == group && !(ts[i].child || ts[i].status is Starting
                || ts[i].status is Running)
        }) by {
            if k < before.len() {
                assert(all[k] == before[k]);
                assert(rest[before[k] as int] == ts[before[k] as int]);
            }
        }
        assert forall|k: int, l: int| 0 <= k < l < all.len() implies (#[trigger] all[k]) < (
        #[trigger] all[l]) by {
            assert(all[k] == before[k]);
            if l < before.len() {
                assert(all[l] == before[l]);
            }
        }
        assert forall|i: usize|
            i < ts.len() && ts[i as int].group == group && !(ts[i as int].child
                || ts[i as int].status is Starting
                || ts[i as int].status is Running) implies #[trigger] all.contains(i) by {
            if i == ts.len() - 1 {
                assert(all[before.len() as int] == i);
            } else {
                assert(rest[i as int] == ts[i as int]);
                assert(before.contains(i));
                let k = before.index_of(i);
                assert(all[k] == i);
            }
        }
    }
}

/// The tunnel is up, and of the group that is stopped or any where everything is.
pub open spec fn to_be_stopped(t: tunnel::TunnelView, group: Option<Group>) -> bool {
    &&& t.child || t.status is Starting || t.status is Running
    &&& group matches Some(g) ==> t.group == g
}

/// Stopping a group, or everything, stops exactly the tunnels that are up and
/// concerned, leaves every other as it was, and signals exactly the processes of
/// those that it stops, in order.
pub proof fn law_stopping(ts: Seq<tunnel::TunnelView>, group: Option<Group>)
    requires
        ts.len() <= usize::MAX,
    ensures
        app::all_stopped(ts, group).len() == ts.len(),
        forall|i: int|
            0 <= i < ts.len() ==> #[trigger] app::all_stopped(ts, group)[i] == (if to_be_stopped(
                ts[i],
                group,
            ) {
                ts[i].stopped()
            } else {
                ts[i]
            }),
        forall|k: int|
            0 <= k < app::stop_orders(ts, group).len() ==> {
                let (i, signals) = #[trigger] app::stop_orders(ts, group)[k];
                &&& i < ts.len()
                &&& to_be_stopped(ts[i as int], group)
                &&& signals == (StopSignals {
                    group: ts[i as int].pgid,
                    child: ts[i as int].child,
                })
            },
        forall|k: int, l: int|
            0 <= k < l < app::stop_orders(ts, group).len() ==> (#[trigger] app::stop_orders(
                ts,
                group,
            )[k]).0 < (#[trigger] app::stop_orders(ts, group)[l]).0,
        forall|i: usize|
            i < ts.len() && to_be_stopped(#[trigger] ts[i as int], group) ==> app::stop_orders(
                ts,
                group,
            ).contains(
                (i, StopSignals { group: ts[i as int].pgid, child: ts[i as int].child }),
            ),
    decreases ts.len(),
{
    if ts.len() > 0 {
        let rest = ts.drop_last();
        let before = app::stop_orders(rest, group);
        let all = app::stop_orders(ts, group);
        law_stopping(rest, group);
        assert forall|k: int| 0 <= k < all.len() implies ({
            let (i, signals) = #[trigger] all[k];
            &&& i < ts.len()
            &&& to_be_stopped(ts[i as int], group)
            &&& signals == (StopSignals { group: ts[i as int].pgid, child: ts[i as int].child })
        }) by {
            if k < before.len() {
                assert(all[k] == before[k]);
                assert(rest[before[k].0 as int] == ts[before[k].0 as int]);
            }
        }
        assert forall|k: int, l: int| 0 <= k < l < all.len() implies (#[trigger] all[k]).0 < (
        #[trigger] all[l]).0 by {
            assert(all[k] == before[k]);
            if l < before.len() {
                assert(all[l] == before[l]);
            }
        }
        assert forall|i: usize|
            i < ts.len() && to_be_stopped(#[trigger] ts[i as int], group) implies all.contains(
            (i, StopSignals { group: ts[i as int].pgid, child: ts[i as int].child }),
        ) by {
            let order = (i, StopSignals { group: ts[i as int].pgid, child: ts[i as int].child });
            if i == ts.len() - 1 {
                assert(all[before.len() as int] == order);
            } else {
                assert(rest[i as int] == ts[i as int]);
                assert(before.contains(order));
                let k = before.index_of(order);
                assert(all[k] == order);
            }
        }
    }
}

/// A tick steps every tunnel by its own report.
pub proof fn law_ticks(ts: Seq<tunnel::TunnelView>, reports: Seq<TickReport>, i: int)
    requires
        0 <= i < ts.len(),
    ensures
        app::all_ticked(ts, reports).len() == ts.len(),
        app::all_ticked(ts, reports)[i] == match reports[i] {
            TickReport::Exited(exit) => ts[i].tick_step(
                tunnel::TickEventView::Waited(Some(exit@)),
            ).0,
            TickReport::Port(open) => ts[i].tick_step(tunnel::TickEventView::Probed(open)).0,
        },
{
}

/// The profile that is active at the start: the first of the name `default`, or
/// else the first one.
pub proof fn law_first_profile(ps: Seq<profiles::ProfileView>, i: int, j: int)
    requires
        app::is_initial_profile(ps, i),
        0 <= j < ps.len(),
    ensures
        ps[j].name == "default"@ ==> ps[i].name == "default"@ && i <= j,
        i > 0 ==> ps[i].name == "default"@,
        0 <= i < ps.len(),
{
}

/// The configured services find no room only where one that is not pinned comes
/// to find every port from the base upward pinned or given to an earlier one.
pub proof fn law_when_the_services_find_room(c: Config) -> (i: int)
    requires
        !app::seeds_fit(c),
    ensures
        0 <= i < c.services.fallback@.len(),
        !c.services.ports@.contains_key(c.services.fallback@[i]@),
        forall|q: u16|
            c.services.auto_port_base <= q ==> #[trigger] is_pinned(c.services.ports@, q)
                || app::seed_ports(
                text::views(c.services.fallback@).take(i),
                c.services.ports@,
                c.services.auto_port_base,
            ).contains(q as int),
{
    let names = text::views(c.services.fallback@);
    let pins = c.services.ports@;
    let base = c.services.auto_port_base;
    let given = app::seed_ports(names, pins, base);
    let i = choose|i: int| 0 <= i < given.len() && !(#[trigger] given[i] <= 65535);
    app::lemma_seed_ports_len(names, pins, base);
    lemma_seed_port_at(names, pins, base, i);
    let earlier = app::seed_ports(names.take(i), pins, base);
    let taken = app::pinned(pins).union(earlier.to_set());
    ports::law_first_free_is_least(taken, base as int);
    assert forall|q: u16| base <= q implies #[trigger] is_pinned(pins, q) || earlier.contains(
        q as int,
    ) by {
        assert(taken.contains(q as int));
        if app::pinned(pins).contains(q as int) {
            assert(is_pinned(pins, q));
        }
    }
    i
}

} // verus!
