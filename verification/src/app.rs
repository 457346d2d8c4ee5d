//! The dashboard's state and what its actions do to it.
//!
//! What happens outside (files, processes, the clock, discovery calls) comes in
//! as arguments, and what is to happen outside goes out as results.

use vstd::prelude::*;

use crate::aws::profiles;
use crate::aws::profiles::AwsConfig;
use crate::aws::rds;
use crate::aws::rds::RdsInstance;
use crate::aws::sso;
use crate::aws::sso::{TokenStatus, UnixTime};
use crate::config;
use crate::config::{Config, TemporalCfg};
use crate::ports;
use crate::strmap::StrMap;
use crate::text;
use crate::tunnel;
use crate::tunnel::{Group, StopSignals, TickReport, Tunnel, TunnelKind};

verus! {

/// How long a toast stays, in nanoseconds.
pub const TOAST_TTL: u64 = 6_000_000_000;

/// Which panel the keys act on.
#[derive(Debug, Clone, Copy, PartialEq, Eq, Structural)]
pub enum Focus {
    Profiles,
    Tunnels,
}

/// A short message to the user.
#[derive(Debug)]
pub struct Toast {
    pub message: String,
    pub error: bool,
    /// When it was shown, in nanoseconds of a clock that never goes back.
    pub at: u64,
}

/// RDS instance picker overlay.
#[derive(Debug)]
pub struct RdsPicker {
    pub items: Vec<RdsInstance>,
    pub selected: usize,
    pub profile: String,
}

/// The dashboard.
#[derive(Debug)]
pub struct App {
    pub config: Config,
    pub config_path: String,
    pub aws: AwsConfig,
    pub session_status: StrMap<TokenStatus>,
    pub active_profile: usize,
    pub profile_sel: usize,
    pub tunnels: Vec<Tunnel>,
    pub tunnel_sel: usize,
    pub focus: Focus,
    pub picker: Option<RdsPicker>,
    pub toast: Option<Toast>,
    /// The sessions for which a login is in progress.
    pub login_children: StrMap<()>,
    pub should_quit: bool,
}

/// The local ports of the tunnels.
pub open spec fn local_ports(ts: Seq<tunnel::TunnelView>) -> Set<int> {
    Set::new(|p: int| exists|i: int| 0 <= i < ts.len() && (#[trigger] ts[i]).local_port == p)
}

// ---- the tunnels that are always there -------------------------------------

/// The ports that are pinned to services.
pub open spec fn pinned(ports: Map<Seq<char>, u16>) -> Set<int> {
    Set::new(|p: int| exists|k: Seq<char>| #[trigger] ports.contains_key(k) && ports[k] == p)
}

/// The local ports of the configured services: the pinned one, or else the
/// first from `base` upward that is neither pinned nor given to an earlier one.
pub open spec fn seed_ports(
    names: Seq<Seq<char>>,
    ports: Map<Seq<char>, u16>,
    base: u16,
) -> Seq<int>
    decreases names.len(),
{
    if names.len() == 0 {
        Seq::empty()
    } else {
        let before = seed_ports(names.drop_last(), ports, base);
        before.push(
            if ports.contains_key(names.last()) {
                ports[names.last()] as int
            } else {
                ports::first_free(pinned(ports).union(before.to_set()), base as int)
            },
        )
    }
}

/// There is a port for every configured service.
pub open spec fn seeds_fit(c: Config) -> bool {
    let ports = seed_ports(
        text::views(c.services.fallback@),
        c.services.ports@,
        c.services.auto_port_base,
    );
    forall|i: int| 0 <= i < ports.len() ==> #[trigger] ports[i] <= 65535
}

/// Ports that are not pinned are assigned from the base upward, apart from the
/// pinned ones and from each other.
pub proof fn law_seed_ports_do_not_collide(
    names: Seq<Seq<char>>,
    ports: Map<Seq<char>, u16>,
    base: u16,
    i: int,
    j: int,
)
    requires
        0 <= i < names.len(),
        !ports.contains_key(names[i]),
        seed_ports(names, ports, base)[i] <= 65535,
        0 <= j < names.len(),
        i != j,
    ensures
        seed_ports(names, ports, base)[i] >= base,
        !pinned(ports).contains(seed_ports(names, ports, base)[i]),
        seed_ports(names, ports, base)[i] != seed_ports(names, ports, base)[j],
    decreases names.len(),
{
    lemma_seed_ports_len(names, ports, base);
    lemma_seed_ports_len(names.drop_last(), ports, base);
    let all = seed_ports(names, ports, base);
    let before = seed_ports(names.drop_last(), ports, base);
    let taken = pinned(ports).union(before.to_set());
    let last = names.len() - 1;
    if i == last {
        ports::law_first_free_is_least(taken, base as int);
        assert(before[j] == all[j]);
        assert(before.contains(before[j]));
        assert(taken.contains(all[j]));
    } else if j == last {
        assert(names.drop_last()[i] == names[i]);
        assert(before[i] == all[i]);
        lemma_seed_port_is_apart(names.drop_last(), ports, base, i);
        if ports.contains_key(names[j]) {
            assert(pinned(ports).contains(all[j]));
        } else {
            ports::law_first_free_is_least(taken, base as int);
            assert(before.contains(before[i]));
            assert(taken.contains(all[i]));
        }
    } else {
        assert(names.drop_last()[i] == names[i]);
        assert(before[i] == all[i]);
        assert(before[j] == all[j]);
        law_seed_ports_do_not_collide(names.drop_last(), ports, base, i, j);
    }
}

proof fn lemma_seed_port_is_apart(
    names: Seq<Seq<char>>,
    ports: Map<Seq<char>, u16>,
    base: u16,
    i: int,
)
    requires
        0 <= i < names.len(),
        !ports.contains_key(names[i]),
        seed_ports(names, ports, base)[i] <= 65535,
    ensures
        seed_ports(names, ports, base)[i] >= base,
        !pinned(ports).contains(seed_ports(names, ports, base)[i]),
    decreases names.len(),
{
    lemma_seed_ports_len(names, ports, base);
    lemma_seed_ports_len(names.drop_last(), ports, base);
    let before = seed_ports(names.drop_last(), ports, base);
    if i == names.len() - 1 {
        ports::law_first_free_is_least(pinned(ports).union(before.to_set()), base as int);
    } else {
        assert(names.drop_last()[i] == names[i]);
        assert(before[i] == seed_ports(names, ports, base)[i]);
        lemma_seed_port_is_apart(names.drop_last(), ports, base, i);
    }
}

pub proof fn lemma_seed_ports_len(names: Seq<Seq<char>>, ports: Map<Seq<char>, u16>, base: u16)
    ensures
        seed_ports(names, ports, base).len() == names.len(),
    decreases names.len(),
{
    if names.len() > 0 {
        lemma_seed_ports_len(names.drop_last(), ports, base);
    }
}

/// The local ports of the configured services; `None` where they run out.
pub fn assign_seed_ports(c: &Config) -> (r: Option<Vec<u16>>)
    ensures
        match r {
            Some(ports) => seeds_fit(*c) && ports@.map_values(|p: u16| p as int) == seed_ports(
                text::views(c.services.fallback@),
                c.services.ports@,
                c.services.auto_port_base,
            ),
            None => !seeds_fit(*c),
        },
{
    let ghost names = text::views(c.services.fallback@);
    let ghost map = c.services.ports@;
    let base: u16 = c.services.auto_port_base;
    let ghost all = seed_ports(names, map, base);
    let mut taken: Vec<u16> = Vec::new();
    let pins: usize = c.services.ports.len();
    for i in 0..pins
        invariant
            map == c.services.ports@,
            pins == c.services.ports.key_seq().len(),
            taken@.len() == i,
            forall|j: int|
                0 <= j < i ==> map.contains_key(#[trigger] c.services.ports.key_seq()[j])
                    && taken@[j] == map[c.services.ports.key_seq()[j]],
    {
        let (_, port) = c.services.ports.at(i);
        taken.push(*port);
    }
    assert(ports::port_set(taken@) =~= pinned(map)) by {
        c.services.ports.lemma_key_seq();
        let keys = c.services.ports.key_seq();
        assert forall|p: int| pinned(map).contains(p) implies ports::port_set(taken@).contains(p) by {
            let k = choose|k: Seq<char>| #[trigger] map.contains_key(k) && map[k] == p;
            assert(keys.contains(k));
            let j = keys.index_of(k);
            assert(taken@[j] == p);
        }
        assert forall|p: int| ports::port_set(taken@).contains(p) implies pinned(map).contains(p) by {
            let j = choose|j: int| 0 <= j < taken@.len() && #[trigger] taken@[j] == p;
            assert(map.contains_key(keys[j]));
        }
    }
    let mut r: Vec<u16> = Vec::new();
    let ghost given = r@.map_values(|p: u16| p as int);
    assert(given.to_set() =~= Set::<int>::empty());
    assert(ports::port_set(taken@) =~= pinned(map).union(given.to_set()));
    assert(names.take(0) =~= Seq::empty());
    assert(given =~= seed_ports(names.take(0), map, base));
    for i in 0..c.services.fallback.len()
        invariant
            names == text::views(c.services.fallback@),
            map == c.services.ports@,
            base == c.services.auto_port_base,
            all == seed_ports(names, map, base),
            r@.map_values(|p: u16| p as int) == seed_ports(names.take(i as int), map, base),
            ports::port_set(taken@) == pinned(map).union(r@.map_values(|p: u16| p as int).to_set()),
            r@.len() == i,
    {
        let ghost before = r@.map_values(|p: u16| p as int);
        let ghost taken_before = taken@;
        assert(names.take(i + 1).drop_last() =~= names.take(i as int));
        assert(names.take(i + 1).last() == c.services.fallback@[i as int]@);
        proof {
            lemma_seed_ports_prefix(names, map, base, i + 1);
            lemma_seed_ports_len(names, map, base);
            lemma_seed_ports_len(names.take(i + 1), map, base);
        }
        let port: u16 = match c.services.ports.get(c.services.fallback[i].as_str()) {
            Some(p) => *p,
            None => match ports::free_port(&taken, base) {
                Some(p) => p,
                None => {
                    assert(seed_ports(names.take(i + 1), map, base)[i as int] > 65535);
                    assert(all[i as int] > 65535);
                    return None;
                },
            },
        };
        r.push(port);
        taken.push(port);
        proof {
            let after = r@.map_values(|p: u16| p as int);
            assert(after =~= before.push(port as int));
            assert(after =~= seed_ports(names.take(i + 1), map, base));
            ports::lemma_port_set_push(taken_before, port);
            assert(after.to_set() =~= before.to_set().insert(port as int)) by {
                assert forall|x: int| before.to_set().insert(port as int).contains(
                    x,
                ) implies after.to_set().contains(x) by {
                    if x == port {
                        assert(after[before.len() as int] == x);
                    } else {
                        let k = before.index_of(x);
                        assert(after[k] == x);
                    }
                }
            }
            assert(ports::port_set(taken@) =~= pinned(map).union(after.to_set()));
        }
    }
    assert(names.take(names.len() as int) =~= names);
    assert(seeds_fit(*c)) by {
        let ports = r@.map_values(|p: u16| p as int);
        assert forall|i: int| 0 <= i < all.len() implies #[trigger] all[i] <= 65535 by {
            assert(ports[i] == r@[i]);
        }
    }
    Some(r)
}

pub proof fn lemma_seed_ports_prefix(
    names: Seq<Seq<char>>,
    ports: Map<Seq<char>, u16>,
    base: u16,
    n: int,
)
    requires
        0 <= n <= names.len(),
    ensures
        forall|i: int|
            0 <= i < n ==> seed_ports(names.take(n), ports, base)[i] == #[trigger] seed_ports(
                names,
                ports,
                base,
            )[i],
    decreases names.len(),
{
    if n == names.len() {
        assert(names.take(n) =~= names);
    } else {
        assert(names.drop_last().take(n) =~= names.take(n));
        lemma_seed_ports_prefix(names.drop_last(), ports, base, n);
        lemma_seed_ports_len(names.drop_last(), ports, base);
        lemma_seed_ports_len(names.take(n), ports, base);
        assert forall|i: int| 0 <= i < n implies seed_ports(names.take(n), ports, base)[i]
            == #[trigger] seed_ports(names, ports, base)[i] by {
            assert(seed_ports(names, ports, base)[i] == seed_ports(
                names.drop_last(),
                ports,
                base,
            )[i]);
        }
    }
}

// ---- the order on the screen -----------------------------------------------

/// The positions of the tunnels of a group.
pub open spec fn members(ts: Seq<tunnel::TunnelView>, group: Group) -> Seq<usize>
    decreases ts.len(),
{
    if ts.len() == 0 {
        Seq::empty()
    } else {
        let before = members(ts.drop_last(), group);
        if ts.last().group == group {
            before.push((ts.len() - 1) as usize)
        } else {
            before
        }
    }
}

/// The positions of the tunnels, group by group.
pub open spec fn display_order(ts: Seq<tunnel::TunnelView>) -> Seq<usize> {
    members(ts, Group::Services) + members(ts, Group::Databases) + members(ts, Group::Temporal)
}

pub proof fn lemma_members(ts: Seq<tunnel::TunnelView>, group: Group)
    requires
        ts.len() <= usize::MAX,
    ensures
        forall|k: int|
            0 <= k < members(ts, group).len() ==> (#[trigger] members(ts, group)[k]) < ts.len()
                && ts[members(ts, group)[k] as int].group == group,
        forall|k: int, l: int|
            0 <= k < l < members(ts, group).len() ==> #[trigger] members(ts, group)[k]
                < #[trigger] members(ts, group)[l],
        forall|i: usize|
            i < ts.len() && ts[i as int].group == group ==> #[trigger] members(
                ts,
                group,
            ).contains(i),
    decreases ts.len(),
{
    if ts.len() > 0 {
        let before = members(ts.drop_last(), group);
        let all = members(ts, group);
        lemma_members(ts.drop_last(), group);
        assert forall|k: int| 0 <= k < all.len() implies (#[trigger] all[k]) < ts.len()
            && ts[all[k] as int].group == group by {
            if k < before.len() {
                assert(all[k] == before[k]);
                assert(ts.drop_last()[before[k] as int] == ts[before[k] as int]);
            }
        }
        assert forall|k: int, l: int| 0 <= k < l < all.len() implies #[trigger] all[k]
            < #[trigger] all[l] by {
            assert(all[k] == before[k]);
            if l < before.len() {
                assert(all[l] == before[l]);
            }
        }
        assert forall|i: usize|
            i < ts.len() && ts[i as int].group == group implies #[trigger] all.contains(i) by {
            if i == ts.len() - 1 {
                assert(all[before.len() as int] == i);
            } else {
                assert(ts.drop_last()[i as int] == ts[i as int]);
                assert(before.contains(i));
                let k = before.index_of(i);
                assert(all[k] == i);
            }
        }
    }
}

proof fn lemma_member_counts(ts: Seq<tunnel::TunnelView>)
    ensures
        members(ts, Group::Services).len() + members(ts, Group::Databases).len() + members(
            ts,
            Group::Temporal,
        ).len() == ts.len(),
    decreases ts.len(),
{
    if ts.len() > 0 {
        lemma_member_counts(ts.drop_last());
    }
}

/// Where a group stands on the screen.
pub open spec fn rank(group: Group) -> int {
    match group {
        Group::Services => 0,
        Group::Databases => 1,
        Group::Temporal => 2,
    }
}

/// The order on the screen shows every tunnel exactly once: services, then
/// databases, then Temporal entries, and within a group in the order in which
/// they were added.
pub proof fn law_display_order(ts: Seq<tunnel::TunnelView>)
    requires
        ts.len() <= usize::MAX,
    ensures
        display_order(ts).len() == ts.len(),
        forall|k: int|
            0 <= k < ts.len() ==> (#[trigger] display_order(ts)[k]) < ts.len(),
        forall|i: usize| i < ts.len() ==> #[trigger] display_order(ts).contains(i),
        forall|k: int, l: int|
            0 <= k < l < ts.len() ==> ({
                let a = #[trigger] display_order(ts)[k];
                let b = #[trigger] display_order(ts)[l];
                rank(ts[a as int].group) < rank(ts[b as int].group) || (ts[a as int].group
                    == ts[b as int].group && a < b)
            }),
{
    let s = members(ts, Group::Services);
    let d = members(ts, Group::Databases);
    let t = members(ts, Group::Temporal);
    let all = display_order(ts);
    lemma_member_counts(ts);
    lemma_members(ts, Group::Services);
    lemma_members(ts, Group::Databases);
    lemma_members(ts, Group::Temporal);
    assert forall|k: int| 0 <= k < ts.len() implies (#[trigger] all[k]) < ts.len() by {
        lemma_display_at(ts, k);
    }
    assert forall|i: usize| i < ts.len() implies #[trigger] all.contains(i) by {
        match ts[i as int].group {
            Group::Services => {
                assert(s.contains(i));
                assert(all[s.index_of(i)] == i);
            },
            Group::Databases => {
                assert(d.contains(i));
                assert(all[s.len() + d.index_of(i)] == i);
            },
            Group::Temporal => {
                assert(t.contains(i));
                assert(all[s.len() + d.len() + t.index_of(i)] == i);
            },
        }
    }
    assert forall|k: int, l: int| 0 <= k < l < ts.len() implies ({
        let a = #[trigger] all[k];
        let b = #[trigger] all[l];
        rank(ts[a as int].group) < rank(ts[b as int].group) || (ts[a as int].group
            == ts[b as int].group && a < b)
    }) by {
        lemma_display_at(ts, k);
        lemma_display_at(ts, l);
    }
}

pub proof fn lemma_display_at(ts: Seq<tunnel::TunnelView>, k: int)
    requires
        ts.len() <= usize::MAX,
        0 <= k < display_order(ts).len(),
    ensures
        display_order(ts)[k] < ts.len(),
        ({
            let s = members(ts, Group::Services);
            let d = members(ts, Group::Databases);
            let i = display_order(ts)[k];
            if k < s.len() {
                i == s[k] && ts[i as int].group == Group::Services
            } else if k < s.len() + d.len() {
                i == d[k - s.len()] && ts[i as int].group == Group::Databases
            } else {
                i == members(ts, Group::Temporal)[k - s.len() - d.len()] && ts[i as int].group
                    == Group::Temporal
            }
        }),
{
    lemma_members(ts, Group::Services);
    lemma_members(ts, Group::Databases);
    lemma_members(ts, Group::Temporal);
}

// ---- state -----------------------------------------------------------------

/// What a toast shows.
pub open spec fn toasted(t: Option<Toast>, message: Seq<char>, error: bool, at: u64) -> bool {
    t matches Some(t) && t.message@ == message && t.error == error && t.at == at
}

impl App {
    /// The tunnels as mathematical values.
    pub open spec fn tunnel_list(&self) -> Seq<tunnel::TunnelView> {
        tunnel::tunnels_view(self.tunnels@)
    }

    /// The AWS profiles as mathematical values.
    pub open spec fn profile_list(&self) -> Seq<profiles::ProfileView> {
        profiles::profiles_view(self.aws.profiles@)
    }

    /// What is selected is there to be selected.
    pub open spec fn wf(&self) -> bool {
        &&& self.active_profile == 0 || self.active_profile < self.aws.profiles@.len()
        &&& self.profile_sel == 0 || self.profile_sel < self.aws.profiles@.len()
        &&& self.tunnel_sel == 0 || self.tunnel_sel < self.tunnels@.len()
        &&& self.picker matches Some(p) ==> p.selected < p.items@.len()
    }

    /// The position of the selected tunnel.
    pub open spec fn selection(&self) -> Option<usize> {
        if self.tunnel_sel < self.tunnel_list().len() {
            Some(display_order(self.tunnel_list())[self.tunnel_sel as int])
        } else {
            None
        }
    }

    /// The positions of the tunnels of a group, in order.
    pub fn in_group(&self, group: Group) -> (r: Vec<usize>)
        ensures
            r@ == members(self.tunnel_list(), group),
    {
        let mut r: Vec<usize> = Vec::new();
        let ghost ts = self.tunnel_list();
        assert(ts.take(0) =~= Seq::empty());
        for i in 0..self.tunnels.len()
            invariant
                ts == self.tunnel_list(),
                r@ == members(ts.take(i as int), group),
        {
            assert(ts.take(i + 1).drop_last() =~= ts.take(i as int));
            assert(ts.take(i + 1).last() == self.tunnels@[i as int]@);
            if self.tunnels[i].group == group {
                r.push(i);
            }
        }
        assert(ts.take(ts.len() as int) =~= ts);
        r
    }

    /// Tunnel indices in display (grouped) order.
    pub fn ordered(&self) -> (r: Vec<usize>)
        ensures
            r@ == display_order(self.tunnel_list()),
    {
        let mut r: Vec<usize> = self.in_group(Group::Services);
        let mut databases: Vec<usize> = self.in_group(Group::Databases);
        let mut temporal: Vec<usize> = self.in_group(Group::Temporal);
        r.append(&mut databases);
        r.append(&mut temporal);
        r
    }

    /// The selected tunnel's index.
    pub fn selected_tunnel(&self) -> (r: Option<usize>)
        ensures
            r == self.selection(),
            r matches Some(i) ==> i < self.tunnels@.len(),
    {
        let order = self.ordered();
        proof {
            assert(self.tunnels@.len() == self.tunnels.len());
            law_display_order(self.tunnel_list());
        }
        if self.tunnel_sel < order.len() {
            Some(order[self.tunnel_sel])
        } else {
            None
        }
    }

    /// The group of the selected tunnel.
    pub fn selected_group(&self) -> (r: Option<Group>)
        ensures
            r == match self.selection() {
                Some(i) => Some(self.tunnel_list()[i as int].group),
                None => None,
            },
    {
        match self.selected_tunnel() {
            Some(i) => Some(self.tunnels[i].group),
            None => None,
        }
    }

    /// The name of the active profile.
    pub open spec fn active_name(&self) -> Seq<char> {
        if self.active_profile < self.profile_list().len() {
            self.profile_list()[self.active_profile as int].name
        } else {
            "default"@
        }
    }

    /// The SSO session of the profile at `idx`.
    pub open spec fn session_of(&self, idx: int) -> Option<Seq<char>> {
        if 0 <= idx < self.profile_list().len() {
            self.profile_list()[idx].sso_session
        } else {
            None
        }
    }

    /// The name of the active profile.
    pub fn active_profile_name(&self) -> (r: &str)
        ensures
            r@ == self.active_name(),
    {
        if self.active_profile < self.aws.profiles.len() {
            self.aws.profiles[self.active_profile].name.as_str()
        } else {
            "default"
        }
    }

    /// The session of the profile at `idx`.
    fn session_at(&self, idx: usize) -> (r: Option<String>)
        ensures
            text::opt_view(r) == self.session_of(idx as int),
    {
        if idx < self.aws.profiles.len() {
            match &self.aws.profiles[idx].sso_session {
                Some(s) => Some(s.clone()),
                None => None,
            }
        } else {
            None
        }
    }

    /// The SSO session of the active profile.
    pub fn active_session_name(&self) -> (r: Option<String>)
        ensures
            text::opt_view(r) == self.session_of(self.active_profile as int),
    {
        self.session_at(self.active_profile)
    }

    /// The token status of the profile at `idx`.
    pub open spec fn status_of(&self, idx: int) -> TokenStatus {
        match self.session_of(idx) {
            Some(s) => if self.session_status@.contains_key(s) {
                self.session_status@[s]
            } else {
                TokenStatus::NoToken
            },
            None => TokenStatus::NoToken,
        }
    }

    /// The token status of the profile at `idx`.
    pub fn status_for_profile(&self, idx: usize) -> (r: TokenStatus)
        ensures
            r == self.status_of(idx as int),
    {
        match self.session_at(idx) {
            Some(s) => match self.session_status.get(s.as_str()) {
                Some(status) => *status,
                None => TokenStatus::NoToken,
            },
            None => TokenStatus::NoToken,
        }
    }

    /// Shows a toast.
    pub fn set_toast(&mut self, message: String, error: bool, now: u64)
        ensures
            *final(self) == (App { toast: final(self).toast, ..*old(self) }),
            toasted(final(self).toast, message@, error, now),
    {
        self.toast = Some(Toast { message, error, at: now });
    }
}

// ---- starting and stopping -------------------------------------------------

/// The positions of the tunnels of a group that are not up.
pub open spec fn idle_members(ts: Seq<tunnel::TunnelView>, group: Group) -> Seq<usize>
    decreases ts.len(),
{
    if ts.len() == 0 {
        Seq::empty()
    } else {
        let before = idle_members(ts.drop_last(), group);
        if ts.last().group == group && !ts.last().active() {
            before.push((ts.len() - 1) as usize)
        } else {
            before
        }
    }
}

/// Whether stopping a group, or everything, concerns the tunnel.
pub open spec fn concerned(t: tunnel::TunnelView, group: Option<Group>) -> bool {
    t.active() && (group is None || group == Some(t.group))
}

/// The tunnels after a group, or everything, was stopped.
pub open spec fn all_stopped(ts: Seq<tunnel::TunnelView>, group: Option<Group>) -> Seq<
    tunnel::TunnelView,
> {
    ts.map_values(
        |t: tunnel::TunnelView|
            if concerned(t, group) {
                t.stopped()
            } else {
                t
            },
    )
}

/// Which processes to signal when a group, or everything, is stopped.
pub open spec fn stop_orders(ts: Seq<tunnel::TunnelView>, group: Option<Group>) -> Seq<
    (usize, StopSignals),
>
    decreases ts.len(),
{
    if ts.len() == 0 {
        Seq::empty()
    } else {
        let before = stop_orders(ts.drop_last(), group);
        if concerned(ts.last(), group) {
            before.push(((ts.len() - 1) as usize, ts.last().signals()))
        } else {
            before
        }
    }
}

/// What stopping the selected tunnel does, and which process it asks to signal.
pub open spec fn selected_stopped(pre: App, post: App, order: Option<(usize, StopSignals)>) -> bool {
    match pre.selection() {
        Some(i) => {
            &&& order == Some((i, pre.tunnel_list()[i as int].signals()))
            &&& post == (App { tunnels: post.tunnels, ..pre })
            &&& post.tunnel_list() == pre.tunnel_list().update(
                i as int,
                pre.tunnel_list()[i as int].stopped(),
            )
        },
        None => order is None && post == pre,
    }
}

/// What stopping a group, or everything, does, and which processes it asks to
/// signal.
pub open spec fn group_stopped(
    pre: App,
    post: App,
    group: Option<Group>,
    orders: Seq<(usize, StopSignals)>,
) -> bool {
    &&& post == (App { tunnels: post.tunnels, ..pre })
    &&& post.tunnel_list() == all_stopped(pre.tunnel_list(), group)
    &&& orders == stop_orders(pre.tunnel_list(), group)
}

impl App {
    /// Which tunnel to start: the selected one.
    pub fn start_selected(&self) -> (r: Option<usize>)
        ensures
            r == self.selection(),
            r matches Some(i) ==> i < self.tunnels@.len(),
    {
        self.selected_tunnel()
    }

    /// Stops the selected tunnel; returns its index and what to signal.
    pub fn stop_selected(&mut self) -> (r: Option<(usize, StopSignals)>)
        ensures
            old(self).wf() ==> final(self).wf(),
            selected_stopped(*old(self), *final(self), r),
    {
        match self.selected_tunnel() {
            Some(i) => {
                let signals = self.tunnels[i].stop();
                assert(self.tunnel_list() =~= old(self).tunnel_list().update(
                    i as int,
                    old(self).tunnel_list()[i as int].stopped(),
                ));
                Some((i, signals))
            },
            None => None,
        }
    }

    /// Which tunnels to start, in order: those of the group that are not up.
    pub fn start_group(&self, group: Group) -> (r: Vec<usize>)
        ensures
            r@ == idle_members(self.tunnel_list(), group),
    {
        let mut r: Vec<usize> = Vec::new();
        let ghost ts = self.tunnel_list();
        assert(ts.take(0) =~= Seq::empty());
        for i in 0..self.tunnels.len()
            invariant
                ts == self.tunnel_list(),
                r@ == idle_members(ts.take(i as int), group),
        {
            assert(ts.take(i + 1).drop_last() =~= ts.take(i as int));
            assert(ts.take(i + 1).last() == self.tunnels@[i as int]@);
            if self.tunnels[i].group == group && !self.tunnels[i].is_active() {
                r.push(i);
            }
        }
        assert(ts.take(ts.len() as int) =~= ts);
        r
    }

    fn stop_where(&mut self, group: Option<Group>) -> (r: Vec<(usize, StopSignals)>)
        ensures
            group_stopped(*old(self), *final(self), group, r@),
    {
        let mut r: Vec<(usize, StopSignals)> = Vec::new();
        let ghost ts = self.tunnel_list();
        let n: usize = self.tunnels.len();
        assert(ts.take(0) =~= Seq::empty());
        for i in 0..n
            invariant
                n == ts.len(),
                n == self.tunnels@.len(),
                ts == old(self).tunnel_list(),
                *self == (App { tunnels: self.tunnels, ..*old(self) }),
                r@ == stop_orders(ts.take(i as int), group),
                forall|j: int|
                    0 <= j < i ==> #[trigger] self.tunnels@[j]@ == all_stopped(ts, group)[j],
                forall|j: int| i <= j < n ==> #[trigger] self.tunnels@[j]@ == ts[j],
        {
            assert(ts.take(i + 1).drop_last() =~= ts.take(i as int));
            assert(ts.take(i + 1).last() == ts[i as int]);
            assert(self.tunnels@[i as int]@ == ts[i as int]);
            let chosen: bool = match group {
                Some(g) => self.tunnels[i].group == g,
                None => true,
            };
            if chosen && self.tunnels[i].is_active() {
                let signals = self.tunnels[i].stop();
                r.push((i, signals));
            }
        }
        assert(ts.take(n as int) =~= ts);
        assert(self.tunnel_list() =~= all_stopped(ts, group));
        r
    }

    /// Stops the tunnels of the group that are up; returns which they were and
    /// what to signal.
    pub fn stop_group(&mut self, group: Group) -> (r: Vec<(usize, StopSignals)>)
        ensures
            old(self).wf() ==> final(self).wf(),
            group_stopped(*old(self), *final(self), Some(group), r@),
    {
        let r = self.stop_where(Some(group));
        assert(self.tunnel_list().len() == old(self).tunnel_list().len());
        r
    }

    /// Stops every tunnel that is up; returns which they were and what to signal.
    pub fn shutdown(&mut self) -> (r: Vec<(usize, StopSignals)>)
        ensures
            old(self).wf() ==> final(self).wf(),
            group_stopped(*old(self), *final(self), None, r@),
    {
        let r = self.stop_where(None);
        assert(self.tunnel_list().len() == old(self).tunnel_list().len());
        r
    }
}

/// Quitting leaves no process behind: every tunnel that had one is signalled,
/// and afterwards none has one.
pub proof fn law_shutdown_leaves_nothing(ts: Seq<tunnel::TunnelView>, i: int)
    requires
        0 <= i < ts.len() <= usize::MAX,
    ensures
        !all_stopped(ts, None)[i].active(),
        !all_stopped(ts, None)[i].child,
        ts[i].child ==> stop_orders(ts, None).contains((i as usize, ts[i].signals())),
        !ts[i].active() ==> all_stopped(ts, None)[i] == ts[i],
{
    if ts[i].child {
        lemma_ordered_to_stop(ts, None, i);
    }
}

/// Stopping a group concerns that group alone.
pub proof fn law_stopping_a_group_spares_others(
    ts: Seq<tunnel::TunnelView>,
    group: Group,
    i: int,
)
    requires
        0 <= i < ts.len() <= usize::MAX,
    ensures
        ts[i].group != group ==> all_stopped(ts, Some(group))[i] == ts[i] && forall|k: int|
            0 <= k < stop_orders(ts, Some(group)).len() ==> (#[trigger] stop_orders(
                ts,
                Some(group),
            )[k]).0 != i,
        ts[i].group == group ==> !all_stopped(ts, Some(group))[i].active(),
        ts[i].group == group && ts[i].active() ==> stop_orders(ts, Some(group)).contains(
            (i as usize, ts[i].signals()),
        ),
{
    if concerned(ts[i], Some(group)) {
        lemma_ordered_to_stop(ts, Some(group), i);
    }
    assert forall|k: int| 0 <= k < stop_orders(ts, Some(group)).len() implies concerned(
        ts[(#[trigger] stop_orders(ts, Some(group))[k]).0 as int],
        Some(group),
    ) by {
        lemma_orders_are_concerned(ts, Some(group), k);
    }
}

proof fn lemma_ordered_to_stop(ts: Seq<tunnel::TunnelView>, group: Option<Group>, i: int)
    requires
        0 <= i < ts.len() <= usize::MAX,
        concerned(ts[i], group),
    ensures
        stop_orders(ts, group).contains((i as usize, ts[i].signals())),
    decreases ts.len(),
{
    let before = stop_orders(ts.drop_last(), group);
    let all = stop_orders(ts, group);
    if i == ts.len() - 1 {
        assert(all[before.len() as int] == (i as usize, ts[i].signals()));
    } else {
        assert(ts.drop_last()[i] == ts[i]);
        lemma_ordered_to_stop(ts.drop_last(), group, i);
        let k = before.index_of((i as usize, ts[i].signals()));
        assert(all[k] == before[k]);
    }
}

proof fn lemma_orders_are_concerned(ts: Seq<tunnel::TunnelView>, group: Option<Group>, k: int)
    requires
        ts.len() <= usize::MAX,
        0 <= k < stop_orders(ts, group).len(),
    ensures
        stop_orders(ts, group)[k].0 < ts.len(),
        concerned(ts[stop_orders(ts, group)[k].0 as int], group),
    decreases ts.len(),
{
    let before = stop_orders(ts.drop_last(), group);
    if k < before.len() {
        lemma_orders_are_concerned(ts.drop_last(), group, k);
        assert(stop_orders(ts, group)[k] == before[k]);
    }
}

// ---- building the list -----------------------------------------------------

/// The tunnel to a service.
pub open spec fn service_tunnel(c: Config, name: Seq<char>, port: u16) -> tunnel::TunnelView {
    tunnel::TunnelView {
        name,
        group: Group::Services,
        kind: tunnel::KindView::SsmService { service_name: name },
        profile: Some(c.services.profile@),
        region: c.region@,
        bastion: Some(c.services.bastion@),
        local_port: port,
        status: tunnel::StatusView::Stopped,
        log: Seq::empty(),
        child: false,
        pgid: None,
    }
}

/// The tunnel to a Temporal UI.
pub open spec fn temporal_tunnel(c: Config, t: TemporalCfg, home: Seq<char>) -> tunnel::TunnelView {
    tunnel::TunnelView {
        name: t.name@,
        group: Group::Temporal,
        kind: tunnel::KindView::Ssh {
            pem: c.key_path(t.pem@, home),
            elb_host: t.elb_host@,
            remote_port: t.remote_port,
            ec2_host: t.ec2_host@,
            ec2_user: t.ec2_user@,
        },
        profile: None,
        region: c.region@,
        bastion: None,
        local_port: t.local_port,
        status: tunnel::StatusView::Stopped,
        log: Seq::empty(),
        child: false,
        pgid: None,
    }
}

/// The tunnels to the configured services.
pub open spec fn service_seeds(c: Config) -> Seq<tunnel::TunnelView> {
    let names = text::views(c.services.fallback@);
    let ports = seed_ports(names, c.services.ports@, c.services.auto_port_base);
    Seq::new(names.len(), |i: int| service_tunnel(c, names[i], ports[i] as u16))
}

/// The tunnels to the Temporal UIs.
pub open spec fn temporal_seeds(c: Config, home: Seq<char>) -> Seq<tunnel::TunnelView> {
    Seq::new(c.temporal@.len(), |i: int| temporal_tunnel(c, c.temporal@[i], home))
}

fn new_service(c: &Config, name: &str, port: u16) -> (r: Tunnel)
    ensures
        r@ == service_tunnel(*c, name@, port),
{
    Tunnel::new(
        name.to_owned(),
        Group::Services,
        TunnelKind::SsmService { service_name: name.to_owned() },
        Some(c.services.profile.clone()),
        c.region.clone(),
        Some(c.services.bastion.clone()),
        port,
    )
}

fn new_temporal(c: &Config, t: &TemporalCfg, home: &str) -> (r: Tunnel)
    ensures
        r@ == temporal_tunnel(*c, *t, home@),
{
    Tunnel::new(
        t.name.clone(),
        Group::Temporal,
        TunnelKind::Ssh {
            pem: c.resolve_pem(t.pem.as_str(), home),
            elb_host: t.elb_host.clone(),
            remote_port: t.remote_port,
            ec2_host: t.ec2_host.clone(),
            ec2_user: t.ec2_user.clone(),
        },
        None,
        c.region.clone(),
        None,
        t.local_port,
    )
}

/// The statuses are those of the sessions' cached tokens, read in the order of
/// the sessions.
pub open spec fn rescanned(
    sessions: Seq<Seq<char>>,
    files: Seq<Option<Seq<char>>>,
    now: UnixTime,
    statuses: Map<Seq<char>, TokenStatus>,
) -> bool {
    &&& forall|s: Seq<char>| #[trigger] statuses.contains_key(s) <==> sessions.contains(s)
    &&& forall|i: int|
        0 <= i < sessions.len() ==> statuses[#[trigger] sessions[i]] == sso::scanned(
            files[i],
            now,
        )
}

/// The token files as mathematical values.
pub open spec fn token_views(files: Seq<Option<String>>) -> Seq<Option<Seq<char>>> {
    files.map_values(|f: Option<String>| text::opt_view(f))
}

/// The first profile named `default`, or else the first one.
pub open spec fn is_initial_profile(ps: Seq<profiles::ProfileView>, i: int) -> bool {
    ||| 0 <= i < ps.len() && ps[i].name == "default"@ && forall|j: int|
        0 <= j < i ==> (#[trigger] ps[j]).name != "default"@
    ||| i == 0 && forall|j: int| 0 <= j < ps.len() ==> (#[trigger] ps[j]).name != "default"@
}

impl App {
    /// The dashboard as it starts: the configured tunnels, none of them up, and
    /// the `default` profile. `files` are the cached tokens of the sessions, in
    /// order; `home` is the user's home directory.
    pub fn new(
        config: Config,
        config_path: String,
        aws: AwsConfig,
        files: &Vec<Option<String>>,
        unix_now: UnixTime,
        home: &str,
    ) -> (r: App)
        requires
            seeds_fit(config),
            files@.len() == aws.sessions.key_seq().len(),
            unix_now.valid(),
        ensures
            r.wf(),
            r.config == config,
            r.config_path == config_path,
            r.aws == aws,
            rescanned(
                aws.sessions.key_seq(),
                token_views(files@),
                unix_now,
                r.session_status@,
            ),
            is_initial_profile(r.profile_list(), r.active_profile as int),
            r.profile_sel == r.active_profile,
            r.tunnel_list() == service_seeds(config) + temporal_seeds(config, home@),
            r.tunnel_sel == 0,
            r.focus == Focus::Tunnels,
            r.picker is None,
            r.toast is None,
            r.login_children@ == Map::<Seq<char>, ()>::empty(),
            !r.should_quit,
    {
        let mut active: usize = 0;
        let mut found: bool = false;
        let mut i: usize = 0;
        while i < aws.profiles.len() && !found
            invariant
                i <= aws.profiles@.len(),
                found ==> active < aws.profiles@.len() && aws.profiles@[active as int].name@
                    == "default"@ && forall|j: int|
                    0 <= j < active ==> (#[trigger] aws.profiles@[j]).name@ != "default"@,
                !found ==> active == 0 && forall|j: int|
                    0 <= j < i ==> (#[trigger] aws.profiles@[j]).name@ != "default"@,
            decreases aws.profiles@.len() - i + (if found { 0int } else { 1 }),
        {
            if text::str_eq(aws.profiles[i].name.as_str(), "default") {
                active = i;
                found = true;
            } else {
                i = i + 1;
            }
        }
        let mut app = App {
            config,
            config_path,
            aws,
            session_status: StrMap::new(),
            active_profile: active,
            profile_sel: active,
            tunnels: Vec::new(),
            tunnel_sel: 0,
            focus: Focus::Tunnels,
            picker: None,
            toast: None,
            login_children: StrMap::new(),
            should_quit: false,
        };
        assert(is_initial_profile(app.profile_list(), active as int)) by {
            let ps = app.profile_list();
            assert forall|j: int| 0 <= j < ps.len() implies (#[trigger] ps[j]).name
                == aws.profiles@[j].name@ by {}
        }
        app.rescan_sso(files, unix_now);
        app.build_seed_tunnels(home);
        app
    }

    /// Adds the always-present tunnels: configured services + temporal entries.
    pub fn build_seed_tunnels(&mut self, home: &str)
        requires
            seeds_fit(old(self).config),
        ensures
            *final(self) == (App { tunnels: final(self).tunnels, ..*old(self) }),
            old(self).wf() ==> final(self).wf(),
            final(self).tunnel_list() == old(self).tunnel_list() + service_seeds(
                old(self).config,
            ) + temporal_seeds(old(self).config, home@),
    {
        let ghost before = self.tunnel_list();
        let ghost c = self.config;
        let ghost services = service_seeds(c);
        let ghost temporal = temporal_seeds(c, home@);
        if let Some(ports) = assign_seed_ports(&self.config) {
            proof {
                lemma_seed_ports_len(
                    text::views(c.services.fallback@),
                    c.services.ports@,
                    c.services.auto_port_base,
                );
            }
            let ghost port_ints = ports@.map_values(|p: u16| p as int);
            assert(ports@.len() == port_ints.len());
            let n: usize = self.config.services.fallback.len();
            assert(before + services.take(0) =~= before);
            for i in 0..n
                invariant
                    n == c.services.fallback@.len(),
                    n == ports@.len(),
                    c == old(self).config,
                    services == service_seeds(c),
                    before == old(self).tunnel_list(),
                    port_ints == ports@.map_values(|p: u16| p as int),
                    port_ints == seed_ports(
                        text::views(c.services.fallback@),
                        c.services.ports@,
                        c.services.auto_port_base,
                    ),
                    *self == (App { tunnels: self.tunnels, ..*old(self) }),
                    self.tunnel_list() == before + services.take(i as int),
            {
                let ghost sofar = self.tunnel_list();
                let t = new_service(
                    &self.config,
                    self.config.services.fallback[i].as_str(),
                    ports[i],
                );
                assert(port_ints[i as int] == ports@[i as int]);
                assert(t@ == services[i as int]);
                self.tunnels.push(t);
                assert(self.tunnel_list() =~= sofar.push(t@));
                assert(services.take(i + 1) =~= services.take(i as int).push(services[i as int]));
                assert(sofar.push(t@) =~= before + services.take(i + 1));
            }
            assert(services.take(n as int) =~= services);
        }
        let m: usize = self.config.temporal.len();
        assert(before + services + temporal.take(0) =~= before + services);
        for i in 0..m
            invariant
                m == c.temporal@.len(),
                c == old(self).config,
                temporal == temporal_seeds(c, home@),
                *self == (App { tunnels: self.tunnels, ..*old(self) }),
                self.tunnel_list() == before + services + temporal.take(i as int),
        {
            let ghost sofar = self.tunnel_list();
            let t = new_temporal(&self.config, &self.config.temporal[i], home);
            assert(t@ == temporal[i as int]);
            self.tunnels.push(t);
            assert(self.tunnel_list() =~= sofar.push(t@));
            assert(temporal.take(i + 1) =~= temporal.take(i as int).push(temporal[i as int]));
            assert(sofar.push(t@) =~= before + services + temporal.take(i + 1));
        }
        assert(temporal.take(m as int) =~= temporal);
        assert(self.tunnel_list().len() >= before.len());
    }

    /// Reads the status of every session from its cached token.
    pub fn rescan_sso(&mut self, files: &Vec<Option<String>>, now: UnixTime)
        requires
            files@.len() == old(self).aws.sessions.key_seq().len(),
            now.valid(),
        ensures
            *final(self) == (App { session_status: final(self).session_status, ..*old(self) }),
            old(self).wf() ==> final(self).wf(),
            rescanned(
                old(self).aws.sessions.key_seq(),
                token_views(files@),
                now,
                final(self).session_status@,
            ),
    {
        let mut statuses: StrMap<TokenStatus> = StrMap::new();
        let names = self.aws.sessions.keys();
        let ghost keys = self.aws.sessions.key_seq();
        let ghost views = token_views(files@);
        assert(names@.len() == text::views(names@).len());
        for i in 0..names.len()
            invariant
                keys == text::views(names@),
                keys.len() == names@.len(),
                views == token_views(files@),
                files@.len() == names@.len(),
                now.valid(),
                crate::strmap::ascending(keys),
                forall|s: Seq<char>| #[trigger]
                    statuses@.contains_key(s) <==> keys.take(i as int).contains(s),
                forall|j: int|
                    0 <= j < i ==> statuses@[#[trigger] keys[j]] == sso::scanned(views[j], now),
        {
            let ghost before = statuses@;
            let status = sso::scan_session(&files[i], now);
            statuses.insert(names[i].clone(), status);
            assert(names@[i as int]@ == keys[i as int]);
            assert(keys.take(i + 1) =~= keys.take(i as int).push(keys[i as int]));
            assert forall|s: Seq<char>| #[trigger]
                statuses@.contains_key(s) <==> keys.take(i + 1).contains(s) by {
                if keys.take(i as int).contains(s) {
                    let k = keys.take(i as int).index_of(s);
                    assert(keys.take(i + 1)[k] == s);
                }
                assert(keys.take(i + 1)[i as int] == keys[i as int]);
                if keys.take(i + 1).contains(s) && s != keys[i as int] {
                    let k = keys.take(i + 1).index_of(s);
                    assert(keys.take(i as int)[k] == s);
                }
            }
            assert forall|j: int| 0 <= j < i + 1 implies statuses@[#[trigger] keys[j]]
                == sso::scanned(views[j], now) by {
                if j < i {
                    text::lemma_lex_irreflexive(keys[j]);
                }
            }
        }
        assert(keys.take(keys.len() as int) =~= keys);
        self.session_status = statuses;
    }
}

// ---- services found while running ------------------------------------------

/// Some service tunnel goes by the name.
pub open spec fn shows_service(ts: Seq<tunnel::TunnelView>, name: Seq<char>) -> bool {
    exists|i: int|
        0 <= i < ts.len() && (#[trigger] ts[i]).group == Group::Services && ts[i].name == name
}

/// The local port that a service would get beside the tunnels that are there:
/// the pinned one, or else the first free one.
pub open spec fn service_port(c: Config, ts: Seq<tunnel::TunnelView>, name: Seq<char>) -> int {
    if c.services.ports@.contains_key(name) {
        c.services.ports@[name] as int
    } else {
        ports::first_free(local_ports(ts), c.services.auto_port_base as int)
    }
}

/// The tunnels with those of the named services added that were not shown yet.
pub open spec fn with_services(
    c: Config,
    ts: Seq<tunnel::TunnelView>,
    names: Seq<Seq<char>>,
) -> Seq<tunnel::TunnelView>
    decreases names.len(),
{
    if names.len() == 0 {
        ts
    } else {
        let before = with_services(c, ts, names.drop_last());
        let name = names.last();
        if shows_service(before, name) {
            before
        } else {
            before.push(service_tunnel(c, name, service_port(c, before, name) as u16))
        }
    }
}

/// There is a port for every service that would be added.
pub open spec fn services_fit(
    c: Config,
    ts: Seq<tunnel::TunnelView>,
    names: Seq<Seq<char>>,
) -> bool
    decreases names.len(),
{
    names.len() == 0 || {
        let before = with_services(c, ts, names.drop_last());
        services_fit(c, ts, names.drop_last()) && (shows_service(before, names.last())
            || service_port(c, before, names.last()) <= 65535)
    }
}

/// The services shown are those of `ts` and the added ones.
spec fn shows_besides(
    shown: Seq<tunnel::TunnelView>,
    ts: Seq<tunnel::TunnelView>,
    added: Seq<Seq<char>>,
) -> bool {
    forall|n: Seq<char>| #[trigger]
        shows_service(shown, n) <==> shows_service(ts, n) || added.contains(n)
}

proof fn lemma_fit_prefix(c: Config, ts: Seq<tunnel::TunnelView>, names: Seq<Seq<char>>, n: int)
    requires
        0 <= n <= names.len(),
        services_fit(c, ts, names),
    ensures
        services_fit(c, ts, names.take(n)),
    decreases names.len(),
{
    if n == names.len() {
        assert(names.take(n) =~= names);
    } else {
        assert(names.drop_last().take(n) =~= names.take(n));
        lemma_fit_prefix(c, ts, names.drop_last(), n);
    }
}

proof fn lemma_ports_of(ports: Seq<u16>, ts: Seq<tunnel::TunnelView>)
    requires
        ports.len() == ts.len(),
        forall|i: int| 0 <= i < ts.len() ==> #[trigger] ports[i] == ts[i].local_port,
    ensures
        ports::port_set(ports) == local_ports(ts),
{
    assert forall|p: int| local_ports(ts).contains(p) implies ports::port_set(ports).contains(p) by {
        let i = choose|i: int| 0 <= i < ts.len() && (#[trigger] ts[i]).local_port == p;
        assert(ports[i] == p);
    }
    assert(ports::port_set(ports) =~= local_ports(ts));
}

proof fn lemma_local_ports_push(ts: Seq<tunnel::TunnelView>, t: tunnel::TunnelView)
    ensures
        local_ports(ts.push(t)) == local_ports(ts).insert(t.local_port as int),
{
    assert forall|p: int| local_ports(ts).insert(t.local_port as int).contains(
        p,
    ) implies local_ports(ts.push(t)).contains(p) by {
        if p == t.local_port {
            assert(ts.push(t)[ts.len() as int].local_port == p);
        } else {
            let i = choose|i: int| 0 <= i < ts.len() && (#[trigger] ts[i]).local_port == p;
            assert(ts.push(t)[i].local_port == p);
        }
    }
    assert(local_ports(ts.push(t)) =~= local_ports(ts).insert(t.local_port as int));
}

proof fn lemma_shows_push(ts: Seq<tunnel::TunnelView>, t: tunnel::TunnelView, name: Seq<char>)
    ensures
        shows_service(ts.push(t), name) <==> shows_service(ts, name) || (t.group
            == Group::Services && t.name == name),
{
    if shows_service(ts, name) {
        let i = choose|i: int|
            0 <= i < ts.len() && (#[trigger] ts[i]).group == Group::Services && ts[i].name == name;
        assert(ts.push(t)[i] == ts[i]);
    }
    if t.group == Group::Services && t.name == name {
        assert(ts.push(t)[ts.len() as int] == t);
    }
}

impl App {
    /// The local ports of the tunnels.
    fn used_ports(&self) -> (r: Vec<u16>)
        ensures
            ports::port_set(r@) == local_ports(self.tunnel_list()),
    {
        let mut r: Vec<u16> = Vec::new();
        for i in 0..self.tunnels.len()
            invariant
                r@.len() == i,
                forall|j: int| 0 <= j < i ==> #[trigger] r@[j] == self.tunnel_list()[j].local_port,
        {
            r.push(self.tunnels[i].local_port);
        }
        proof {
            lemma_ports_of(r@, self.tunnel_list());
        }
        r
    }

    /// The first local port from `base` upward that no tunnel has, if there is one.
    pub fn find_local_port(&self, base: u16) -> (r: Option<u16>)
        ensures
            match r {
                Some(p) => p == ports::first_free(local_ports(self.tunnel_list()), base as int),
                None => ports::first_free(local_ports(self.tunnel_list()), base as int) > 65535,
            },
    {
        ports::free_port(&self.used_ports(), base)
    }

    /// The first local port from `base` upward that no tunnel has.
    pub fn next_local_port(&self, base: u16) -> (r: u16)
        requires
            ports::first_free(local_ports(self.tunnel_list()), base as int) <= 65535,
        ensures
            r == ports::first_free(local_ports(self.tunnel_list()), base as int),
    {
        match self.find_local_port(base) {
            Some(p) => p,
            None => base,
        }
    }

    /// Some service tunnel goes by the name.
    fn has_service(&self, name: &str) -> (r: bool)
        ensures
            r == shows_service(self.tunnel_list(), name@),
    {
        for i in 0..self.tunnels.len()
            invariant
                forall|j: int|
                    0 <= j < i ==> !((#[trigger] self.tunnel_list()[j]).group == Group::Services
                        && self.tunnel_list()[j].name == name@),
        {
            assert(self.tunnel_list()[i as int] == self.tunnels@[i as int]@);
            if self.tunnels[i].group == Group::Services && text::str_eq(
                self.tunnels[i].name.as_str(),
                name,
            ) {
                return true;
            }
        }
        false
    }

    /// Whether there is a port for every service of the list that is not shown yet.
    pub fn has_room_for(&self, names: &Vec<String>) -> (r: bool)
        ensures
            r == services_fit(self.config, self.tunnel_list(), text::views(names@)),
    {
        let ghost c = self.config;
        let ghost ts = self.tunnel_list();
        let ghost all = text::views(names@);
        let mut ports = self.used_ports();
        let mut added: Vec<String> = Vec::new();
        assert(all.take(0) =~= Seq::empty());
        for i in 0..names.len()
            invariant
                c == self.config,
                ts == self.tunnel_list(),
                all == text::views(names@),
                ports::port_set(ports@) == local_ports(with_services(c, ts, all.take(i as int))),
                services_fit(c, ts, all.take(i as int)),
                shows_besides(
                    with_services(c, ts, all.take(i as int)),
                    ts,
                    text::views(added@),
                ),
        {
            let ghost before = with_services(c, ts, all.take(i as int));
            let ghost name = names@[i as int]@;
            assert(all.take(i + 1).drop_last() =~= all.take(i as int));
            assert(all.take(i + 1).last() == name);
            let shown: bool = self.has_service(names[i].as_str()) || listed(
                &added,
                names[i].as_str(),
            );
            assert(shown == shows_service(before, name));
            if !shown {
                let port: u16 = match self.config.services.ports.get(names[i].as_str()) {
                    Some(p) => *p,
                    None => match ports::free_port(&ports, self.config.services.auto_port_base) {
                        Some(p) => p,
                        None => {
                            assert(!services_fit(c, ts, all.take(i + 1)));
                            proof {
                                if services_fit(c, ts, all) {
                                    lemma_fit_prefix(c, ts, all, i + 1);
                                }
                            }
                            return false;
                        },
                    },
                };
                let ghost t = service_tunnel(c, name, port);
                let ghost was_added = text::views(added@);
                let ghost was_ports = ports@;
                ports.push(port);
                added.push(names[i].clone());
                proof {
                    ports::lemma_port_set_push(was_ports, port);
                    lemma_local_ports_push(before, t);
                    assert(with_services(c, ts, all.take(i + 1)) == before.push(t));
                    assert(text::views(added@) =~= was_added.push(name));
                    assert forall|n: Seq<char>| #[trigger]
                        shows_service(before.push(t), n) <==> shows_service(ts, n)
                            || was_added.push(name).contains(n) by {
                        lemma_shows_push(before, t, n);
                        lemma_push_contains(was_added, name, n);
                        assert(shows_service(before, n) <==> shows_service(ts, n)
                            || was_added.contains(n));
                    }
                }
            }
        }
        assert(all.take(all.len() as int) =~= all);
        true
    }

    /// Adds a tunnel for every service of the list that is not shown yet;
    /// returns how many were added.
    fn add_services(&mut self, names: &Vec<String>) -> (r: usize)
        requires
            services_fit(old(self).config, old(self).tunnel_list(), text::views(names@)),
        ensures
            *final(self) == (App { tunnels: final(self).tunnels, ..*old(self) }),
            final(self).tunnel_list() == with_services(
                old(self).config,
                old(self).tunnel_list(),
                text::views(names@),
            ),
            r == final(self).tunnel_list().len() - old(self).tunnel_list().len(),
    {
        let ghost c = self.config;
        let ghost ts = self.tunnel_list();
        let ghost all = text::views(names@);
        let n: usize = self.tunnels.len();
        assert(all.take(0) =~= Seq::empty());
        for i in 0..names.len()
            invariant
                c == old(self).config,
                ts == old(self).tunnel_list(),
                all == text::views(names@),
                services_fit(c, ts, all),
                n == ts.len(),
                *self == (App { tunnels: self.tunnels, ..*old(self) }),
                self.tunnel_list() == with_services(c, ts, all.take(i as int)),
                self.tunnels@.len() >= n,
        {
            let ghost before = self.tunnel_list();
            assert(all.take(i + 1).drop_last() =~= all.take(i as int));
            assert(all.take(i + 1).last() == names@[i as int]@);
            proof {
                lemma_fit_prefix(c, ts, all, i + 1);
            }
            if !self.has_service(names[i].as_str()) {
                let port: u16 = match self.config.services.ports.get(names[i].as_str()) {
                    Some(p) => *p,
                    None => self.next_local_port(self.config.services.auto_port_base),
                };
                let t = new_service(&self.config, names[i].as_str(), port);
                self.tunnels.push(t);
                assert(self.tunnel_list() =~= before.push(t@));
            }
        }
        assert(all.take(all.len() as int) =~= all);
        self.tunnels.len() - n
    }
}

fn listed(names: &Vec<String>, name: &str) -> (r: bool)
    ensures
        r == text::views(names@).contains(name@),
{
    for i in 0..names.len()
        invariant
            forall|j: int| 0 <= j < i ==> #[trigger] text::views(names@)[j] != name@,
    {
        if text::str_eq(names[i].as_str(), name) {
            assert(text::views(names@)[i as int] == name@);
            return true;
        }
    }
    false
}

proof fn lemma_push_contains(s: Seq<Seq<char>>, x: Seq<char>, y: Seq<char>)
    ensures
        s.push(x).contains(y) <==> s.contains(y) || x == y,
{
    if s.contains(y) {
        let k = s.index_of(y);
        assert(s.push(x)[k] == y);
    }
    assert(s.push(x)[s.len() as int] == x);
}

/// The service tunnels have different names.
pub open spec fn distinct_services(ts: Seq<tunnel::TunnelView>) -> bool {
    forall|i: int, j: int|
        0 <= i < j < ts.len() && (#[trigger] ts[i]).group == Group::Services && (
        #[trigger] ts[j]).group == Group::Services ==> ts[i].name != ts[j].name
}

/// Adding services keeps what is there, shows every one of them, and shows none
/// twice.
pub proof fn law_services_are_added_once(
    c: Config,
    ts: Seq<tunnel::TunnelView>,
    names: Seq<Seq<char>>,
)
    ensures
        with_services(c, ts, names).len() >= ts.len(),
        with_services(c, ts, names).take(ts.len() as int) == ts,
        forall|i: int|
            0 <= i < names.len() ==> shows_service(
                with_services(c, ts, names),
                #[trigger] names[i],
            ),
        distinct_services(ts) ==> distinct_services(with_services(c, ts, names)),
    decreases names.len(),
{
    if names.len() == 0 {
        assert(ts.take(ts.len() as int) =~= ts);
    } else {
        law_services_are_added_once(c, ts, names.drop_last());
        let before = with_services(c, ts, names.drop_last());
        let after = with_services(c, ts, names);
        let t = service_tunnel(c, names.last(), service_port(c, before, names.last()) as u16);
        assert forall|i: int| 0 <= i < names.len() implies shows_service(
            after,
            #[trigger] names[i],
        ) by {
            if i < names.len() - 1 {
                assert(names.drop_last()[i] == names[i]);
                assert(shows_service(before, names[i]));
            }
            lemma_shows_push(before, t, names[i]);
        }
        if !shows_service(before, names.last()) {
            assert(after.take(ts.len() as int) =~= before.take(ts.len() as int));
            if distinct_services(ts) {
                assert forall|i: int, j: int|
                    0 <= i < j < after.len() && (#[trigger] after[i]).group == Group::Services && (
                    #[trigger] after[j]).group == Group::Services implies after[i].name
                    != after[j].name by {
                    assert(after[i] == before[i]);
                    if j < before.len() {
                        assert(after[j] == before[j]);
                    }
                }
            }
        }
    }
}

/// Adding the same services again changes nothing.
pub proof fn law_refreshing_twice_adds_nothing(
    c: Config,
    ts: Seq<tunnel::TunnelView>,
    names: Seq<Seq<char>>,
)
    ensures
        with_services(c, with_services(c, ts, names), names) == with_services(c, ts, names),
{
    law_services_are_added_once(c, ts, names);
    lemma_nothing_to_add(c, with_services(c, ts, names), names);
}

proof fn lemma_nothing_to_add(c: Config, ts: Seq<tunnel::TunnelView>, names: Seq<Seq<char>>)
    requires
        forall|i: int| 0 <= i < names.len() ==> shows_service(ts, #[trigger] names[i]),
    ensures
        with_services(c, ts, names) == ts,
    decreases names.len(),
{
    if names.len() > 0 {
        assert forall|i: int| 0 <= i < names.drop_last().len() implies shows_service(
            ts,
            #[trigger] names.drop_last()[i],
        ) by {
            assert(names.drop_last()[i] == names[i]);
        }
        lemma_nothing_to_add(c, ts, names.drop_last());
        assert(shows_service(ts, names[names.len() - 1]));
    }
}

/// The configured services are shown from the start and stay shown, whatever is
/// discovered or not.
pub proof fn law_fallback_stays_shown(
    c: Config,
    home: Seq<char>,
    names: Seq<Seq<char>>,
    i: int,
)
    requires
        0 <= i < c.services.fallback@.len(),
    ensures
        shows_service(
            with_services(c, service_seeds(c) + temporal_seeds(c, home), names),
            c.services.fallback@[i]@,
        ),
{
    let seeds = service_seeds(c) + temporal_seeds(c, home);
    let after = with_services(c, seeds, names);
    law_services_are_added_once(c, seeds, names);
    assert(after.take(seeds.len() as int)[i] == after[i]);
    assert(seeds[i] == service_seeds(c)[i]);
    assert(after[i].group == Group::Services && after[i].name == c.services.fallback@[i]@);
}

/// A service that is added without a pinned port gets a local port from the base
/// upward that no tunnel had.
pub proof fn law_added_services_get_free_ports(
    c: Config,
    ts: Seq<tunnel::TunnelView>,
    names: Seq<Seq<char>>,
    i: int,
)
    requires
        services_fit(c, ts, names),
        ts.len() <= i < with_services(c, ts, names).len(),
        !c.services.ports@.contains_key(with_services(c, ts, names)[i].name),
    ensures
        with_services(c, ts, names)[i].local_port >= c.services.auto_port_base,
        forall|j: int|
            0 <= j < i ==> (#[trigger] with_services(c, ts, names)[j]).local_port
                != with_services(c, ts, names)[i].local_port,
    decreases names.len(),
{
    if names.len() > 0 {
        let before = with_services(c, ts, names.drop_last());
        let after = with_services(c, ts, names);
        law_services_are_added_once(c, ts, names.drop_last());
        if i < before.len() {
            assert(after[i] == before[i]);
            law_added_services_get_free_ports(c, ts, names.drop_last(), i);
            assert forall|j: int| 0 <= j < i implies (#[trigger] after[j]).local_port
                != after[i].local_port by {
                assert(after[j] == before[j]);
            }
        } else {
            ports::law_first_free_is_least(local_ports(before), c.services.auto_port_base as int);
            assert forall|j: int| 0 <= j < i implies (#[trigger] after[j]).local_port
                != after[i].local_port by {
                assert(after[j] == before[j]);
                assert(local_ports(before).contains(before[j].local_port as int));
            }
        }
    }
}

// ---- what the dashboard says -----------------------------------------------

/// Said while databases are being looked up.
pub open spec fn discovering(profile: Seq<char>) -> Seq<char> {
    "discovering RDS in "@ + profile + "…"@
}

/// What announcing the lookup of databases does.
pub open spec fn discovery_announced(pre: App, post: App, now: u64) -> bool {
    &&& post == (App { toast: post.toast, ..pre })
    &&& toasted(post.toast, discovering(pre.active_name()), false, now)
}

/// Said where no database was found.
pub open spec fn no_instances(profile: Seq<char>) -> Seq<char> {
    "no RDS instances visible to "@ + profile
}

/// Said where databases could not be looked up.
pub open spec fn discovery_failed(why: Seq<char>) -> Seq<char> {
    "RDS discovery failed: "@ + why
}

/// Said where no bastion is configured for the session of the picked database.
pub open spec fn no_bastion(session: Option<Seq<char>>) -> Seq<char> {
    "no RDS bastion configured for session '"@ + tunnel::or_else(session, "?"@)
        + "' — add it under [rds.bastions]"@
}

/// The first profile that bears the name; past the last where none does.
pub open spec fn first_named(ps: Seq<profiles::ProfileView>, name: Seq<char>) -> int
    decreases ps.len(),
{
    if ps.len() == 0 || ps[0].name == name {
        0
    } else {
        1 + first_named(ps.drop_first(), name)
    }
}

/// The tunnel to a database.
pub open spec fn database_tunnel(
    c: Config,
    inst: rds::RdsInstanceView,
    profile: Seq<char>,
    bastion: Seq<char>,
    port: u16,
) -> tunnel::TunnelView {
    tunnel::TunnelView {
        name: inst.identifier + " ("@ + profile + ")"@,
        group: Group::Databases,
        kind: tunnel::KindView::SsmRds { endpoint: inst.endpoint, remote_port: inst.port },
        profile: Some(profile),
        region: c.region@,
        bastion: Some(bastion),
        local_port: port,
        status: tunnel::StatusView::Stopped,
        log: Seq::empty(),
        child: false,
        pgid: None,
    }
}

/// The picker was opened on what was found for `profile`, or a toast says why
/// there is nothing to pick.
pub open spec fn instances_shown(
    pre: App,
    post: App,
    profile: String,
    found: Result<Vec<RdsInstance>, String>,
    now: u64,
) -> bool {
    match found {
        Ok(items) => if items@.len() > 0 {
            post.toast is None && post.picker == Some(RdsPicker { items, selected: 0, profile })
        } else {
            post.picker == pre.picker && toasted(post.toast, no_instances(profile@), true, now)
        },
        Err(e) => post.picker == pre.picker && toasted(
            post.toast,
            discovery_failed(e@),
            true,
            now,
        ),
    }
}

impl App {
    /// Announces that the databases visible to the active profile are being
    /// looked up; returns the profile and the region to look in.
    pub fn open_rds_picker(&mut self, now: u64) -> (r: (String, String))
        ensures
            old(self).wf() ==> final(self).wf(),
            discovery_announced(*old(self), *final(self), now),
            r.0@ == old(self).active_name(),
            r.1@ == old(self).config.region@,
    {
        let profile = self.active_profile_name().to_owned();
        let region = self.config.region.clone();
        let mut message = "discovering RDS in ".to_string();
        message.append(profile.as_str());
        message.append("…");
        self.set_toast(message, false, now);
        (profile, region)
    }

    /// Opens the picker on the databases that were found for `profile`, or says
    /// why there is nothing to pick.
    pub fn show_rds_instances(
        &mut self,
        profile: String,
        found: Result<Vec<RdsInstance>, String>,
        now: u64,
    )
        ensures
            *final(self) == (App {
                picker: final(self).picker,
                toast: final(self).toast,
                ..*old(self)
            }),
            old(self).wf() ==> final(self).wf(),
            final(self).active_name() == old(self).active_name(),
            instances_shown(*old(self), *final(self), profile, found, now),
    {
        match found {
            Ok(items) => {
                if items.len() > 0 {
                    self.picker = Some(RdsPicker { items, selected: 0, profile });
                    self.toast = None;
                } else {
                    let mut message = "no RDS instances visible to ".to_string();
                    message.append(profile.as_str());
                    self.set_toast(message, true, now);
                }
            },
            Err(e) => {
                let mut message = "RDS discovery failed: ".to_string();
                message.append(e.as_str());
                self.set_toast(message, true, now);
            },
        }
    }

    /// The database that the picker stands on.
    pub open spec fn picked(&self) -> Option<(rds::RdsInstanceView, Seq<char>)> {
        match self.picker {
            Some(p) => if p.selected < p.items@.len() {
                Some((p.items@[p.selected as int]@, p.profile@))
            } else {
                None
            },
            None => None,
        }
    }

    /// The profile that a name stands for: the active one where it bears the
    /// name, else the first that does; past the last where none does.
    pub open spec fn profile_named(&self, name: Seq<char>) -> int {
        if self.active_profile < self.profile_list().len()
            && self.profile_list()[self.active_profile as int].name == name {
            self.active_profile as int
        } else {
            first_named(self.profile_list(), name)
        }
    }

    /// The SSO session of the profile that a name stands for.
    pub open spec fn session_named(&self, name: Seq<char>) -> Option<Seq<char>> {
        self.session_of(self.profile_named(name))
    }

    /// The bastion that reaches the databases of a profile's account.
    pub open spec fn database_bastion(&self, profile: Seq<char>) -> Option<Seq<char>> {
        match self.session_named(profile) {
            Some(s) => if self.config.rds.bastions@.contains_key(s) {
                Some(self.config.rds.bastions@[s]@)
            } else {
                None
            },
            None => None,
        }
    }

    /// The local port that the next database gets; beyond the last port where
    /// none is free.
    pub open spec fn database_port(&self) -> int {
        ports::first_free(local_ports(self.tunnel_list()), self.config.rds.local_port_base as int)
    }

    /// Whether the pick can be confirmed: no tunnel will be added, or there is a
    /// local port for it.
    pub open spec fn pick_fits(&self) -> bool {
        match self.picked() {
            Some((_, profile)) => self.database_bastion(profile) is Some ==> self.database_port()
                <= 65535,
            None => true,
        }
    }

    /// The session of the profile that a name stands for.
    fn session_for(&self, name: &str) -> (r: Option<String>)
        ensures
            text::opt_view(r) == self.session_named(name@),
    {
        let ghost ps = self.profile_list();
        if self.active_profile < self.aws.profiles.len() && text::str_eq(
            self.aws.profiles[self.active_profile].name.as_str(),
            name,
        ) {
            return self.session_at(self.active_profile);
        }
        assert(ps.skip(0) =~= ps);
        for i in 0..self.aws.profiles.len()
            invariant
                ps == self.profile_list(),
                self.profile_named(name@) == first_named(ps, name@),
                first_named(ps, name@) == i + first_named(ps.skip(i as int), name@),
        {
            assert(ps.skip(i as int).drop_first() =~= ps.skip(i + 1));
            assert(ps.skip(i as int)[0] == self.aws.profiles@[i as int]@);
            if text::str_eq(self.aws.profiles[i].name.as_str(), name) {
                return self.session_at(i);
            }
        }
        None
    }

    fn bastion_for_databases(&self, profile: &str) -> (r: Option<String>)
        ensures
            text::opt_view(r) == self.database_bastion(profile@),
    {
        match self.session_for(profile) {
            Some(s) => match self.config.rds.bastions.get(s.as_str()) {
                Some(b) => Some(b.clone()),
                None => None,
            },
            None => None,
        }
    }

    /// Whether the pick can be confirmed: no tunnel will be added, or there is a
    /// local port for it.
    pub fn can_confirm_pick(&self) -> (r: bool)
        ensures
            r == self.pick_fits(),
    {
        let adds: bool = match &self.picker {
            Some(p) => p.selected < p.items.len() && self.bastion_for_databases(
                p.profile.as_str(),
            ).is_some(),
            None => false,
        };
        !adds || self.find_local_port(self.config.rds.local_port_base).is_some()
    }

    /// Closes the picker and adds a tunnel to the database it stood on, selected
    /// and focused; returns the index of the tunnel to start.
    pub fn confirm_rds_pick(&mut self, now: u64) -> (r: Option<usize>)
        requires
            old(self).pick_fits(),
        ensures
            old(self).wf() ==> final(self).wf(),
            confirmed(*old(self), *final(self), r, now),
    {
        let mut picker: Option<RdsPicker> = None;
        std::mem::swap(&mut picker, &mut self.picker);
        match picker {
            None => None,
            Some(picker) => {
                if picker.selected >= picker.items.len() {
                    return None;
                }
                assert(self.profile_list() == old(self).profile_list());
                match self.bastion_for_databases(picker.profile.as_str()) {
                    None => {
                        let session = self.session_for(picker.profile.as_str());
                        let mut message = "no RDS bastion configured for session '".to_string();
                        match &session {
                            Some(s) => {
                                message.append(s.as_str());
                            },
                            None => {
                                message.append("?");
                            },
                        }
                        message.append("' — add it under [rds.bastions]");
                        self.set_toast(message, true, now);
                        None
                    },
                    Some(bastion) => {
                        let ghost before = self.tunnel_list();
                        let port: u16 = self.next_local_port(self.config.rds.local_port_base);
                        let inst = &picker.items[picker.selected];
                        let mut name = inst.identifier.clone();
                        name.append(" (");
                        name.append(picker.profile.as_str());
                        name.append(")");
                        let t = Tunnel::new(
                            name,
                            Group::Databases,
                            TunnelKind::SsmRds {
                                endpoint: inst.endpoint.clone(),
                                remote_port: inst.port,
                            },
                            Some(picker.profile.clone()),
                            self.config.region.clone(),
                            Some(bastion),
                            port,
                        );
                        let last: usize = self.tunnels.len();
                        self.tunnels.push(t);
                        assert(self.tunnel_list() =~= before.push(t@));
                        let pos: usize = self.position_of(last);
                        self.tunnel_sel = pos;
                        self.focus = Focus::Tunnels;
                        Some(last)
                    },
                }
            },
        }
    }

    /// Where a tunnel stands on the screen.
    fn position_of(&self, index: usize) -> (r: usize)
        requires
            index < self.tunnels@.len(),
        ensures
            r < self.tunnels@.len(),
            display_order(self.tunnel_list())[r as int] == index,
    {
        let order = self.ordered();
        proof {
            assert(self.tunnels@.len() == self.tunnels.len());
            law_display_order(self.tunnel_list());
        }
        let mut r: usize = 0;
        while order[r] != index
            invariant
                order@ == display_order(self.tunnel_list()),
                order@.len() == self.tunnels@.len(),
                r < order@.len(),
                order@.contains(index),
                forall|k: int| 0 <= k < r ==> order@[k] != index,
            decreases order@.len() - r,
        {
            assert(r + 1 < order@.len()) by {
                let k = order@.index_of(index);
                assert(k > r);
            }
            assert(order@.len() == order.len());
            r = r + 1;
        }
        r
    }
}

/// What confirming a pick does.
pub open spec fn confirmed(pre: App, post: App, started: Option<usize>, now: u64) -> bool {
    match pre.picked() {
        None => started is None && post == (App { picker: None, ..pre }),
        Some((inst, profile)) => match pre.database_bastion(profile) {
            None => {
                &&& started is None
                &&& post == (App { picker: None, toast: post.toast, ..pre })
                &&& toasted(
                    post.toast,
                    no_bastion(pre.session_named(profile)),
                    true,
                    now,
                )
            },
            Some(bastion) => {
                &&& started == Some(pre.tunnels@.len() as usize)
                &&& post == (App {
                    picker: None,
                    tunnels: post.tunnels,
                    tunnel_sel: post.tunnel_sel,
                    focus: Focus::Tunnels,
                    ..pre
                })
                &&& post.tunnel_list() == pre.tunnel_list().push(
                    database_tunnel(
                        pre.config,
                        inst,
                        profile,
                        bastion,
                        pre.database_port() as u16,
                    ),
                )
                &&& post.selection() == started
            },
        },
    }
}

/// The name of a profile stands for a profile of that name, so that a database
/// that was found with it is reached through the bastion of its own session.
pub proof fn law_names_stand_for_their_profiles(app: App, i: int)
    requires
        0 <= i < app.profile_list().len(),
    ensures
        ({
            let k = app.profile_named(app.profile_list()[i].name);
            0 <= k < app.profile_list().len() && app.profile_list()[k].name
                == app.profile_list()[i].name
        }),
        i == app.active_profile ==> app.profile_named(app.profile_list()[i].name) == i,
{
    lemma_first_named(app.profile_list(), i);
}

proof fn lemma_first_named(ps: Seq<profiles::ProfileView>, i: int)
    requires
        0 <= i < ps.len(),
    ensures
        0 <= first_named(ps, ps[i].name) <= i,
        ps[first_named(ps, ps[i].name)].name == ps[i].name,
    decreases i,
{
    if ps[0].name != ps[i].name {
        assert(ps.drop_first()[i - 1] == ps[i]);
        lemma_first_named(ps.drop_first(), i - 1);
    }
}

/// A database that was picked gets a local port from the base upward that no
/// tunnel has.
pub proof fn law_databases_get_free_ports(app: App, i: int)
    requires
        app.database_port() <= 65535,
        0 <= i < app.tunnel_list().len(),
    ensures
        app.config.rds.local_port_base <= app.database_port(),
        app.tunnel_list()[i].local_port != app.database_port(),
{
    ports::law_first_free_is_least(
        local_ports(app.tunnel_list()),
        app.config.rds.local_port_base as int,
    );
    assert(local_ports(app.tunnel_list()).contains(app.tunnel_list()[i].local_port as int));
}

// ---- sessions --------------------------------------------------------------

/// Said where a login was started.
pub open spec fn logging_in(session: Seq<char>) -> Seq<char> {
    "logging in to '"@ + session + "' — complete it in your browser"@
}

/// What asking for a login does, and which session is to be logged in to.
pub open spec fn login_triggered(pre: App, post: App, session: Option<Seq<char>>, now: u64) -> bool {
    &&& post == (App { toast: post.toast, ..pre })
    &&& match pre.login_session() {
        None => session is None && toasted(
            post.toast,
            "selected profile has no sso-session"@,
            true,
            now,
        ),
        Some(s) => if pre.login_children@.contains_key(s) {
            session is None && toasted(post.toast, already_logging_in(s), false, now)
        } else {
            session == Some(s) && post.toast == pre.toast
        },
    }
}

/// Said where a login is still going on.
pub open spec fn already_logging_in(session: Seq<char>) -> Seq<char> {
    "login for '"@ + session + "' already in progress"@
}

/// Said where a login could not be started.
pub open spec fn login_failed(why: Seq<char>) -> Seq<char> {
    "failed to start aws sso login: "@ + why
}

/// Said where logins have ended.
pub open spec fn login_complete(sessions: Seq<Seq<char>>) -> Seq<char> {
    "login complete: "@ + text::joined(sessions, ", "@)
}

/// Said after a refresh that added so many services.
pub open spec fn refreshed(added: nat) -> Seq<char> {
    if added > 0 {
        "refreshed — discovered "@ + text::decimal_digits(added) + " new service(s)"@
    } else {
        "refreshed"@
    }
}

/// Said after a refresh that could not look up the services.
pub open spec fn half_refreshed(why: Seq<char>) -> Seq<char> {
    "refreshed SSO; Cloud Map discovery failed: "@ + why
}

/// The tunnels after each was maintained by its own report.
pub open spec fn all_ticked(ts: Seq<tunnel::TunnelView>, reports: Seq<TickReport>) -> Seq<
    tunnel::TunnelView,
> {
    Seq::new(ts.len(), |i: int| ts[i].ticked(reports[i]@))
}

/// The keys whose flag is set, in order.
pub open spec fn flagged(keys: Seq<Seq<char>>, flags: Seq<bool>) -> Seq<Seq<char>>
    decreases keys.len(),
{
    if keys.len() == 0 {
        Seq::empty()
    } else {
        let before = flagged(keys.drop_last(), flags);
        if flags[keys.len() - 1] {
            before.push(keys.last())
        } else {
            before
        }
    }
}

/// What remains of a toast at a time: it goes once it has stood for longer than
/// its time to live.
pub open spec fn faded(t: Option<Toast>, now: u64) -> Option<Toast> {
    match t {
        Some(t) => if now - t.at > TOAST_TTL {
            None
        } else {
            Some(t)
        },
        None => None,
    }
}

/// The login to `session` goes on, or a toast says why it could not be started.
pub open spec fn login_noted(
    pre: App,
    post: App,
    session: Seq<char>,
    outcome: Result<(), String>,
    now: u64,
) -> bool {
    match outcome {
        Ok(_) => post.login_children@ == pre.login_children@.insert(session, ()) && toasted(
            post.toast,
            logging_in(session),
            false,
            now,
        ),
        Err(e) => post.login_children == pre.login_children && toasted(
            post.toast,
            login_failed(e@),
            true,
            now,
        ),
    }
}

/// The services that were found are shown, or a toast says why none were.
pub open spec fn services_refreshed(
    pre: App,
    post: App,
    names: Result<Vec<String>, String>,
    now: u64,
) -> bool {
    match names {
        Ok(found) => {
            &&& post.tunnel_list() == with_services(
                pre.config,
                pre.tunnel_list(),
                text::views(found@),
            )
            &&& toasted(
                post.toast,
                refreshed((post.tunnel_list().len() - pre.tunnel_list().len()) as nat),
                false,
                now,
            )
        },
        Err(e) => post.tunnels == pre.tunnels && toasted(
            post.toast,
            half_refreshed(e@),
            true,
            now,
        ),
    }
}

/// The logins that have ended are no longer going on. Where there were any, the
/// sessions' status was read anew and a toast names them; where there were none,
/// the toast goes when its time is over.
pub open spec fn logins_ended(
    pre: App,
    post: App,
    done: Seq<bool>,
    files: Seq<Option<Seq<char>>>,
    unix_now: UnixTime,
    now: u64,
) -> bool {
    let ended = flagged(pre.login_children.key_seq(), done);
    &&& post.login_children@ == pre.login_children@.remove_keys(ended.to_set())
    &&& ended.len() == 0 ==> post.session_status == pre.session_status && post.toast == faded(
        pre.toast,
        now,
    )
    &&& ended.len() > 0 ==> rescanned(
        pre.aws.sessions.key_seq(),
        files,
        unix_now,
        post.session_status@,
    ) && toasted(post.toast, login_complete(ended), false, now)
}

impl App {
    /// Whose session a login is for: the focused profile's (Profiles panel) or
    /// the active profile's otherwise.
    pub open spec fn login_session(&self) -> Option<Seq<char>> {
        self.session_of(
            if self.focus == Focus::Profiles {
                self.profile_sel as int
            } else {
                self.active_profile as int
            },
        )
    }

    /// Asks for an `aws sso login` for the focused profile's session (Profiles
    /// panel) or the active profile's session otherwise; returns the session to
    /// log in to.
    pub fn trigger_login(&mut self, now: u64) -> (r: Option<String>)
        ensures
            old(self).wf() ==> final(self).wf(),
            login_triggered(*old(self), *final(self), text::opt_view(r), now),
    {
        let idx: usize = if self.focus == Focus::Profiles {
            self.profile_sel
        } else {
            self.active_profile
        };
        match self.session_at(idx) {
            None => {
                self.set_toast("selected profile has no sso-session".to_string(), true, now);
                None
            },
            Some(s) => {
                if self.login_children.contains_key(s.as_str()) {
                    let mut message = "login for '".to_string();
                    message.append(s.as_str());
                    message.append("' already in progress");
                    self.set_toast(message, false, now);
                    None
                } else {
                    Some(s)
                }
            },
        }
    }

    /// Notes whether the login to `session` was started.
    pub fn login_started(&mut self, session: String, outcome: Result<(), String>, now: u64)
        ensures
            *final(self) == (App {
                login_children: final(self).login_children,
                toast: final(self).toast,
                ..*old(self)
            }),
            old(self).wf() ==> final(self).wf(),
            login_noted(*old(self), *final(self), session@, outcome, now),
    {
        match outcome {
            Ok(_) => {
                let mut message = "logging in to '".to_string();
                message.append(session.as_str());
                message.append("' — complete it in your browser");
                self.login_children.insert(session, ());
                self.set_toast(message, false, now);
            },
            Err(e) => {
                let mut message = "failed to start aws sso login: ".to_string();
                message.append(e.as_str());
                self.set_toast(message, true, now);
            },
        }
    }

    /// Reads the sessions' status anew and adds the services that were found and
    /// are not shown yet.
    pub fn refresh(
        &mut self,
        files: &Vec<Option<String>>,
        unix_now: UnixTime,
        names: &Result<Vec<String>, String>,
        now: u64,
    )
        requires
            files@.len() == old(self).aws.sessions.key_seq().len(),
            unix_now.valid(),
            names matches Ok(found) ==> services_fit(
                old(self).config,
                old(self).tunnel_list(),
                text::views(found@),
            ),
        ensures
            *final(self) == (App {
                session_status: final(self).session_status,
                tunnels: final(self).tunnels,
                toast: final(self).toast,
                ..*old(self)
            }),
            old(self).wf() ==> final(self).wf(),
            rescanned(
                old(self).aws.sessions.key_seq(),
                token_views(files@),
                unix_now,
                final(self).session_status@,
            ),
            services_refreshed(*old(self), *final(self), *names, now),
    {
        self.rescan_sso(files, unix_now);
        match names {
            Ok(found) => {
                let ghost before = self.tunnel_list();
                proof {
                    law_services_are_added_once(self.config, before, text::views(found@));
                }
                let added: usize = self.add_services(found);
                assert(self.tunnels@.len() == self.tunnel_list().len());
                assert(old(self).tunnels@.len() == before.len());
                if added > 0 {
                    let mut message = "refreshed — discovered ".to_string();
                    message.append(text::decimal(added as u64).as_str());
                    message.append(" new service(s)");
                    self.set_toast(message, false, now);
                } else {
                    self.set_toast("refreshed".to_string(), false, now);
                }
            },
            Err(e) => {
                let mut message = "refreshed SSO; Cloud Map discovery failed: ".to_string();
                message.append(e.as_str());
                self.set_toast(message, true, now);
            },
        }
    }

    /// With which profile, and in which region, the services are looked up.
    pub fn services_query(&self) -> (r: (String, String))
        ensures
            r.0@ == self.config.services.profile@,
            r.1@ == self.config.region@,
    {
        (self.config.services.profile.clone(), self.config.region.clone())
    }

    fn maintain_tunnels(&mut self, reports: &Vec<TickReport>)
        requires
            reports@.len() == old(self).tunnels@.len(),
        ensures
            *final(self) == (App { tunnels: final(self).tunnels, ..*old(self) }),
            final(self).tunnel_list() == all_ticked(old(self).tunnel_list(), reports@),
    {
        let ghost ts = self.tunnel_list();
        let n: usize = self.tunnels.len();
        for i in 0..n
            invariant
                n == ts.len(),
                n == self.tunnels@.len(),
                n == reports@.len(),
                *self == (App { tunnels: self.tunnels, ..*old(self) }),
                forall|j: int|
                    0 <= j < i ==> #[trigger] self.tunnels@[j]@ == all_ticked(ts, reports@)[j],
                forall|j: int| i <= j < n ==> #[trigger] self.tunnels@[j]@ == ts[j],
        {
            assert(self.tunnels@[i as int]@ == ts[i as int]);
            self.tunnels[i].maintain(&reports[i]);
        }
        assert(self.tunnel_list() =~= all_ticked(ts, reports@));
    }

    /// Maintains every tunnel by what a look at it found (`reports`, in the order
    /// of the tunnels). Takes note of the logins that have ended (`done`, in the
    /// order of the sessions being logged in to), reads the sessions' status anew if there
    /// were any, and lets the toast go when its time is over. The token files
    /// are needed only where a login has ended.
    pub fn on_tick(
        &mut self,
        reports: &Vec<TickReport>,
        done: &Vec<bool>,
        files: &Vec<Option<String>>,
        unix_now: UnixTime,
        now: u64,
    )
        requires
            reports@.len() == old(self).tunnels@.len(),
            done@.len() == old(self).login_children.key_seq().len(),
            done@.contains(true) ==> files@.len() == old(self).aws.sessions.key_seq().len()
                && unix_now.valid(),
        ensures
            *final(self) == (App {
                tunnels: final(self).tunnels,
                session_status: final(self).session_status,
                login_children: final(self).login_children,
                toast: final(self).toast,
                ..*old(self)
            }),
            old(self).wf() ==> final(self).wf(),
            final(self).tunnel_list() == all_ticked(old(self).tunnel_list(), reports@),
            logins_ended(*old(self), *final(self), done@, token_views(files@), unix_now, now),
    {
        self.maintain_tunnels(reports);
        let ghost maintained = *self;
        assert(self.tunnels@.len() == self.tunnel_list().len());
        assert(self.tunnels@.len() == old(self).tunnels@.len());
        let names = self.login_children.keys();
        let ghost keys = self.login_children.key_seq();
        let ghost ended = flagged(keys, done@);
        let ghost children = self.login_children@;
        let mut finished: Vec<String> = Vec::new();
        assert(names@.len() == text::views(names@).len());
        assert(keys.take(0) =~= Seq::empty());
        assert(text::views(finished@) =~= Seq::empty());
        for i in 0..names.len()
            invariant
                keys == text::views(names@),
                keys.len() == names@.len(),
                done@.len() == keys.len(),
                text::views(finished@) == flagged(keys.take(i as int), done@),
        {
            let ghost before = text::views(finished@);
            assert(keys.take(i + 1).drop_last() =~= keys.take(i as int));
            assert(keys.take(i + 1).last() == names@[i as int]@);
            if done[i] {
                finished.push(names[i].clone());
                assert(text::views(finished@) =~= before.push(names@[i as int]@));
            }
        }
        assert(keys.take(keys.len() as int) =~= keys);
        assert(text::views(finished@) == ended);
        assert(finished@.len() == ended.len());
        if finished.len() > 0 {
            assert(children.remove_keys(ended.take(0).to_set()) =~= children);
            for i in 0..finished.len()
                invariant
                    text::views(finished@) == ended,
                    finished@.len() == ended.len(),
                    *self == (App { login_children: self.login_children, ..maintained }),
                    self.login_children@ == children.remove_keys(ended.take(i as int).to_set()),
            {
                self.login_children.remove(finished[i].as_str());
                assert(finished@[i as int]@ == ended[i as int]);
                proof {
                    lemma_remove_one_more(children, ended, i as int);
                }
            }
            assert(ended.take(ended.len() as int) =~= ended);
            proof {
                lemma_flagged(keys, done@);
            }
            self.rescan_sso(files, unix_now);
            let mut message = "login complete: ".to_string();
            message.append(text::join(&finished, ", ").as_str());
            self.set_toast(message, false, now);
        } else {
            assert(children.remove_keys(ended.to_set()) =~= children);
        }
        let over: bool = match &self.toast {
            Some(t) => now > t.at && now - t.at > TOAST_TTL,
            None => false,
        };
        if over {
            self.toast = None;
        }
    }
}

/// A tick takes no tunnel off the list and does not change what it is a tunnel
/// to, and what becomes of a tunnel rests on its own report alone.
pub proof fn law_ticks_keep_tunnels(
    ts: Seq<tunnel::TunnelView>,
    reports: Seq<TickReport>,
    others: Seq<TickReport>,
    i: int,
)
    requires
        0 <= i < ts.len(),
        reports[i] == others[i],
    ensures
        all_ticked(ts, reports).len() == ts.len(),
        ts[i].same_target(all_ticked(ts, reports)[i]),
        all_ticked(ts, reports)[i] == all_ticked(ts, others)[i],
{
}

proof fn lemma_flagged(keys: Seq<Seq<char>>, flags: Seq<bool>)
    requires
        keys.len() <= flags.len(),
        flagged(keys, flags).len() > 0,
    ensures
        flags.contains(true),
    decreases keys.len(),
{
    if flags[keys.len() - 1] {
        assert(flags.contains(flags[keys.len() - 1]));
    } else {
        lemma_flagged(keys.drop_last(), flags);
    }
}

proof fn lemma_remove_one_more(m: Map<Seq<char>, ()>, keys: Seq<Seq<char>>, i: int)
    requires
        0 <= i < keys.len(),
    ensures
        m.remove_keys(keys.take(i).to_set()).remove(keys[i]) == m.remove_keys(
            keys.take(i + 1).to_set(),
        ),
{
    assert(keys.take(i + 1) =~= keys.take(i).push(keys[i]));
    assert forall|k: Seq<char>| keys.take(i + 1).to_set().contains(k) <==> (keys.take(
        i,
    ).to_set().contains(k) || k == keys[i]) by {
        lemma_push_contains(keys.take(i), keys[i], k);
    }
    assert(m.remove_keys(keys.take(i).to_set()).remove(keys[i]) =~= m.remove_keys(
        keys.take(i + 1).to_set(),
    ));
}

// ---- selection movement ----------------------------------------------------

/// What making the selected profile the active one does.
pub open spec fn activated(pre: App, post: App, now: u64) -> bool {
    &&& post == (App { active_profile: pre.profile_sel, toast: post.toast, ..pre })
    &&& toasted(post.toast, "active profile → "@ + post.active_name(), false, now)
}

/// One step up, where there is one.
pub open spec fn step_up(sel: usize) -> usize {
    if sel > 0 {
        (sel - 1) as usize
    } else {
        sel
    }
}

/// One step down a list of `len` rows, where there is one.
pub open spec fn step_down(sel: usize, len: nat) -> usize {
    if sel + 1 < len {
        (sel + 1) as usize
    } else {
        sel
    }
}

impl App {
    /// The dashboard with the selection one row further up.
    pub open spec fn moved_up(self) -> App {
        match self.focus {
            Focus::Profiles => App { profile_sel: step_up(self.profile_sel), ..self },
            Focus::Tunnels => App { tunnel_sel: step_up(self.tunnel_sel), ..self },
        }
    }

    /// The dashboard with the selection one row further down.
    pub open spec fn moved_down(self) -> App {
        match self.focus {
            Focus::Profiles => App {
                profile_sel: step_down(self.profile_sel, self.aws.profiles@.len()),
                ..self
            },
            Focus::Tunnels => App {
                tunnel_sel: step_down(self.tunnel_sel, self.tunnels@.len()),
                ..self
            },
        }
    }

    /// The dashboard with the other panel focused.
    pub open spec fn refocused(self) -> App {
        App {
            focus: match self.focus {
                Focus::Profiles => Focus::Tunnels,
                Focus::Tunnels => Focus::Profiles,
            },
            ..self
        }
    }

    /// Moves the selection up.
    pub fn move_up(&mut self)
        ensures
            *final(self) == old(self).moved_up(),
            old(self).wf() ==> final(self).wf(),
    {
        match self.focus {
            Focus::Profiles => {
                if self.profile_sel > 0 {
                    self.profile_sel = self.profile_sel - 1;
                }
            },
            Focus::Tunnels => {
                if self.tunnel_sel > 0 {
                    self.tunnel_sel = self.tunnel_sel - 1;
                }
            },
        }
    }

    /// Moves the selection down.
    pub fn move_down(&mut self)
        ensures
            *final(self) == old(self).moved_down(),
            old(self).wf() ==> final(self).wf(),
    {
        match self.focus {
            Focus::Profiles => {
                let n: usize = self.aws.profiles.len();
                if n > 0 && self.profile_sel < n - 1 {
                    self.profile_sel = self.profile_sel + 1;
                }
            },
            Focus::Tunnels => {
                let n: usize = self.tunnels.len();
                if n > 0 && self.tunnel_sel < n - 1 {
                    self.tunnel_sel = self.tunnel_sel + 1;
                }
            },
        }
    }

    /// Focuses the other panel.
    pub fn toggle_focus(&mut self)
        ensures
            *final(self) == old(self).refocused(),
            old(self).wf() ==> final(self).wf(),
    {
        self.focus = match self.focus {
            Focus::Profiles => Focus::Tunnels,
            Focus::Tunnels => Focus::Profiles,
        };
    }

    /// Makes the selected profile the active one.
    pub fn set_active_to_selected(&mut self, now: u64)
        ensures
            old(self).wf() ==> final(self).wf(),
            activated(*old(self), *final(self), now),
    {
        self.active_profile = self.profile_sel;
        let mut message = "active profile → ".to_string();
        message.append(self.active_profile_name());
        self.set_toast(message, false, now);
    }

    /// Focusing the other panel twice changes nothing.
    pub proof fn law_focus_returns(self)
        ensures
            self.refocused().refocused() == self,
            self.refocused().focus != self.focus,
    {
    }

    /// A step up after a step down, and a step down after a step up, lead back,
    /// unless the first one met the end of the list.
    pub proof fn law_steps_undo_each_other(self)
        requires
            self.wf(),
        ensures
            self.moved_down() != self ==> self.moved_down().moved_up() == self,
            self.moved_up() != self ==> self.moved_up().moved_down() == self,
            self.moved_up().wf(),
            self.moved_down().wf(),
    {
        assert(self.tunnels@.len() == self.tunnels.len());
        assert(self.aws.profiles@.len() == self.aws.profiles.len());
    }

    /// While there are tunnels, one is selected.
    pub proof fn law_a_tunnel_is_selected(self)
        requires
            self.wf(),
            self.tunnels@.len() > 0,
        ensures
            self.selection() matches Some(i) && i < self.tunnels@.len(),
    {
        assert(self.tunnels@.len() == self.tunnels.len());
        law_display_order(self.tunnel_list());
    }
}

/// A toast stays for its time to live and then goes; time only makes it go.
pub proof fn law_toasts_fade(t: Toast, earlier: u64, later: u64)
    requires
        t.at <= earlier <= later,
    ensures
        faded(Some(t), earlier) is Some <==> earlier - t.at <= TOAST_TTL,
        faded(Some(t), earlier) is None ==> faded(Some(t), later) is None,
        faded(Some(t), t.at) == Some(t),
{
}

} // verus!
