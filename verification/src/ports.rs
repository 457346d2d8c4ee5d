//! Choosing local ports.

use vstd::prelude::*;

verus! {

/// The first port from `base` upward that is not taken; beyond the last port
/// where there is none.
pub open spec fn first_free(taken: Set<int>, base: int) -> int
    decreases 65536 - base,
{
    if base > 65535 {
        65536
    } else if taken.contains(base) {
        first_free(taken, base + 1)
    } else {
        base
    }
}

/// The ports in a list.
pub open spec fn port_set(ports: Seq<u16>) -> Set<int> {
    Set::new(|p: int| exists|i: int| 0 <= i < ports.len() && #[trigger] ports[i] == p)
}

/// The first free port is the least one from `base` upward that is not taken.
pub proof fn law_first_free_is_least(taken: Set<int>, base: int)
    requires
        0 <= base <= 65535,
    ensures
        base <= first_free(taken, base) <= 65536,
        first_free(taken, base) <= 65535 ==> !taken.contains(first_free(taken, base)),
        forall|q: int| base <= q < first_free(taken, base) && q <= 65535 ==> taken.contains(q),
        first_free(taken, base) <= 65535 <==> exists|q: int|
            base <= q <= 65535 && !taken.contains(q),
    decreases 65536 - base,
{
    if taken.contains(base) {
        if base < 65535 {
            law_first_free_is_least(taken, base + 1);
        } else {
            assert(first_free(taken, base + 1) == 65536);
        }
        assert forall|q: int| base <= q <= 65535 && !taken.contains(q) implies first_free(
            taken,
            base,
        ) <= 65535 by {
            assert(q != base);
        }
        if first_free(taken, base) <= 65535 {
            assert(!taken.contains(first_free(taken, base)));
        }
    } else {
        assert(!taken.contains(base));
    }
}

fn contains_port(ports: &Vec<u16>, port: u16) -> (r: bool)
    ensures
        r == port_set(ports@).contains(port as int),
{
    for i in 0..ports.len()
        invariant
            forall|j: int| 0 <= j < i ==> ports@[j] != port,
    {
        if ports[i] == port {
            return true;
        }
    }
    false
}

/// The first port from `base` upward that is not in the list.
pub fn free_port(taken: &Vec<u16>, base: u16) -> (r: Option<u16>)
    ensures
        match r {
            Some(p) => p == first_free(port_set(taken@), base as int),
            None => first_free(port_set(taken@), base as int) > 65535,
        },
{
    let mut p: u16 = base;
    loop
        invariant
            first_free(port_set(taken@), base as int) == first_free(port_set(taken@), p as int),
        decreases 65535 - p,
    {
        if !contains_port(taken, p) {
            return Some(p);
        }
        if p == 65535 {
            assert(first_free(port_set(taken@), p + 1) == 65536);
            return None;
        }
        p = p + 1;
    }
}

/// What adding a port to a list does to the set of its ports.
pub proof fn lemma_port_set_push(ports: Seq<u16>, port: u16)
    ensures
        port_set(ports.push(port)) == port_set(ports).insert(port as int),
{
    assert forall|p: int| port_set(ports).insert(port as int).contains(p) implies port_set(
        ports.push(port),
    ).contains(p) by {
        if p == port {
            assert(ports.push(port)[ports.len() as int] == p);
        } else {
            let i = choose|i: int| 0 <= i < ports.len() && #[trigger] ports[i] == p;
            assert(ports.push(port)[i] == p);
        }
    }
    assert(port_set(ports.push(port)) =~= port_set(ports).insert(port as int));
}

} // verus!
