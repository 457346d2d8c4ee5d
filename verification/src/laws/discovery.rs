//! What holds of the services and databases that are found.

use vstd::prelude::*;

use crate::aws;
use crate::aws::discovery;
use crate::aws::rds;
use crate::aws::CliOutput;
use crate::json;
use crate::text;

verus! {

// ---- services --------------------------------------------------------------

/// The names of the services come in the order of the listing: those of its
/// first part and then those of the rest.
pub proof fn law_names_follow_the_listing(
    a: Seq<json::JsonView>,
    b: Seq<json::JsonView>,
    entry: json::JsonView,
)
    ensures
        discovery::entry_names(a + b) == discovery::entry_names(a) + discovery::entry_names(b),
        discovery::entry_names(seq![entry]) == match entry.member_text("Name"@) {
            Some(name) => seq![name],
            None => Seq::empty(),
        },
        discovery::entry_names(Seq::empty()).len() == 0,
    decreases b.len(),
{
    assert(seq![entry].drop_last() =~= Seq::empty());
    assert(discovery::entry_names(seq![entry].drop_last()) =~= Seq::empty());
    if b.len() == 0 {
        assert(a + b =~= a);
        assert(discovery::entry_names(a) + discovery::entry_names(b) =~= discovery::entry_names(a));
    } else {
        law_names_follow_the_listing(a, b.drop_last(), entry);
        assert((a + b).drop_last() =~= a + b.drop_last());
        assert((a + b).last() == b.last());
        assert(discovery::entry_names(a + b) =~= discovery::entry_names(a)
            + discovery::entry_names(b));
    }
}

/// Every service of the listing that has a name is listed by it, and nothing else.
pub proof fn law_every_service_is_listed(listing: json::JsonView, name: Seq<char>)
    ensures
        discovery::listed_names(listing).contains(name) <==> exists|entries: Seq<json::JsonView>, i: int|
            {
                &&& listing.member("Services"@) == Some(json::JsonView::List(entries))
                &&& 0 <= i < entries.len()
                &&& #[trigger] entries[i].member("Name"@) == Some(json::JsonView::Text(name))
            },
{
    if let Some(entries) = listing.member_elements("Services"@) {
        lemma_entry_names(entries, name);
        if exists|i: int|
            0 <= i < entries.len() && (#[trigger] entries[i]).member_text("Name"@) == Some(name) {
            let i = choose|i: int|
                0 <= i < entries.len() && (#[trigger] entries[i]).member_text("Name"@) == Some(
                    name,
                );
            assert(entries[i].member("Name"@) == Some(json::JsonView::Text(name)));
        }
        assert forall|es: Seq<json::JsonView>, i: int|
            {
                &&& listing.member("Services"@) == Some(json::JsonView::List(es))
                &&& 0 <= i < es.len()
                &&& #[trigger] es[i].member("Name"@) == Some(json::JsonView::Text(name))
            } implies discovery::listed_names(listing).contains(name) by {
            assert(es[i].member_text("Name"@) == Some(name));
        }
    }
}

proof fn lemma_entry_names(entries: Seq<json::JsonView>, name: Seq<char>)
    ensures
        discovery::entry_names(entries).contains(name) <==> exists|i: int|
            0 <= i < entries.len() && (#[trigger] entries[i]).member_text("Name"@) == Some(name),
    decreases entries.len(),
{
    if entries.len() > 0 {
        let rest = entries.drop_last();
        lemma_entry_names(rest, name);
        let before = discovery::entry_names(rest);
        let all = discovery::entry_names(entries);
        let last = entries.len() - 1;
        if before.contains(name) {
            let k = before.index_of(name);
            assert(all[k] == name);
            let i = choose|i: int|
                0 <= i < rest.len() && (#[trigger] rest[i]).member_text("Name"@) == Some(name);
            assert(entries[i] == rest[i]);
        }
        if entries[last].member_text("Name"@) == Some(name) {
            assert(all[before.len() as int] == name);
        }
        if all.contains(name) && !before.contains(name) {
            let k = all.index_of(name);
            assert(k == before.len()) by {
                if k < before.len() {
                    assert(before[k] == name);
                }
            }
        }
        if exists|i: int|
            0 <= i < entries.len() && (#[trigger] entries[i]).member_text("Name"@) == Some(name) {
            let i = choose|i: int|
                0 <= i < entries.len() && (#[trigger] entries[i]).member_text("Name"@) == Some(
                    name,
                );
            if i < last {
                assert(rest[i].member_text("Name"@) == Some(name));
            }
        }
    }
}

/// Resolving starts with the services. The instances that are then asked for are
/// those of the first service of exactly that name; where no service has exactly
/// that name, the resolution ends with that.
pub proof fn law_resolving_asks_for_the_named_service(
    name: Seq<char>,
    out: CliOutput,
    listing: json::JsonView,
    entries: Seq<json::JsonView>,
)
    requires
        aws::reply(seq!["servicediscovery"@, "list-services"@], out) == Ok::<
            json::JsonView,
            Seq<char>,
        >(listing),
        listing.member("Services"@) == Some(json::JsonView::List(entries)),
    ensures
        discovery::resolve_step(name, discovery::ResolveEvent::Requested)
            == discovery::ResolveActionView::ListServices,
        match discovery::resolve_step(name, discovery::ResolveEvent::Services(out)) {
            discovery::ResolveActionView::ListInstances { service_id } => exists|i: int|
                #![trigger entries[i]]
                {
                    &&& 0 <= i < entries.len()
                    &&& entries[i].member("Name"@) == Some(json::JsonView::Text(name))
                    &&& entries[i].member("Id"@) == Some(json::JsonView::Text(service_id))
                    &&& forall|j: int|
                        0 <= j < i ==> (#[trigger] entries[j]).member("Name"@) != Some(
                            json::JsonView::Text(name),
                        )
                },
            discovery::ResolveActionView::Done(r) => r == Err::<(Seq<char>, u16), Seq<char>>(
                "Cloud Map service '"@ + name + "' not found"@,
            ) && forall|i: int|
                {
                    &&& 0 <= i < entries.len()
                    &&& (#[trigger] entries[i]).member("Name"@) == Some(json::JsonView::Text(name))
                    &&& forall|j: int|
                        0 <= j < i ==> (#[trigger] entries[j]).member("Name"@) != Some(
                            json::JsonView::Text(name),
                        )
                } ==> entries[i].member_text("Id"@) is None,
            discovery::ResolveActionView::ListServices => false,
        },
        (forall|i: int|
            0 <= i < entries.len() ==> (#[trigger] entries[i]).member("Name"@) != Some(
                json::JsonView::Text(name),
            )) ==> discovery::resolve_step(name, discovery::ResolveEvent::Services(out))
            == discovery::ResolveActionView::Done(
            Err("Cloud Map service '"@ + name + "' not found"@),
        ),
{
    assert(discovery::services_call() =~= seq!["servicediscovery"@, "list-services"@]);
    assert(listing.member_elements("Services"@) == Some(entries));
    let i = lemma_entry_named(entries, name);
}

proof fn lemma_entry_named(entries: Seq<json::JsonView>, name: Seq<char>) -> (i: int)
    ensures
        match discovery::entry_named(entries, name) {
            Some(e) => {
                &&& 0 <= i < entries.len()
                &&& entries[i] == e
                &&& e.member("Name"@) == Some(json::JsonView::Text(name))
                &&& forall|j: int|
                    0 <= j < i ==> (#[trigger] entries[j]).member("Name"@) != Some(
                        json::JsonView::Text(name),
                    )
            },
            None => forall|j: int|
                0 <= j < entries.len() ==> (#[trigger] entries[j]).member("Name"@) != Some(
                    json::JsonView::Text(name),
                ),
        },
    decreases entries.len(),
{
    if entries.len() == 0 || entries[0].member_text("Name"@) == Some(name) {
        0
    } else {
        let rest = entries.drop_first();
        let k = lemma_entry_named(rest, name);
        assert forall|j: int|
            0 <= j < entries.len() && (discovery::entry_named(entries, name) is None || j < k
                + 1) implies (#[trigger] entries[j]).member("Name"@) != Some(
            json::JsonView::Text(name),
        ) by {
            if j > 0 {
                assert(rest[j - 1] == entries[j]);
            }
        }
        k + 1
    }
}

/// A listing without services has none of any name.
pub proof fn law_no_services_no_resolution(name: Seq<char>, listing: json::JsonView)
    requires
        !(listing.member("Services"@) is Some && listing.member("Services"@)->0 is List),
    ensures
        discovery::after_services(name, Ok(listing)) == discovery::ResolveActionView::Done(
            Err("Cloud Map service '"@ + name + "' not found"@),
        ),
        discovery::listed_names(listing).len() == 0,
{
}

/// A call that fails ends the resolution with its reason, whichever call it is.
pub proof fn law_failed_calls_end_a_resolution(
    name: Seq<char>,
    why: Seq<char>,
    out: CliOutput,
    service_id: String,
)
    ensures
        aws::reply(seq!["servicediscovery"@, "list-services"@], out) == Err::<
            json::JsonView,
            Seq<char>,
        >(why) ==> discovery::resolve_step(name, discovery::ResolveEvent::Services(out))
            == discovery::ResolveActionView::Done(Err(why)),
        aws::reply(
            seq!["servicediscovery"@, "list-instances"@, "--service-id"@, service_id@],
            out,
        ) == Err::<json::JsonView, Seq<char>>(why) ==> discovery::resolve_step(
            name,
            discovery::ResolveEvent::Instances { service_id, output: out },
        ) == discovery::ResolveActionView::Done(Err(why)),
{
    assert(discovery::services_call() =~= seq!["servicediscovery"@, "list-services"@]);
    assert(discovery::instances_call(service_id@) =~= seq![
        "servicediscovery"@,
        "list-instances"@,
        "--service-id"@,
        service_id@,
    ]);
}

/// The instance is marked as unhealthy.
pub open spec fn marked_unhealthy(entry: json::JsonView) -> bool {
    entry.member("Attributes"@) matches Some(attrs) && attrs.member("AWS_INIT_HEALTH_STATUS"@)
        == Some(json::JsonView::Text("UNHEALTHY"@))
}

/// A resolution ends at the first listed instance that is not marked as
/// unhealthy: with its address and port, or with what it lacks.
pub proof fn law_resolving_ends_at_a_healthy_instance(
    name: Seq<char>,
    service_id: String,
    out: CliOutput,
    listing: json::JsonView,
    entries: Seq<json::JsonView>,
    i: int,
)
    requires
        aws::reply(
            seq!["servicediscovery"@, "list-instances"@, "--service-id"@, service_id@],
            out,
        ) == Ok::<json::JsonView, Seq<char>>(listing),
        listing.member("Instances"@) == Some(json::JsonView::List(entries)),
        0 <= i <= entries.len(),
        forall|j: int| 0 <= j < i ==> marked_unhealthy(#[trigger] entries[j]),
        i < entries.len() ==> !marked_unhealthy(entries[i]),
    ensures
        ({
            let end = discovery::resolve_step(
                name,
                discovery::ResolveEvent::Instances { service_id, output: out },
            );
            let none = "no healthy instances registered for '"@ + name + "'"@;
            let lacking = "instance for '"@ + name + "' missing IPv4/port attributes"@;
            if i == entries.len() || entries[i].member("Attributes"@) is None {
                end == discovery::ResolveActionView::Done(Err(none))
            } else {
                let attrs = entries[i].member("Attributes"@)->0;
                let ip = attrs.member_text("AWS_INSTANCE_IPV4"@);
                let port = attrs.member_text("AWS_INSTANCE_PORT"@);
                if ip is Some && port is Some && text::u16_value(port->0) is Some {
                    end == discovery::ResolveActionView::Done(
                        Ok((ip->0, text::u16_value(port->0)->0)),
                    )
                } else {
                    end == discovery::ResolveActionView::Done(Err(lacking))
                }
            }
        }),
{
    assert(discovery::instances_call(service_id@) =~= seq![
        "servicediscovery"@,
        "list-instances"@,
        "--service-id"@,
        service_id@,
    ]);
    assert(listing.member_elements("Instances"@) == Some(entries));
    lemma_healthy_at(entries, i);
}

proof fn lemma_healthy_at(entries: Seq<json::JsonView>, i: int)
    requires
        0 <= i <= entries.len(),
        forall|j: int| 0 <= j < i ==> marked_unhealthy(#[trigger] entries[j]),
        i < entries.len() ==> !marked_unhealthy(entries[i]),
    ensures
        i < entries.len() ==> discovery::first_healthy(entries) == Some(entries[i]),
        i == entries.len() ==> discovery::first_healthy(entries) is None,
    decreases entries.len(),
{
    if entries.len() > 0 {
        let rest = entries.drop_first();
        if i > 0 {
            assert(marked_unhealthy(entries[0]));
            assert forall|j: int| 0 <= j < i - 1 implies marked_unhealthy(
                #[trigger] rest[j],
            ) by {
                assert(rest[j] == entries[j + 1]);
            }
            lemma_healthy_at(rest, i - 1);
        }
    }
}

// ---- databases -------------------------------------------------------------

/// The text of a member, empty where it is none.
pub open spec fn text_or_empty(doc: json::JsonView, key: Seq<char>) -> Seq<char> {
    if doc.member(key) is Some && doc.member(key)->0 is Text {
        doc.member(key)->0->Text_0
    } else {
        Seq::empty()
    }
}

/// The port that a document states, 5432 where it states none.
pub open spec fn stated_port(doc: json::JsonView) -> int {
    if doc.member("Port"@) is Some && doc.member("Port"@)->0.unsigned() is Some {
        doc.member("Port"@)->0.unsigned()->0 as int
    } else {
        5432
    }
}

/// A cluster is offered by its own writer endpoint, whatever other members it
/// has, with its identifier, port and engine; without an endpoint it is not.
pub proof fn law_clusters_offer_their_writer(c: json::JsonView)
    ensures
        text_or_empty(c, "Endpoint"@).len() == 0 <==> rds::cluster_endpoint(c) is None,
        rds::cluster_endpoint(c) matches Some(x) ==> {
            &&& x.endpoint == text_or_empty(c, "Endpoint"@)
            &&& x.identifier == text_or_empty(c, "DBClusterIdentifier"@)
            &&& x.engine == text_or_empty(c, "Engine"@)
            &&& x.port == stated_port(c) % 65536
            &&& stated_port(c) <= 65535 ==> x.port == stated_port(c)
        },
{
}

/// A standalone instance is offered by its own address; one that belongs to a
/// cluster, or has no address yet, is not.
pub proof fn law_instances_offer_their_address(i: json::JsonView)
    ensures
        rds::instance_endpoint(i) is Some <==> {
            &&& text_or_empty(i, "DBClusterIdentifier"@).len() == 0
            &&& i.member("Endpoint"@) is Some
            &&& text_or_empty(i.member("Endpoint"@)->0, "Address"@).len() > 0
        },
        rds::instance_endpoint(i) matches Some(x) ==> {
            &&& x.endpoint == text_or_empty(i.member("Endpoint"@)->0, "Address"@)
            &&& x.identifier == text_or_empty(i, "DBInstanceIdentifier"@)
            &&& x.engine == text_or_empty(i, "Engine"@)
            &&& x.port == stated_port(i.member("Endpoint"@)->0) % 65536
            &&& stated_port(i.member("Endpoint"@)->0) <= 65535 ==> x.port == stated_port(
                i.member("Endpoint"@)->0,
            )
        },
{
}

/// The endpoint is that of the cluster `c`.
pub open spec fn of_cluster(x: rds::RdsInstanceView, c: json::JsonView) -> bool {
    &&& text_or_empty(c, "Endpoint"@).len() > 0
    &&& x.endpoint == text_or_empty(c, "Endpoint"@)
    &&& x.identifier == text_or_empty(c, "DBClusterIdentifier"@)
    &&& x.engine == text_or_empty(c, "Engine"@)
    &&& x.port == stated_port(c) % 65536
}

/// The instance belongs to no cluster and has an address.
pub open spec fn stands_alone(i: json::JsonView) -> bool {
    &&& text_or_empty(i, "DBClusterIdentifier"@).len() == 0
    &&& i.member("Endpoint"@) is Some
    &&& text_or_empty(i.member("Endpoint"@)->0, "Address"@).len() > 0
}

/// The endpoint is that of the standalone instance `i`.
pub open spec fn of_instance(x: rds::RdsInstanceView, i: json::JsonView) -> bool {
    &&& text_or_empty(i, "DBClusterIdentifier"@).len() == 0
    &&& i.member("Endpoint"@) is Some
    &&& text_or_empty(i.member("Endpoint"@)->0, "Address"@).len() > 0
    &&& x.endpoint == text_or_empty(i.member("Endpoint"@)->0, "Address"@)
    &&& x.identifier == text_or_empty(i, "DBInstanceIdentifier"@)
    &&& x.engine == text_or_empty(i, "Engine"@)
    &&& x.port == stated_port(i.member("Endpoint"@)->0) % 65536
}

/// The entries of an array member; none where there is no such member.
pub open spec fn entries_of(doc: json::JsonView, key: Seq<char>) -> Seq<json::JsonView> {
    if doc.member(key) is Some && doc.member(key)->0 is List {
        doc.member(key)->0->List_0
    } else {
        Seq::empty()
    }
}

/// The endpoint is that of some listed cluster or standalone instance.
pub open spec fn comes_from(
    x: rds::RdsInstanceView,
    clusters: Option<json::JsonView>,
    instances: json::JsonView,
) -> bool {
    ||| clusters is Some && exists|k: int|
        0 <= k < entries_of(clusters->0, "DBClusters"@).len() && of_cluster(
            x,
            #[trigger] entries_of(clusters->0, "DBClusters"@)[k],
        )
    ||| exists|k: int|
        0 <= k < entries_of(instances, "DBInstances"@).len() && of_instance(
            x,
            #[trigger] entries_of(instances, "DBInstances"@)[k],
        )
}

/// Every cluster with a writer endpoint and every standalone instance with an
/// address is listed, and nothing else is; a listing of clusters that is missing
/// counts as empty.
pub proof fn law_every_database_is_listed(
    clusters: Option<json::JsonView>,
    instances: json::JsonView,
    items: Seq<rds::RdsInstanceView>,
)
    requires
        rds::is_sorted_form(rds::found_endpoints(clusters, instances), items),
    ensures
        forall|k: int|
            0 <= k < entries_of(instances, "DBInstances"@).len() && stands_alone(
                #[trigger] entries_of(instances, "DBInstances"@)[k],
            ) ==> exists|j: int|
                0 <= j < items.len() && of_instance(
                    #[trigger] items[j],
                    entries_of(instances, "DBInstances"@)[k],
                ),
        clusters matches Some(c) ==> forall|k: int|
            0 <= k < entries_of(c, "DBClusters"@).len() && text_or_empty(
                #[trigger] entries_of(c, "DBClusters"@)[k],
                "Endpoint"@,
            ).len() > 0 ==> exists|j: int|
                0 <= j < items.len() && of_cluster(
                    #[trigger] items[j],
                    entries_of(c, "DBClusters"@)[k],
                ),
        forall|j: int|
            0 <= j < items.len() ==> comes_from(#[trigger] items[j], clusters, instances),
{
    let found = rds::found_endpoints(clusters, instances);
    let pick_c = |c: json::JsonView| rds::cluster_endpoint(c);
    let pick_i = |i: json::JsonView| rds::instance_endpoint(i);
    let is = entries_of(instances, "DBInstances"@);
    let found_i = rds::instance_endpoints(instances);
    assert(found_i =~= rds::picked(is, pick_i));
    let found_c = match clusters {
        Some(c) => rds::cluster_endpoints(c),
        None => Seq::empty(),
    };
    assert(found =~= found_c + found_i);
    assert forall|k: int|
        0 <= k < is.len() && stands_alone(#[trigger] is[k]) implies exists|j: int|
        0 <= j < items.len() && of_instance(#[trigger] items[j], is[k]) by {
        law_instances_offer_their_address(is[k]);
        let x = rds::instance_endpoint(is[k])->0;
        lemma_picked_has(is, pick_i, k);
        let m = found_i.index_of(x);
        assert(found[found_c.len() + m] == x);
        lemma_sorted_has(found, items, x);
        assert(of_instance(items[items.index_of(x)], is[k]));
    }
    if let Some(c) = clusters {
        let cs = entries_of(c, "DBClusters"@);
        assert(found_c =~= rds::picked(cs, pick_c));
        assert forall|k: int|
            0 <= k < cs.len() && text_or_empty(
                #[trigger] cs[k],
                "Endpoint"@,
            ).len() > 0 implies exists|j: int|
            0 <= j < items.len() && of_cluster(#[trigger] items[j], cs[k]) by {
            law_clusters_offer_their_writer(cs[k]);
            let x = rds::cluster_endpoint(cs[k])->0;
            lemma_picked_has(cs, pick_c, k);
            let m = found_c.index_of(x);
            assert(found[m] == x);
            lemma_sorted_has(found, items, x);
            assert(of_cluster(items[items.index_of(x)], cs[k]));
        }
    }
    assert forall|j: int| 0 <= j < items.len() implies comes_from(
        #[trigger] items[j],
        clusters,
        instances,
    ) by {
        let x = items[j];
        lemma_sorted_has(items, found, x);
        let m = found.index_of(x);
        if m < found_c.len() {
            assert(found_c[m] == x);
            let cs = entries_of(clusters->0, "DBClusters"@);
            let k = lemma_picked_from(cs, pick_c, m);
            law_clusters_offer_their_writer(cs[k]);
            assert(of_cluster(items[j], cs[k]));
        } else {
            assert(found_i[m - found_c.len()] == x);
            let k = lemma_picked_from(is, pick_i, m - found_c.len());
            law_instances_offer_their_address(is[k]);
            assert(of_instance(items[j], is[k]));
        }
    }
}

proof fn lemma_sorted_has(
    a: Seq<rds::RdsInstanceView>,
    b: Seq<rds::RdsInstanceView>,
    x: rds::RdsInstanceView,
)
    requires
        forall|id: Seq<char>| #[trigger] rds::with_identifier(a, id) == rds::with_identifier(b, id),
        a.contains(x),
    ensures
        b.contains(x),
{
    broadcast use vstd::seq_lib::group_filter_ensures;

    let pred = |i: rds::RdsInstanceView| i.identifier == x.identifier;
    let k = a.index_of(x);
    assert(pred(a[k]));
    assert(a.filter(pred).contains(a[k]));
    assert(rds::with_identifier(a, x.identifier) == a.filter(pred));
    assert(rds::with_identifier(b, x.identifier) == b.filter(pred));
    lemma_filter_from(b, pred, x);
}

proof fn lemma_filter_from(
    s: Seq<rds::RdsInstanceView>,
    pred: spec_fn(rds::RdsInstanceView) -> bool,
    x: rds::RdsInstanceView,
)
    requires
        s.filter(pred).contains(x),
    ensures
        s.contains(x),
    decreases s.len(),
{
    reveal(Seq::filter);
    if s.len() > 0 {
        let rest = s.drop_last();
        let k = s.filter(pred).index_of(x);
        if k < rest.filter(pred).len() {
            assert(rest.filter(pred)[k] == x);
            lemma_filter_from(rest, pred, x);
            assert(s[rest.index_of(x)] == x);
        } else {
            assert(s[s.len() - 1] == x);
        }
    }
}

proof fn lemma_picked_has(
    entries: Seq<json::JsonView>,
    pick: spec_fn(json::JsonView) -> Option<rds::RdsInstanceView>,
    k: int,
)
    requires
        0 <= k < entries.len(),
        pick(entries[k]) is Some,
    ensures
        rds::picked(entries, pick).contains(pick(entries[k])->0),
    decreases entries.len(),
{
    let before = rds::picked(entries.drop_last(), pick);
    let all = rds::picked(entries, pick);
    if k == entries.len() - 1 {
        assert(all[before.len() as int] == pick(entries[k])->0);
    } else {
        assert(entries.drop_last()[k] == entries[k]);
        lemma_picked_has(entries.drop_last(), pick, k);
        let m = before.index_of(pick(entries[k])->0);
        assert(all[m] == before[m]);
    }
}

proof fn lemma_picked_from(
    entries: Seq<json::JsonView>,
    pick: spec_fn(json::JsonView) -> Option<rds::RdsInstanceView>,
    m: int,
) -> (k: int)
    requires
        0 <= m < rds::picked(entries, pick).len(),
    ensures
        0 <= k < entries.len(),
        pick(entries[k]) == Some(rds::picked(entries, pick)[m]),
    decreases entries.len(),
{
    let before = rds::picked(entries.drop_last(), pick);
    if m < before.len() {
        let k = lemma_picked_from(entries.drop_last(), pick, m);
        assert(entries.drop_last()[k] == entries[k]);
        k
    } else {
        entries.len() - 1
    }
}

/// What is found comes in the order of the listing, and clusters come before
/// instances.
pub proof fn law_databases_follow_the_listings(
    a: Seq<json::JsonView>,
    b: Seq<json::JsonView>,
    entry: json::JsonView,
    pick: spec_fn(json::JsonView) -> Option<rds::RdsInstanceView>,
    clusters: json::JsonView,
    instances: json::JsonView,
)
    ensures
        rds::picked(a + b, pick) == rds::picked(a, pick) + rds::picked(b, pick),
        rds::picked(seq![entry], pick) == match pick(entry) {
            Some(x) => seq![x],
            None => Seq::empty(),
        },
        rds::found_endpoints(Some(clusters), instances) == rds::cluster_endpoints(clusters)
            + rds::instance_endpoints(instances),
        rds::found_endpoints(None, instances) == rds::instance_endpoints(instances),
    decreases b.len(),
{
    assert(seq![entry].drop_last() =~= Seq::empty());
    assert(rds::picked(seq![entry].drop_last(), pick) =~= Seq::empty());
    if b.len() == 0 {
        assert(a + b =~= a);
        assert(rds::picked(a, pick) + rds::picked(b, pick) =~= rds::picked(a, pick));
    } else {
        law_databases_follow_the_listings(a, b.drop_last(), entry, pick, clusters, instances);
        assert((a + b).drop_last() =~= a + b.drop_last());
        assert(rds::picked(a + b, pick) =~= rds::picked(a, pick) + rds::picked(b, pick));
    }
}

/// Sorted by identifier; those of one identifier are as many as before and in
/// their order.
pub proof fn law_databases_are_sorted(
    found: Seq<rds::RdsInstanceView>,
    items: Seq<rds::RdsInstanceView>,
    i: int,
    j: int,
    id: Seq<char>,
)
    requires
        rds::is_sorted_form(found, items),
        0 <= i < j < items.len(),
    ensures
        !text::lex_lt(items[j].identifier, items[i].identifier),
        items.filter(|x: rds::RdsInstanceView| x.identifier == id) == found.filter(
            |x: rds::RdsInstanceView| x.identifier == id,
        ),
{
    assert(rds::with_identifier(items, id) == rds::with_identifier(found, id));
}

/// The calls that list clusters and instances, and that only a failure of the
/// second is passed on.
pub proof fn law_database_calls()
    ensures
        rds::clusters_call() == seq!["rds"@, "describe-db-clusters"@],
        rds::instances_call() == seq!["rds"@, "describe-db-instances"@],
        forall|j: json::JsonView| #[trigger]
            rds::answered(Ok::<json::JsonView, Seq<char>>(j)) == Some(j),
        forall|e: Seq<char>| #[trigger]
            rds::answered(Err::<json::JsonView, Seq<char>>(e)) is None,
{
}

/// What comes of the outputs of the two calls that list databases. Some are found
/// exactly when the instances could be listed; the clusters then add theirs where
/// they could be listed too, and are passed over where they could not. Otherwise
/// the reason is that of the call for the instances.
pub proof fn law_listed_databases(
    clusters: CliOutput,
    instances: CliOutput,
    databases: Result<Seq<rds::RdsInstanceView>, Seq<char>>,
)
    requires
        rds::databases_listed(clusters, instances, databases),
    ensures
        match aws::reply(seq!["rds"@, "describe-db-instances"@], instances) {
            Err(why) => databases == Err::<Seq<rds::RdsInstanceView>, Seq<char>>(why),
            Ok(listing) => databases is Ok && match aws::reply(
                seq!["rds"@, "describe-db-clusters"@],
                clusters,
            ) {
                Ok(c) => rds::is_sorted_form(
                    rds::cluster_endpoints(c) + rds::instance_endpoints(listing),
                    databases->Ok_0,
                ),
                Err(_) => rds::is_sorted_form(
                    rds::instance_endpoints(listing),
                    databases->Ok_0,
                ),
            },
        },
{
}

/// What comes of the output of the call that lists services: the names in the
/// listing, or the reason why there is none.
pub proof fn law_listed_services(
    out: CliOutput,
    services: Result<Seq<Seq<char>>, Seq<char>>,
)
    requires
        discovery::services_listed_by(out, services),
    ensures
        match aws::reply(seq!["servicediscovery"@, "list-services"@], out) {
            Err(why) => services == Err::<Seq<Seq<char>>, Seq<char>>(why),
            Ok(listing) => services == Ok::<Seq<Seq<char>>, Seq<char>>(
                discovery::listed_names(listing),
            ),
        },
{
}

} // verus!
