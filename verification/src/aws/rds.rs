//! Discovery of database endpoints.

use vstd::prelude::*;

use crate::aws;
use crate::aws::CliOutput;
use crate::json;
use crate::json::Json;
use crate::text;

verus! {

/// A discoverable RDS endpoint the user can choose to tunnel to.
#[derive(Debug, Clone)]
pub struct RdsInstance {
    pub identifier: String,
    pub endpoint: String,
    pub port: u16,
    pub engine: String,
}

/// `RdsInstance` as a mathematical value.
pub struct RdsInstanceView {
    pub identifier: Seq<char>,
    pub endpoint: Seq<char>,
    pub port: u16,
    pub engine: Seq<char>,
}

impl View for RdsInstance {
    type V = RdsInstanceView;

    open spec fn view(&self) -> RdsInstanceView {
        RdsInstanceView {
            identifier: self.identifier@,
            endpoint: self.endpoint@,
            port: self.port,
            engine: self.engine@,
        }
    }
}

/// The endpoints that a sequence of instances holds.
pub open spec fn instances_view(s: Seq<RdsInstance>) -> Seq<RdsInstanceView> {
    s.map_values(|i: RdsInstance| i@)
}

/// The subcommand that lists the Aurora clusters.
pub open spec fn clusters_call() -> Seq<Seq<char>> {
    seq!["rds"@, "describe-db-clusters"@]
}

/// The subcommand that lists the Aurora clusters.
pub fn describe_clusters_args() -> (r: Vec<String>)
    ensures
        text::views(r@) == clusters_call(),
{
    let mut r: Vec<String> = Vec::new();
    r.push("rds".to_string());
    r.push("describe-db-clusters".to_string());
    assert(text::views(r@) =~= clusters_call());
    r
}

/// The subcommand that lists the database instances.
pub open spec fn instances_call() -> Seq<Seq<char>> {
    seq!["rds"@, "describe-db-instances"@]
}

/// The subcommand that lists the database instances.
pub fn describe_instances_args() -> (r: Vec<String>)
    ensures
        text::views(r@) == instances_call(),
{
    let mut r: Vec<String> = Vec::new();
    r.push("rds".to_string());
    r.push("describe-db-instances".to_string());
    assert(text::views(r@) =~= instances_call());
    r
}

/// The member `key` where it is a string, else nothing.
pub open spec fn field_text(v: json::JsonView, key: Seq<char>) -> Seq<char> {
    match v.member_text(key) {
        Some(s) => s,
        None => Seq::empty(),
    }
}

/// The member `key` where it is a string, else the empty string.
pub fn string_field(v: &Json, key: &str) -> (r: String)
    ensures
        r@ == field_text(v@, key@),
{
    match v.get_str(key) {
        Some(s) => s.clone(),
        None => String::new(),
    }
}

/// The member `Port`, 5432 where there is none, cut to 16 bits.
pub open spec fn port_of(v: json::JsonView) -> u16 {
    let n: int = match v.member("Port"@) {
        Some(p) => match p.unsigned() {
            Some(n) => n as int,
            None => 5432,
        },
        None => 5432,
    };
    (n % 65536) as u16
}

/// The member `Port`, 5432 where there is none, cut to 16 bits.
pub fn port_field(v: &Json) -> (r: u16)
    ensures
        r == port_of(v@),
{
    let n: u64 = match v.get("Port") {
        Some(p) => match p.as_u64() {
            Some(n) => n,
            None => 5432,
        },
        None => 5432,
    };
    (n % 65536) as u16
}

/// The writer endpoint of a cluster, where it has one.
pub open spec fn cluster_endpoint(c: json::JsonView) -> Option<RdsInstanceView> {
    let endpoint = field_text(c, "Endpoint"@);
    if endpoint.len() == 0 {
        None
    } else {
        Some(
            RdsInstanceView {
                identifier: field_text(c, "DBClusterIdentifier"@),
                endpoint,
                port: port_of(c),
                engine: field_text(c, "Engine"@),
            },
        )
    }
}

/// The writer endpoint of a cluster, where it has one.
pub fn cluster_entry(c: &Json) -> (r: Option<RdsInstance>)
    ensures
        match r {
            Some(i) => cluster_endpoint(c@) == Some(i@),
            None => cluster_endpoint(c@) is None,
        },
{
    let endpoint = string_field(c, "Endpoint");
    if endpoint.as_str().is_empty() {
        return None;
    }
    Some(
        RdsInstance {
            identifier: string_field(c, "DBClusterIdentifier"),
            endpoint,
            port: port_field(c),
            engine: string_field(c, "Engine"),
        },
    )
}

/// The endpoint of an instance that belongs to no cluster, where it has one.
pub open spec fn instance_endpoint(i: json::JsonView) -> Option<RdsInstanceView> {
    match i.member("Endpoint"@) {
        Some(e) => {
            let address = field_text(e, "Address"@);
            if field_text(i, "DBClusterIdentifier"@).len() > 0 || address.len() == 0 {
                None
            } else {
                Some(
                    RdsInstanceView {
                        identifier: field_text(i, "DBInstanceIdentifier"@),
                        endpoint: address,
                        port: port_of(e),
                        engine: field_text(i, "Engine"@),
                    },
                )
            }
        },
        None => None,
    }
}

/// The endpoint of an instance that belongs to no cluster, where it has one.
pub fn instance_entry(i: &Json) -> (r: Option<RdsInstance>)
    ensures
        match r {
            Some(x) => instance_endpoint(i@) == Some(x@),
            None => instance_endpoint(i@) is None,
        },
{
    if !string_field(i, "DBClusterIdentifier").as_str().is_empty() {
        return None;
    }
    match i.get("Endpoint") {
        Some(e) => {
            let endpoint = string_field(e, "Address");
            if endpoint.as_str().is_empty() {
                return None;
            }
            Some(
                RdsInstance {
                    identifier: string_field(i, "DBInstanceIdentifier"),
                    endpoint,
                    port: port_field(e),
                    engine: string_field(i, "Engine"),
                },
            )
        },
        None => None,
    }
}

/// What `pick` finds in the entries, in their order.
pub open spec fn picked(
    entries: Seq<json::JsonView>,
    pick: spec_fn(json::JsonView) -> Option<RdsInstanceView>,
) -> Seq<RdsInstanceView>
    decreases entries.len(),
{
    if entries.len() == 0 {
        Seq::empty()
    } else {
        let before = picked(entries.drop_last(), pick);
        match pick(entries.last()) {
            Some(i) => before.push(i),
            None => before,
        }
    }
}

/// The writer endpoints in a listing of clusters.
pub open spec fn cluster_endpoints(listing: json::JsonView) -> Seq<RdsInstanceView> {
    match listing.member_elements("DBClusters"@) {
        Some(entries) => picked(entries, |c: json::JsonView| cluster_endpoint(c)),
        None => Seq::empty(),
    }
}

/// The standalone endpoints in a listing of instances.
pub open spec fn instance_endpoints(listing: json::JsonView) -> Seq<RdsInstanceView> {
    match listing.member_elements("DBInstances"@) {
        Some(entries) => picked(entries, |i: json::JsonView| instance_endpoint(i)),
        None => Seq::empty(),
    }
}

/// The endpoints as they are found: those of the clusters, which may be
/// missing, and then those of the standalone instances.
pub open spec fn found_endpoints(
    clusters: Option<json::JsonView>,
    instances: json::JsonView,
) -> Seq<RdsInstanceView> {
    match clusters {
        Some(c) => cluster_endpoints(c) + instance_endpoints(instances),
        None => instance_endpoints(instances),
    }
}

/// In ascending order of identifiers.
pub open spec fn by_identifier(s: Seq<RdsInstanceView>) -> bool {
    forall|i: int, j: int|
        0 <= i < j < s.len() ==> !text::lex_lt(
            (#[trigger] s[j]).identifier,
            (#[trigger] s[i]).identifier,
        )
}

/// The endpoints with the identifier `id`, in their order.
pub open spec fn with_identifier(s: Seq<RdsInstanceView>, id: Seq<char>) -> Seq<RdsInstanceView> {
    s.filter(|i: RdsInstanceView| i.identifier == id)
}

/// `sorted` is `s` in ascending order of identifiers; those with the same
/// identifier keep their order.
pub open spec fn is_sorted_form(s: Seq<RdsInstanceView>, sorted: Seq<RdsInstanceView>) -> bool {
    &&& by_identifier(sorted)
    &&& forall|id: Seq<char>| #[trigger] with_identifier(sorted, id) == with_identifier(s, id)
}

proof fn lemma_filter_push(s: Seq<RdsInstanceView>, x: RdsInstanceView, id: Seq<char>)
    ensures
        with_identifier(s.push(x), id) == if x.identifier == id {
            with_identifier(s, id).push(x)
        } else {
            with_identifier(s, id)
        },
{
    reveal(Seq::filter);
    assert(s.push(x).drop_last() =~= s);
}

proof fn lemma_filter_none(s: Seq<RdsInstanceView>, id: Seq<char>)
    requires
        forall|i: int| 0 <= i < s.len() ==> (#[trigger] s[i]).identifier != id,
    ensures
        with_identifier(s, id) == Seq::<RdsInstanceView>::empty(),
    decreases s.len(),
{
    reveal(Seq::filter);
    if s.len() > 0 {
        lemma_filter_none(s.drop_last(), id);
    }
}

proof fn lemma_insert_keeps_order(
    s: Seq<RdsInstanceView>,
    sorted: Seq<RdsInstanceView>,
    p: int,
    x: RdsInstanceView,
)
    requires
        is_sorted_form(s, sorted),
        0 <= p <= sorted.len(),
        forall|i: int|
            0 <= i < p ==> !text::lex_lt(x.identifier, (#[trigger] sorted[i]).identifier),
        p < sorted.len() ==> text::lex_lt(x.identifier, sorted[p].identifier),
    ensures
        is_sorted_form(s.push(x), sorted.insert(p, x)),
{
    let after = sorted.insert(p, x);
    let tail = sorted.skip(p);
    let head = sorted.take(p);
    assert forall|j: int| p <= j < sorted.len() implies text::lex_lt(
        x.identifier,
        (#[trigger] sorted[j]).identifier,
    ) by {
        if j > p {
            text::lemma_lex_total(sorted[p].identifier, sorted[j].identifier);
            if text::lex_lt(sorted[p].identifier, sorted[j].identifier) {
                text::lemma_lex_transitive(
                    x.identifier,
                    sorted[p].identifier,
                    sorted[j].identifier,
                );
            }
        }
    }
    assert forall|i: int, j: int| 0 <= i < j < after.len() implies !text::lex_lt(
        (#[trigger] after[j]).identifier,
        (#[trigger] after[i]).identifier,
    ) by {
        if i == p {
            assert(after[j] == sorted[j - 1]);
            if text::lex_lt(after[j].identifier, x.identifier) {
                text::lemma_lex_transitive(x.identifier, after[j].identifier, x.identifier);
                text::lemma_lex_irreflexive(x.identifier);
            }
        } else if j == p {
            assert(after[i] == sorted[i]);
        } else {
            let a = if i < p {
                i
            } else {
                i - 1
            };
            let b = if j < p {
                j
            } else {
                j - 1
            };
            assert(after[i] == sorted[a]);
            assert(after[j] == sorted[b]);
        }
    }
    assert forall|id: Seq<char>| #[trigger]
        with_identifier(after, id) == with_identifier(s.push(x), id) by {
        let pred = |i: RdsInstanceView| i.identifier == id;
        lemma_filter_push(s, x, id);
        lemma_filter_push(head, x, id);
        assert(after =~= head.push(x) + tail);
        assert(sorted =~= head + tail);
        Seq::filter_distributes_over_add(head.push(x), tail, pred);
        Seq::filter_distributes_over_add(head, tail, pred);
        assert(with_identifier(sorted, id) == with_identifier(s, id));
        if x.identifier == id {
            assert forall|i: int| 0 <= i < tail.len() implies (#[trigger] tail[i]).identifier
                != id by {
                text::lemma_lex_irreflexive(id);
                assert(tail[i] == sorted[p + i]);
            }
            lemma_filter_none(tail, id);
            assert(with_identifier(head, id).push(x) + Seq::<RdsInstanceView>::empty()
                =~= with_identifier(head, id).push(x));
            assert(with_identifier(head, id) + Seq::<RdsInstanceView>::empty()
                =~= with_identifier(head, id));
        }
    }
}

/// Sorts by identifier; entries with the same identifier keep their order.
pub fn sort_by_identifier(items: Vec<RdsInstance>) -> (r: Vec<RdsInstance>)
    ensures
        is_sorted_form(instances_view(items@), instances_view(r@)),
{
    let mut r: Vec<RdsInstance> = Vec::new();
    assert(instances_view(items@).take(0) =~= instances_view(r@));
    for item in it: items
        invariant
            it.seq() == items@,
            is_sorted_form(instances_view(items@).take(it.index() as int), instances_view(r@)),
    {
        let ghost n = it.index() as int;
        let ghost before = instances_view(r@);
        let mut p: usize = 0;
        while p < r.len() && !text::str_lt(item.identifier.as_str(), r[p].identifier.as_str())
            invariant
                p <= r.len(),
                before == instances_view(r@),
                forall|i: int|
                    0 <= i < p ==> !text::lex_lt(
                        item.identifier@,
                        (#[trigger] before[i]).identifier,
                    ),
            decreases r.len() - p,
        {
            assert(before[p as int] == r@[p as int]@);
            p = p + 1;
        }
        proof {
            lemma_insert_keeps_order(instances_view(items@).take(n), before, p as int, item@);
            assert(instances_view(items@).take(n).push(item@) =~= instances_view(items@).take(
                n + 1,
            ));
        }
        r.insert(p, item);
        assert(instances_view(r@) =~= before.insert(p as int, item@));
    }
    assert(instances_view(items@).take(items@.len() as int) =~= instances_view(items@));
    r
}

fn collect_clusters(listing: &Json) -> (r: Vec<RdsInstance>)
    ensures
        instances_view(r@) == cluster_endpoints(listing@),
{
    let mut r: Vec<RdsInstance> = Vec::new();
    if let Some(entries) = listing.get_array("DBClusters") {
        let ghost docs = json::documents(entries@);
        let ghost pick = |c: json::JsonView| cluster_endpoint(c);
        assert(docs.take(0) =~= Seq::empty());
        for i in 0..entries.len()
            invariant
                docs == json::documents(entries@),
                pick == (|c: json::JsonView| cluster_endpoint(c)),
                instances_view(r@) =~= picked(docs.take(i as int), pick),
        {
            assert(docs.take(i + 1).drop_last() =~= docs.take(i as int));
            let ghost before = instances_view(r@);
            if let Some(x) = cluster_entry(&entries[i]) {
                r.push(x);
                assert(instances_view(r@) =~= before.push(x@));
            }
        }
        assert(docs.take(docs.len() as int) =~= docs);
    }
    assert(instances_view(r@) =~= cluster_endpoints(listing@));
    r
}

fn collect_instances(listing: &Json) -> (r: Vec<RdsInstance>)
    ensures
        instances_view(r@) == instance_endpoints(listing@),
{
    let mut r: Vec<RdsInstance> = Vec::new();
    if let Some(entries) = listing.get_array("DBInstances") {
        let ghost docs = json::documents(entries@);
        let ghost pick = |i: json::JsonView| instance_endpoint(i);
        assert(docs.take(0) =~= Seq::empty());
        for i in 0..entries.len()
            invariant
                docs == json::documents(entries@),
                pick == (|i: json::JsonView| instance_endpoint(i)),
                instances_view(r@) =~= picked(docs.take(i as int), pick),
        {
            assert(docs.take(i + 1).drop_last() =~= docs.take(i as int));
            let ghost before = instances_view(r@);
            if let Some(x) = instance_entry(&entries[i]) {
                r.push(x);
                assert(instances_view(r@) =~= before.push(x@));
            }
        }
        assert(docs.take(docs.len() as int) =~= docs);
    }
    assert(instances_view(r@) =~= instance_endpoints(listing@));
    r
}

/// The endpoints in two listings, sorted by identifier. Aurora clusters expose
/// a writer endpoint; instances that are not part of a cluster contribute their
/// own.
pub fn endpoints(clusters: Option<&Json>, instances: &Json) -> (r: Vec<RdsInstance>)
    ensures
        is_sorted_form(
            found_endpoints(
                match clusters {
                    Some(c) => Some(c@),
                    None => None,
                },
                instances@,
            ),
            instances_view(r@),
        ),
{
    let mut standalone = collect_instances(instances);
    match clusters {
        Some(c) => {
            let mut found = collect_clusters(c);
            let ghost head = instances_view(found@);
            let ghost tail = instances_view(standalone@);
            found.append(&mut standalone);
            assert(instances_view(found@) =~= head + tail);
            sort_by_identifier(found)
        },
        None => sort_by_identifier(standalone),
    }
}

/// The document of an answer, where there is one.
pub open spec fn answered(r: Result<json::JsonView, Seq<char>>) -> Option<json::JsonView> {
    match r {
        Ok(j) => Some(j),
        Err(_) => None,
    }
}

/// `r` is what the two listings come to: the endpoints by identifier, those of
/// the clusters only where that call succeeded, or why there are none.
pub open spec fn databases_listed(
    clusters: CliOutput,
    instances: CliOutput,
    r: Result<Seq<RdsInstanceView>, Seq<char>>,
) -> bool {
    match (r, aws::reply(instances_call(), instances)) {
        (Ok(items), Ok(listing)) => is_sorted_form(
            found_endpoints(answered(aws::reply(clusters_call(), clusters)), listing),
            items,
        ),
        (Err(e), Err(reason)) => e == reason,
        _ => false,
    }
}

/// The endpoints in the outputs of the two listing calls. A failure to list the
/// clusters is passed over; one to list the instances is reported.
pub fn list(clusters: &CliOutput, instances: &CliOutput) -> (r: Result<Vec<RdsInstance>, String>)
    ensures
        databases_listed(
            *clusters,
            *instances,
            match r {
                Ok(items) => Ok(instances_view(items@)),
                Err(e) => Err(e@),
            },
        ),
{
    match aws::run_json(&describe_instances_args(), instances) {
        Ok(listing) => match aws::run_json(&describe_clusters_args(), clusters) {
            Ok(c) => Ok(endpoints(Some(&c), &listing)),
            Err(_) => Ok(endpoints(None, &listing)),
        },
        Err(e) => Err(e),
    }
}

} // verus!
