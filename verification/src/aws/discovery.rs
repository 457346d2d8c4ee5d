//! Service discovery through Cloud Map.

use vstd::prelude::*;

use crate::aws;
use crate::aws::CliOutput;
use crate::json;
use crate::json::Json;
use crate::text;

verus! {

/// The subcommand that lists the services.
pub open spec fn services_call() -> Seq<Seq<char>> {
    seq!["servicediscovery"@, "list-services"@]
}

/// The subcommand that lists the services.
pub fn list_services_args() -> (r: Vec<String>)
    ensures
        text::views(r@) == services_call(),
{
    let mut r: Vec<String> = Vec::new();
    r.push("servicediscovery".to_string());
    r.push("list-services".to_string());
    assert(text::views(r@) =~= services_call());
    r
}

/// The subcommand that lists the instances of a service.
pub open spec fn instances_call(service_id: Seq<char>) -> Seq<Seq<char>> {
    seq!["servicediscovery"@, "list-instances"@, "--service-id"@, service_id]
}

/// The subcommand that lists the instances of a service.
pub fn list_instances_args(service_id: &str) -> (r: Vec<String>)
    ensures
        text::views(r@) == instances_call(service_id@),
{
    let mut r: Vec<String> = Vec::new();
    r.push("servicediscovery".to_string());
    r.push("list-instances".to_string());
    r.push("--service-id".to_string());
    r.push(service_id.to_owned());
    assert(text::views(r@) =~= instances_call(service_id@));
    r
}

/// The names of the entries that have one, in their order.
pub open spec fn entry_names(entries: Seq<json::JsonView>) -> Seq<Seq<char>>
    decreases entries.len(),
{
    if entries.len() == 0 {
        Seq::empty()
    } else {
        let before = entry_names(entries.drop_last());
        match entries.last().member_text("Name"@) {
            Some(name) => before.push(name),
            None => before,
        }
    }
}

/// The service names in a listing.
pub open spec fn listed_names(listing: json::JsonView) -> Seq<Seq<char>> {
    match listing.member_elements("Services"@) {
        Some(entries) => entry_names(entries),
        None => Seq::empty(),
    }
}

/// The service names in a listing.
pub fn service_names(listing: &Json) -> (r: Vec<String>)
    ensures
        text::views(r@) == listed_names(listing@),
{
    let mut r: Vec<String> = Vec::new();
    if let Some(entries) = listing.get_array("Services") {
        let ghost docs = json::documents(entries@);
        assert(docs.take(0) =~= Seq::empty());
        for i in 0..entries.len()
            invariant
                docs == json::documents(entries@),
                text::views(r@) =~= entry_names(docs.take(i as int)),
        {
            assert(docs.take(i + 1).drop_last() =~= docs.take(i as int));
            let ghost before = text::views(r@);
            if let Some(name) = entries[i].get_str("Name") {
                r.push(name.clone());
                assert(text::views(r@) =~= before.push(name@));
            }
        }
        assert(docs.take(docs.len() as int) =~= docs);
    }
    assert(text::views(r@) =~= listed_names(listing@));
    r
}

/// `r` is what the listing comes to: the names, or why there are none.
pub open spec fn services_listed_by(out: CliOutput, r: Result<Seq<Seq<char>>, Seq<char>>) -> bool {
    match (r, aws::reply(services_call(), out)) {
        (Ok(names), Ok(listing)) => names == listed_names(listing),
        (Err(e), Err(reason)) => e == reason,
        _ => false,
    }
}

/// The Cloud Map service names in the output of the listing call.
pub fn list_services(out: &CliOutput) -> (r: Result<Vec<String>, String>)
    ensures
        services_listed_by(
            *out,
            match r {
                Ok(names) => Ok(text::views(names@)),
                Err(e) => Err(e@),
            },
        ),
{
    match aws::run_json(&list_services_args(), out) {
        Ok(listing) => Ok(service_names(&listing)),
        Err(e) => Err(e),
    }
}

/// The first entry that bears the name.
pub open spec fn entry_named(entries: Seq<json::JsonView>, name: Seq<char>) -> Option<
    json::JsonView,
>
    decreases entries.len(),
{
    if entries.len() == 0 {
        None
    } else if entries[0].member_text("Name"@) == Some(name) {
        Some(entries[0])
    } else {
        entry_named(entries.drop_first(), name)
    }
}

/// The id of the first service that bears the name, where it has one.
pub open spec fn service_id(listing: json::JsonView, name: Seq<char>) -> Option<Seq<char>> {
    match listing.member_elements("Services"@) {
        Some(entries) => match entry_named(entries, name) {
            Some(entry) => entry.member_text("Id"@),
            None => None,
        },
        None => None,
    }
}

/// The id of the first service that bears the name, where it has one.
pub fn find_service_id(listing: &Json, name: &str) -> (r: Option<String>)
    ensures
        text::opt_view(r) == service_id(listing@, name@),
{
    match listing.get_array("Services") {
        Some(entries) => {
            let ghost docs = json::documents(entries@);
            assert(docs.skip(0) =~= docs);
            for i in 0..entries.len()
                invariant
                    docs == json::documents(entries@),
                    listing@.member_elements("Services"@) == Some(docs),
                    entry_named(docs, name@) == entry_named(docs.skip(i as int), name@),
            {
                assert(docs.skip(i as int).drop_first() =~= docs.skip(i + 1));
                assert(docs.skip(i as int)[0] == entries@[i as int]@);
                if let Some(found) = entries[i].get_str("Name") {
                    if text::str_eq(found.as_str(), name) {
                        return match entries[i].get_str("Id") {
                            Some(id) => Some(id.clone()),
                            None => None,
                        };
                    }
                }
            }
            None
        },
        None => None,
    }
}

/// Whether a registered instance is healthy: its attributes do not say that it
/// is unhealthy.
pub open spec fn healthy(entry: json::JsonView) -> bool {
    match entry.member("Attributes"@) {
        Some(attrs) => attrs.member_text("AWS_INIT_HEALTH_STATUS"@) != Some("UNHEALTHY"@),
        None => true,
    }
}

/// Whether a registered instance is healthy.
fn is_healthy(entry: &Json) -> (r: bool)
    ensures
        r == healthy(entry@),
{
    match entry.get("Attributes") {
        Some(attrs) => match attrs.get_str("AWS_INIT_HEALTH_STATUS") {
            Some(status) => !text::str_eq(status.as_str(), "UNHEALTHY"),
            None => true,
        },
        None => true,
    }
}

/// The first listed instance that is healthy.
pub open spec fn first_healthy(entries: Seq<json::JsonView>) -> Option<json::JsonView>
    decreases entries.len(),
{
    if entries.len() == 0 {
        None
    } else if healthy(entries[0]) {
        Some(entries[0])
    } else {
        first_healthy(entries.drop_first())
    }
}

/// The attributes of the first listed instance that is healthy.
pub open spec fn healthy_attributes(listing: json::JsonView) -> Option<json::JsonView> {
    match listing.member_elements("Instances"@) {
        Some(entries) => match first_healthy(entries) {
            Some(entry) => entry.member("Attributes"@),
            None => None,
        },
        None => None,
    }
}

/// The attributes of the first listed instance that is healthy.
fn attributes_of_healthy(listing: &Json) -> (r: Option<&Json>)
    ensures
        match r {
            Some(attrs) => healthy_attributes(listing@) == Some(attrs@),
            None => healthy_attributes(listing@) is None,
        },
{
    match listing.get_array("Instances") {
        Some(entries) => {
            let ghost docs = json::documents(entries@);
            assert(docs.skip(0) =~= docs);
            for i in 0..entries.len()
                invariant
                    docs == json::documents(entries@),
                    listing@.member_elements("Instances"@) == Some(docs),
                    first_healthy(docs) == first_healthy(docs.skip(i as int)),
            {
                assert(docs.skip(i as int).drop_first() =~= docs.skip(i + 1));
                assert(docs.skip(i as int)[0] == entries@[i as int]@);
                if is_healthy(&entries[i]) {
                    return entries[i].get("Attributes");
                }
            }
            None
        },
        None => None,
    }
}

/// The address of the first listed instance that is healthy, or what is missing.
pub open spec fn address(listing: json::JsonView, name: Seq<char>) -> Result<
    (Seq<char>, u16),
    Seq<char>,
> {
    let attrs = healthy_attributes(listing);
    match attrs {
        None => Err("no healthy instances registered for '"@ + name + "'"@),
        Some(attrs) => {
            let port = match attrs.member_text("AWS_INSTANCE_PORT"@) {
                Some(p) => text::u16_value(p),
                None => None,
            };
            match (attrs.member_text("AWS_INSTANCE_IPV4"@), port) {
                (Some(ip), Some(port)) => Ok((ip, port)),
                _ => Err("instance for '"@ + name + "' missing IPv4/port attributes"@),
            }
        },
    }
}

/// An address, or the reason why there is none, as mathematical values.
pub open spec fn address_view(r: Result<(String, u16), String>) -> Result<
    (Seq<char>, u16),
    Seq<char>,
> {
    match r {
        Ok((ip, port)) => Ok((ip@, port)),
        Err(e) => Err(e@),
    }
}

/// The address of the first listed healthy instance of the service `name`.
pub fn instance_address(listing: &Json, name: &str) -> (r: Result<(String, u16), String>)
    ensures
        address_view(r) == address(listing@, name@),
{
    match attributes_of_healthy(listing) {
        None => {
            let mut e = "no healthy instances registered for '".to_string();
            e.append(name);
            e.append("'");
            Err(e)
        },
        Some(attrs) => {
            let port: Option<u16> = match attrs.get_str("AWS_INSTANCE_PORT") {
                Some(p) => text::parse_u16(p.as_str()),
                None => None,
            };
            match (attrs.get_str("AWS_INSTANCE_IPV4"), port) {
                (Some(ip), Some(port)) => Ok((ip.clone(), port)),
                _ => {
                    let mut e = "instance for '".to_string();
                    e.append(name);
                    e.append("' missing IPv4/port attributes");
                    Err(e)
                },
            }
        },
    }
}

/// What has happened while a service name is being resolved.
#[derive(Debug)]
pub enum ResolveEvent {
    /// The resolution was asked for.
    Requested,
    /// The listing of the services has come back.
    Services(CliOutput),
    /// The listing of the instances of a service has come back.
    Instances { service_id: String, output: CliOutput },
}

/// What to do next to resolve a service name.
#[derive(Debug)]
pub enum ResolveAction {
    /// List the services.
    ListServices,
    /// List the instances of a service.
    ListInstances { service_id: String },
    /// The resolution is over.
    Done(Result<(String, u16), String>),
}

/// `ResolveAction` as a mathematical value.
pub enum ResolveActionView {
    ListServices,
    ListInstances { service_id: Seq<char> },
    Done(Result<(Seq<char>, u16), Seq<char>>),
}

impl View for ResolveAction {
    type V = ResolveActionView;

    open spec fn view(&self) -> ResolveActionView {
        match *self {
            ResolveAction::ListServices => ResolveActionView::ListServices,
            ResolveAction::ListInstances { service_id } => ResolveActionView::ListInstances {
                service_id: service_id@,
            },
            ResolveAction::Done(r) => ResolveActionView::Done(address_view(r)),
        }
    }
}

/// The step after a listing of the services.
pub open spec fn after_services(
    name: Seq<char>,
    listing: Result<json::JsonView, Seq<char>>,
) -> ResolveActionView {
    match listing {
        Err(e) => ResolveActionView::Done(Err(e)),
        Ok(listing) => match service_id(listing, name) {
            Some(id) => ResolveActionView::ListInstances { service_id: id },
            None => ResolveActionView::Done(
                Err("Cloud Map service '"@ + name + "' not found"@),
            ),
        },
    }
}

/// The step after a listing of the instances.
pub open spec fn after_instances(
    name: Seq<char>,
    listing: Result<json::JsonView, Seq<char>>,
) -> ResolveActionView {
    match listing {
        Err(e) => ResolveActionView::Done(Err(e)),
        Ok(listing) => ResolveActionView::Done(address(listing, name)),
    }
}

/// The step that an event leads to.
pub open spec fn resolve_step(name: Seq<char>, event: ResolveEvent) -> ResolveActionView {
    match event {
        ResolveEvent::Requested => ResolveActionView::ListServices,
        ResolveEvent::Services(out) => after_services(name, aws::reply(services_call(), out)),
        ResolveEvent::Instances { service_id, output } => after_instances(
            name,
            aws::reply(instances_call(service_id@), output),
        ),
    }
}

/// The step after a listing of the services was read.
pub fn services_listed(name: &str, listing: Result<Json, String>) -> (r: ResolveAction)
    ensures
        r@ == after_services(
            name@,
            match listing {
                Ok(j) => Ok(j@),
                Err(e) => Err(e@),
            },
        ),
{
    match listing {
        Err(e) => ResolveAction::Done(Err(e)),
        Ok(listing) => match find_service_id(&listing, name) {
            Some(id) => ResolveAction::ListInstances { service_id: id },
            None => {
                let mut e = "Cloud Map service '".to_string();
                e.append(name);
                e.append("' not found");
                ResolveAction::Done(Err(e))
            },
        },
    }
}

/// The step after a listing of the instances was read.
pub fn instances_listed(name: &str, listing: Result<Json, String>) -> (r: ResolveAction)
    ensures
        r@ == after_instances(
            name@,
            match listing {
                Ok(j) => Ok(j@),
                Err(e) => Err(e@),
            },
        ),
{
    match listing {
        Err(e) => ResolveAction::Done(Err(e)),
        Ok(listing) => ResolveAction::Done(instance_address(&listing, name)),
    }
}

/// Resolves a Cloud Map service name to the `(ip, port)` of a healthy registered
/// instance, one event at a time.
pub fn resolve(name: &str, event: ResolveEvent) -> (r: ResolveAction)
    ensures
        r@ == resolve_step(name@, event),
{
    match event {
        ResolveEvent::Requested => ResolveAction::ListServices,
        ResolveEvent::Services(out) => services_listed(
            name,
            aws::run_json(&list_services_args(), &out),
        ),
        ResolveEvent::Instances { service_id, output } => instances_listed(
            name,
            aws::run_json(&list_instances_args(service_id.as_str()), &output),
        ),
    }
}

/// No unhealthy instance is handed out: an address is that of a listed healthy
/// instance, the first one.
pub proof fn law_addresses_are_healthy(listing: json::JsonView, name: Seq<char>)
    requires
        address(listing, name) is Ok,
    ensures
        ({
            let entries = listing.member_elements("Instances"@)->0;
            exists|i: int| #![trigger entries[i]]
                {
                    &&& 0 <= i < entries.len()
                    &&& healthy(entries[i])
                    &&& entries[i].member("Attributes"@) is Some
                    &&& entries[i].member("Attributes"@)->0.member_text("AWS_INSTANCE_IPV4"@)
                        == Some(address(listing, name)->Ok_0.0)
                    &&& text::u16_value(
                        entries[i].member("Attributes"@)->0.member_text("AWS_INSTANCE_PORT"@)->0,
                    ) == Some(address(listing, name)->Ok_0.1)
                    &&& forall|j: int| 0 <= j < i ==> !healthy(#[trigger] entries[j])
                }
        }),
{
    lemma_first_healthy(listing.member_elements("Instances"@)->0);
}

proof fn lemma_first_healthy(entries: Seq<json::JsonView>)
    requires
        first_healthy(entries) is Some,
    ensures
        exists|i: int| #![trigger entries[i]]
            {
                &&& 0 <= i < entries.len()
                &&& healthy(entries[i])
                &&& first_healthy(entries) == Some(entries[i])
                &&& forall|j: int| 0 <= j < i ==> !healthy(#[trigger] entries[j])
            },
    decreases entries.len(),
{
    if healthy(entries[0]) {
        assert(entries[0] == entries[0]);
    } else {
        let rest = entries.drop_first();
        lemma_first_healthy(rest);
        let k = choose|i: int| #![trigger rest[i]]
            {
                &&& 0 <= i < rest.len()
                &&& healthy(rest[i])
                &&& first_healthy(rest) == Some(rest[i])
                &&& forall|j: int| 0 <= j < i ==> !healthy(#[trigger] rest[j])
            };
        assert(entries[k + 1] == rest[k]);
        assert forall|j: int| 0 <= j < k + 1 implies !healthy(#[trigger] entries[j]) by {
            if j > 0 {
                assert(rest[j - 1] == entries[j]);
            }
        }
    }
}

} // verus!
