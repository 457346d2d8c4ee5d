//! What the mathematical counterparts of values say: what the values hold, field
//! by field, and nothing else.

use vstd::prelude::*;

use crate::aws::discovery;
use crate::aws::discovery::ResolveAction;
use crate::aws::profiles::{Profile, Section, SsoSession};
use crate::aws::rds::RdsInstance;
use crate::event;
use crate::event::Action;
use crate::json::{Json, JsonView};
use crate::text;
use crate::tunnel;
use crate::tunnel::{
    Command, CommandFacts, StartAction, StartEvent, Status, TickEvent, TickReport, Tunnel,
    TunnelKind,
};
use crate::ui::{Detail, Frame, Panel, Span};

verus! {

/// Optional strings and lists of strings.
pub proof fn law_strings(s: Option<String>, list: Seq<String>, i: int)
    ensures
        text::opt_view(s) is Some <==> s is Some,
        s matches Some(x) ==> text::opt_view(s) == Some(x@),
        text::views(list).len() == list.len(),
        0 <= i < list.len() ==> text::views(list)[i] == list[i]@,
{
}

/// A tunnel.
pub proof fn law_tunnels(t: Tunnel, i: int)
    ensures
        t@.name == t.name@,
        t@.group == t.group,
        t@.kind == t.kind@,
        t.profile is None ==> t@.profile is None,
        t.profile matches Some(p) ==> t@.profile == Some(p@),
        t@.region == t.region@,
        t.bastion is None ==> t@.bastion is None,
        t.bastion matches Some(b) ==> t@.bastion == Some(b@),
        t@.local_port == t.local_port,
        t@.status == t.status@,
        t@.log.len() == t.log@.len(),
        0 <= i < t.log@.len() ==> t@.log[i] == t.log@[i]@,
        t@.child == t.child,
        t@.pgid == t.pgid,
{
}

/// What a tunnel leads to, and what it is doing.
pub proof fn law_kinds_and_statuses(kind: TunnelKind, status: Status)
    ensures
        kind matches TunnelKind::SsmService { service_name } ==> kind@ == (
        tunnel::KindView::SsmService { service_name: service_name@ }),
        kind matches TunnelKind::SsmRds { endpoint, remote_port } ==> kind@ == (
        tunnel::KindView::SsmRds { endpoint: endpoint@, remote_port }),
        kind matches TunnelKind::Ssh { pem, elb_host, remote_port, ec2_host, ec2_user } ==> kind@
            == (tunnel::KindView::Ssh {
            pem: pem@,
            elb_host: elb_host@,
            remote_port,
            ec2_host: ec2_host@,
            ec2_user: ec2_user@,
        }),
        status is Stopped <==> status@ is Stopped,
        status is Starting <==> status@ is Starting,
        status is Running <==> status@ is Running,
        status is External <==> status@ is External,
        status matches Status::Failed(why) ==> status@ == tunnel::StatusView::Failed(why@),
{
}

/// What happens to a tunnel.
pub proof fn law_events(
    start: StartEvent,
    facts: CommandFacts,
    tick: TickEvent,
    report: TickReport,
)
    ensures
        start is Requested ==> start@ is Requested,
        start matches StartEvent::Probed(open) ==> start@ == tunnel::StartEventView::Probed(open),
        start matches StartEvent::Facts(f) ==> start@ == tunnel::StartEventView::Facts(f@),
        start matches StartEvent::Spawned(r) ==> (start@ matches tunnel::StartEventView::Spawned(v)
            && match (r, v) {
            (Ok(pid), Ok(p)) => pid == p,
            (Err(e), Err(why)) => e@ == why,
            _ => false,
        }),
        facts is Nothing ==> facts@ is Nothing,
        facts matches CommandFacts::Resolved(r) ==> (facts@ matches tunnel::FactsView::Resolved(v)
            && match (r, v) {
            (Ok(a), Ok(b)) => a.0@ == b.0 && a.1 == b.1,
            (Err(e), Err(why)) => e@ == why,
            _ => false,
        }),
        facts matches CommandFacts::PemMode(m) ==> facts@ == tunnel::FactsView::PemMode(m),
        tick matches TickEvent::Waited(exit) ==> (tick@ matches tunnel::TickEventView::Waited(v)
            && match (exit, v) {
            (Some(e), Some(how)) => e@ == how,
            (None, None) => true,
            _ => false,
        }),
        tick matches TickEvent::Probed(open) ==> tick@ == tunnel::TickEventView::Probed(open),
        report matches TickReport::Exited(exit) ==> report@ == tunnel::TickReportView::Exited(
            exit@,
        ),
        report matches TickReport::Port(open) ==> report@ == tunnel::TickReportView::Port(open),
{
}

/// What is to be done next.
pub proof fn law_actions(start: StartAction, resolve: ResolveAction, action: Action)
    ensures
        start is Done <==> start@ is Done,
        start is Probe <==> start@ is Probe,
        start matches StartAction::Resolve { profile, region, service_name } ==> start@ == (
        tunnel::StartActionView::Resolve {
            profile: profile@,
            region: region@,
            service_name: service_name@,
        }),
        start matches StartAction::ReadPemMode(pem) ==> start@
            == tunnel::StartActionView::ReadPemMode(pem@),
        start matches StartAction::Spawn(c) ==> start@ == tunnel::StartActionView::Spawn(c@),
        resolve is ListServices <==> resolve@ is ListServices,
        resolve matches ResolveAction::ListInstances { service_id } ==> resolve@ == (
        discovery::ResolveActionView::ListInstances { service_id: service_id@ }),
        resolve matches ResolveAction::Done(r) ==> (
        resolve@ matches discovery::ResolveActionView::Done(v) && match (r, v) {
            (Ok(a), Ok(b)) => a.0@ == b.0 && a.1 == b.1,
            (Err(e), Err(why)) => e@ == why,
            _ => false,
        }),
        action is Nothing <==> action@ is Nothing,
        action is Refresh <==> action@ is Refresh,
        action matches Action::Start(v) ==> action@ == event::ActionView::Start(v@),
        action matches Action::Signal(v) ==> action@ == event::ActionView::Signal(v@),
        action matches Action::Discover { profile, region } ==> action@ == (
        event::ActionView::Discover { profile: profile@, region: region@ }),
        action matches Action::Login(s) ==> action@ == event::ActionView::Login(s@),
{
}

/// A command, a database, a profile, a session, and a section of a config file.
pub proof fn law_records(
    c: Command,
    d: RdsInstance,
    p: Profile,
    s: SsoSession,
    section: Section,
    i: int,
)
    ensures
        c@.program == c.program@,
        c@.args.len() == c.args@.len(),
        0 <= i < c.args@.len() ==> c@.args[i] == c.args@[i]@,
        d@.identifier == d.identifier@,
        d@.endpoint == d.endpoint@,
        d@.port == d.port,
        d@.engine == d.engine@,
        p@.name == p.name@,
        p@.sso_session == text::opt_view(p.sso_session),
        p@.account_id == text::opt_view(p.account_id),
        p@.role == text::opt_view(p.role),
        p@.region == text::opt_view(p.region),
        s@.name == s.name@,
        s@.start_url == text::opt_view(s.start_url),
        s@.region == text::opt_view(s.region),
        section@.name == section.name@,
        section@.keys.len() == section.keys@.len(),
        0 <= i < section.keys@.len() ==> section@.keys[i].0 == section.keys@[i].0@
            && section@.keys[i].1 == text::opt_view(section.keys@[i].1),
{
}

/// A JSON document.
pub proof fn law_documents(j: Json, i: int)
    ensures
        j is Null ==> j@ is Null,
        j matches Json::Bool(b) ==> j@ == JsonView::Bool(b),
        j matches Json::Number(n) ==> j@ == JsonView::Number(n),
        j matches Json::Text(s) ==> j@ == JsonView::Text(s@),
        j matches Json::List(items) ==> (j@ matches JsonView::List(v) && v.len() == items@.len()
            && (0 <= i < items@.len() ==> v[i] == items@[i]@)),
        j matches Json::Object(fields) ==> (j@ matches JsonView::Object(v) && v.len()
            == fields@.len() && (0 <= i < fields@.len() ==> v[i] == (
            fields@[i].0@,
            fields@[i].1@,
        ))),
{
}

/// What stands on the screen.
pub proof fn law_panels(span: Span, frame: Frame, panel: Panel, detail: Detail, i: int, k: int)
    ensures
        span@.text == span.text@ && span@.style == span.style,
        frame@.title == frame.title@ && frame@.border == frame.border,
        panel@.frame == panel.frame@,
        panel@.selected == panel.selected,
        panel@.highlight == panel.highlight,
        panel@.symbol == panel.symbol@,
        panel@.rows.len() == panel.rows@.len(),
        0 <= i < panel.rows@.len() ==> panel@.rows[i].len() == panel.rows@[i]@.len() && (0 <= k
            < panel.rows@[i]@.len() ==> panel@.rows[i][k] == panel.rows@[i]@[k]@),
        detail@.frame == detail.frame@,
        detail@.wrap == detail.wrap,
        detail@.rows.len() == detail.rows@.len(),
        0 <= i < detail.rows@.len() ==> detail@.rows[i].len() == detail.rows@[i]@.len() && (0 <= k
            < detail.rows@[i]@.len() ==> detail@.rows[i][k] == detail.rows@[i]@[k]@),
{
}

} // verus!
