//! What holds of tunnels: their commands, and how they come and go.

use vstd::prelude::*;

use crate::laws::strings;
use crate::text;
use crate::tunnel;
use crate::tunnel::{Group, StopSignals, TickAction};

verus! {

/// The command forwards a local port to a port of a host: an SSM session on the
/// bastion, with the profile and in the region of the tunnel.
pub open spec fn forwards(
    c: tunnel::CommandView,
    t: tunnel::TunnelView,
    host: Seq<char>,
    remote_port: u16,
) -> bool {
    &&& c.program == "aws"@
    &&& c.args.len() == 12
    &&& c.args[0] == "ssm"@
    &&& c.args[1] == "start-session"@
    &&& c.args[2] == "--target"@
    &&& t.bastion matches Some(b) ==> c.args[3] == b
    &&& t.bastion is None ==> c.args[3].len() == 0
    &&& c.args[4] == "--region"@
    &&& c.args[5] == t.region
    &&& c.args[6] == "--profile"@
    &&& t.profile matches Some(p) ==> c.args[7] == p
    &&& t.profile is None ==> c.args[7] == "default"@
    &&& c.args[8] == "--document-name"@
    &&& c.args[9] == "AWS-StartPortForwardingSessionToRemoteHost"@
    &&& c.args[10] == "--parameters"@
    &&& c.args[11] == "{\"host\":[\""@ + host + "\"],\"portNumber\":[\""@ + text::decimal_digits(
        remote_port as nat,
    ) + "\"],\"localPortNumber\":[\""@ + text::decimal_digits(t.local_port as nat) + "\"]}"@
}

/// The command of a tunnel to a database goes to the endpoint and the remote
/// port that the tunnel holds, and to its own local port.
pub proof fn law_database_commands(
    t: tunnel::TunnelView,
    endpoint: Seq<char>,
    remote_port: u16,
    facts: tunnel::FactsView,
)
    requires
        t.kind == (tunnel::KindView::SsmRds { endpoint, remote_port }),
    ensures
        t.command(facts) matches Ok(c) && forwards(c, t, endpoint, remote_port),
        t.start_step(tunnel::StartEventView::Probed(false)).1 matches tunnel::StartActionView::Spawn(
            c,
        ) && forwards(c, t, endpoint, remote_port),
{
}

/// The command of a tunnel to a service goes to the address that its name
/// resolved to; where it did not resolve there is no command but the reason.
pub proof fn law_service_commands(
    t: tunnel::TunnelView,
    service_name: Seq<char>,
    resolved: Result<(Seq<char>, u16), Seq<char>>,
)
    requires
        t.kind == (tunnel::KindView::SsmService { service_name }),
    ensures
        t.start_step(tunnel::StartEventView::Probed(false)).1 matches tunnel::StartActionView::Resolve {
            profile,
            region,
            service_name: wanted,
        } && wanted == service_name && region == t.region && (t.profile matches Some(p)
            ==> profile == p) && (t.profile is None ==> profile == "default"@),
        match resolved {
            Ok((ip, port)) => {
                &&& t.command(tunnel::FactsView::Resolved(resolved)) matches Ok(c) && forwards(
                    c,
                    t,
                    ip,
                    port,
                )
                &&& t.start_step(
                    tunnel::StartEventView::Facts(tunnel::FactsView::Resolved(resolved)),
                ).1 matches tunnel::StartActionView::Spawn(c) && forwards(c, t, ip, port)
            },
            Err(why) => {
                &&& t.command(tunnel::FactsView::Resolved(resolved)) == Err::<
                    tunnel::CommandView,
                    Seq<char>,
                >(why)
                &&& t.start_step(
                    tunnel::StartEventView::Facts(tunnel::FactsView::Resolved(resolved)),
                ).0.status == tunnel::StatusView::Failed(why)
            },
        },
{
}

/// The command of an ssh tunnel forwards the local port to the load balancer
/// through the bastion, with the key, and only with a key that is private.
pub proof fn law_ssh_commands(
    t: tunnel::TunnelView,
    pem: Seq<char>,
    elb_host: Seq<char>,
    remote_port: u16,
    ec2_host: Seq<char>,
    ec2_user: Seq<char>,
    mode: Option<u32>,
)
    requires
        t.kind == (tunnel::KindView::Ssh { pem, elb_host, remote_port, ec2_host, ec2_user }),
    ensures
        t.start_step(tunnel::StartEventView::Probed(false)).1
            == tunnel::StartActionView::ReadPemMode(pem),
        (mode matches Some(m) && m & 0o077 == 0) ==> {
            &&& t.command(tunnel::FactsView::PemMode(mode)) matches Ok(c) && c.program == "ssh"@
                && c.args.len() == 16 && c.args[0] == "-i"@ && c.args[1] == pem && c.args[2]
                == "-L"@ && c.args[3] == text::decimal_digits(t.local_port as nat) + ":"@
                + elb_host + ":"@ + text::decimal_digits(remote_port as nat) && c.args[4]
                == ec2_user + "@"@ + ec2_host && c.args[5] == "-N"@ && c.args.skip(6) == seq![
                "-o"@,
                "StrictHostKeyChecking=accept-new"@,
                "-o"@,
                "ExitOnForwardFailure=yes"@,
                "-o"@,
                "ConnectTimeout=10"@,
                "-o"@,
                "ServerAliveInterval=30"@,
                "-o"@,
                "BatchMode=yes"@,
            ]
            &&& t.start_step(
                tunnel::StartEventView::Facts(tunnel::FactsView::PemMode(mode)),
            ).1 == tunnel::StartActionView::Spawn(
                t.command(tunnel::FactsView::PemMode(mode))->Ok_0,
            )
        },
        (mode matches Some(m) && m & 0o077 != 0) ==> {
            &&& t.command(tunnel::FactsView::PemMode(mode)) == Err::<
                tunnel::CommandView,
                Seq<char>,
            >(
                "pem "@ + pem + " has permissions "@ + text::octal_digits(
                    (mode->0 & 0o777) as nat,
                ) + " — ssh requires 0600 or stricter (chmod 600)"@,
            )
            &&& t.start_step(
                tunnel::StartEventView::Facts(tunnel::FactsView::PemMode(mode)),
            ).1 is Done
        },
        mode is None ==> {
            &&& t.command(tunnel::FactsView::PemMode(mode)) == Err::<
                tunnel::CommandView,
                Seq<char>,
            >("pem not found: "@ + pem)
            &&& t.start_step(
                tunnel::StartEventView::Facts(tunnel::FactsView::PemMode(mode)),
            ).1 is Done
        },
{
    if let Some(m) = mode {
        assert(m & 0o077 == m % 64) by (bit_vector);
        assert(m & 0o777 == m % 512) by (bit_vector);
        if m & 0o077 == 0 {
            let c = t.command(tunnel::FactsView::PemMode(mode))->Ok_0;
            assert(c.args.skip(6) =~= seq![
                "-o"@,
                "StrictHostKeyChecking=accept-new"@,
                "-o"@,
                "ExitOnForwardFailure=yes"@,
                "-o"@,
                "ConnectTimeout=10"@,
                "-o"@,
                "ServerAliveInterval=30"@,
                "-o"@,
                "BatchMode=yes"@,
            ]);
        }
    }
}

/// Tunnels to the same host that differ in the remote port, or in the local
/// port, run different commands.
pub proof fn law_commands_tell_ports_apart(
    s: tunnel::TunnelView,
    t: tunnel::TunnelView,
    endpoint: Seq<char>,
    p: u16,
    q: u16,
    facts: tunnel::FactsView,
)
    requires
        s.kind == (tunnel::KindView::SsmRds { endpoint, remote_port: p }),
        t.kind == (tunnel::KindView::SsmRds { endpoint, remote_port: q }),
        s.local_port == t.local_port ==> p != q,
        p == q ==> s.local_port != t.local_port,
        s.local_port == t.local_port || p == q,
    ensures
        s.command(facts)->Ok_0 != t.command(facts)->Ok_0,
{
    law_database_commands(s, endpoint, p, facts);
    law_database_commands(t, endpoint, q, facts);
    let a = s.command(facts)->Ok_0.args[11];
    let b = t.command(facts)->Ok_0.args[11];
    let front = "{\"host\":[\""@ + endpoint + "\"],\"portNumber\":[\""@;
    let mid = "\"],\"localPortNumber\":[\""@;
    let end = "\"]}"@;
    let dp = text::decimal_digits(p as nat);
    let dq = text::decimal_digits(q as nat);
    let ds = text::decimal_digits(s.local_port as nat);
    let dt = text::decimal_digits(t.local_port as nat);
    if a == b {
        assert(a == front + dp + mid + ds + end);
        assert(b == front + dq + mid + dt + end);
        if p == q {
            let head = front + dp + mid;
            assert(ds.len() == dt.len());
            assert(ds =~= a.subrange(head.len() as int, (head.len() + ds.len()) as int));
            assert(dt =~= b.subrange(head.len() as int, (head.len() + dt.len()) as int));
            strings::law_decimal_numerals_differ(s.local_port as nat, t.local_port as nat);
        } else {
            assert(dp.len() == dq.len());
            assert(dp =~= a.subrange(front.len() as int, (front.len() + dp.len()) as int));
            assert(dq =~= b.subrange(front.len() as int, (front.len() + dq.len()) as int));
            strings::law_decimal_numerals_differ(p as nat, q as nat);
        }
    }
}

/// The preview shows the target, the profile, the remote end and the local port.
pub proof fn law_previews(t: tunnel::TunnelView, bastion: Seq<char>, profile: Seq<char>)
    requires
        t.bastion matches Some(b) ==> bastion == b,
        t.bastion is None ==> bastion == "?"@,
        t.profile matches Some(p) ==> profile == p,
        t.profile is None ==> profile == "?"@,
    ensures
        t.kind matches tunnel::KindView::SsmService { service_name } ==> t.preview()
            == "aws ssm start-session --target "@ + bastion + " --profile "@ + profile
            + " (resolve "@ + service_name + " via Cloud Map) -> localhost:"@
            + text::decimal_digits(t.local_port as nat),
        t.kind matches tunnel::KindView::SsmRds { endpoint, remote_port } ==> t.preview()
            == "aws ssm start-session --target "@ + bastion + " --profile "@ + profile + " "@
            + endpoint + ":"@ + text::decimal_digits(remote_port as nat) + " -> localhost:"@
            + text::decimal_digits(t.local_port as nat),
        t.kind matches tunnel::KindView::Ssh {
            pem,
            elb_host,
            remote_port,
            ec2_host,
            ec2_user,
        } ==> t.preview() == "ssh "@ + ec2_user + "@"@ + ec2_host + " -L "@
            + text::decimal_digits(t.local_port as nat) + ":"@ + elb_host + ":"@
            + text::decimal_digits(remote_port as nat),
{
}

/// The words for what a tunnel is doing, and the titles of the groups.
pub proof fn law_words(status: tunnel::StatusView, group: Group)
    ensures
        status is Stopped ==> status.word() == "stopped"@,
        status is Starting ==> status.word() == "starting"@,
        status is Running ==> status.word() == "running"@,
        status is Failed ==> status.word() == "failed"@,
        status is External ==> status.word() == "external"@,
        group == Group::Services ==> group.heading() == "Services"@,
        group == Group::Databases ==> group.heading() == "Databases"@,
        group == Group::Temporal ==> group.heading() == "Temporal"@,
{
}

/// A log gains the line at its end and keeps its last two hundred lines.
pub proof fn law_logging(t: tunnel::TunnelView, line: Seq<char>, i: int)
    ensures
        t.logged(line) == (tunnel::TunnelView { log: t.logged(line).log, ..t }),
        t.log.len() < 200 ==> t.logged(line).log == t.log.push(line),
        t.log.len() >= 200 ==> t.logged(line).log.len() == 200,
        0 <= i < t.logged(line).log.len() ==> t.logged(line).log[t.logged(line).log.len() - 1 - i]
            == t.log.push(line)[t.log.len() - i],
{
}

/// Asking for a start leaves a tunnel with a process alone, and otherwise asks
/// first whether the local port is taken.
pub proof fn law_a_start_probes_first(t: tunnel::TunnelView)
    ensures
        t.start_step(tunnel::StartEventView::Requested).0 == t,
        t.child ==> t.start_step(tunnel::StartEventView::Requested).1 is Done,
        !t.child ==> t.start_step(tunnel::StartEventView::Requested).1 is Probe,
{
}

/// A tunnel whose port is taken is shown as external, says so in its log, and
/// nothing is spawned.
pub proof fn law_a_taken_port_is_not_fought_over(t: tunnel::TunnelView)
    ensures
        ({
            let (after, action) = t.start_step(tunnel::StartEventView::Probed(true));
            &&& action is Done
            &&& after.status is External
            &&& after.log.last() == "local port "@ + text::decimal_digits(t.local_port as nat)
                + " already in use — not starting (external)"@
            &&& t.log.len() < 200 ==> after.log.drop_last() == t.log
            &&& after == (tunnel::TunnelView { status: after.status, log: after.log, ..t })
        }),
{
    let after = t.start_step(tunnel::StartEventView::Probed(true)).0;
    if t.log.len() < 200 {
        assert(after.log.drop_last() =~= t.log);
    }
}

/// A tunnel whose port is free is starting, with a fresh log.
pub proof fn law_a_start_clears_the_log(t: tunnel::TunnelView)
    ensures
        ({
            let (after, action) = t.start_step(tunnel::StartEventView::Probed(false));
            &&& after.status is Starting
            &&& after == (tunnel::TunnelView { status: after.status, log: after.log, ..t })
            &&& !(t.kind is SsmRds) ==> after.log.len() == 0
            &&& t.kind is SsmRds ==> (action matches tunnel::StartActionView::Spawn(c)
                && after.log == seq!["$ "@ + c.program + " "@ + text::joined(c.args, " "@)])
        }),
{
    let after = t.start_step(tunnel::StartEventView::Probed(false)).0;
    if t.kind is SsmRds {
        let c = t.start_step(tunnel::StartEventView::Probed(false)).1->Spawn_0;
        assert(after.log =~= seq!["$ "@ + c.program + " "@ + text::joined(c.args, " "@)]);
    }
}

/// Once the facts are known the command is spawned, and stands in the log, or
/// the start has failed with the reason, which stands in the log.
pub proof fn law_facts_decide_a_start(t: tunnel::TunnelView, facts: tunnel::FactsView)
    ensures
        ({
            let (after, action) = t.start_step(tunnel::StartEventView::Facts(facts));
            &&& after.child == t.child
            &&& after.pgid == t.pgid
            &&& t.command(facts) matches Ok(c) ==> action == tunnel::StartActionView::Spawn(c)
                && after.status == t.status && after.log.last() == "$ "@ + c.program + " "@
                + text::joined(c.args, " "@)
            &&& t.command(facts) matches Err(why) ==> action is Done && after.status
                == tunnel::StatusView::Failed(why) && after.log.last() == "start failed: "@ + why
        }),
{
}

/// A spawned process is held, with its group; one that could not be spawned is
/// a failure that names the program and the reason.
pub proof fn law_spawning(t: tunnel::TunnelView, pid: Option<i32>, why: Seq<char>)
    ensures
        t.start_step(tunnel::StartEventView::Spawned(Ok(pid))) == (
            tunnel::TunnelView { child: true, pgid: pid, ..t },
            tunnel::StartActionView::Done,
        ),
        ({
            let (after, action) = t.start_step(tunnel::StartEventView::Spawned(Err(why)));
            let program = if t.kind is Ssh {
                "ssh"@
            } else {
                "aws"@
            };
            &&& action is Done
            &&& after.child == t.child
            &&& after.pgid == t.pgid
            &&& after.status == tunnel::StatusView::Failed(
                "failed to spawn "@ + program + ": "@ + why,
            )
            &&& after.log.last() == "failed to spawn "@ + program + ": "@ + why
        }),
{
}

/// An exit of the process of a tunnel that was coming up or up is a failure: its
/// reason is the last line of the log that says something, or else how the
/// process exited. Either way no process is held any more.
pub proof fn law_exits(t: tunnel::TunnelView, exit: Seq<char>)
    ensures
        ({
            let (after, action) = t.tick_step(tunnel::TickEventView::Waited(Some(exit)));
            &&& action == TickAction::Done
            &&& after == (tunnel::TunnelView {
                status: after.status,
                child: false,
                pgid: None,
                ..t
            })
            &&& after == t.ticked(tunnel::TickReportView::Exited(exit))
            &&& after.status is Failed <==> t.status is Starting || t.status is Running
            &&& after.status is Stopped <==> !(t.status is Starting || t.status is Running)
            &&& after.status matches tunnel::StatusView::Failed(why) ==> {
                ||| (forall|j: int| 0 <= j < t.log.len() ==> strings::all_space(#[trigger] t.log[j]))
                    && why == exit
                ||| exists|i: int| #![trigger t.log[i]]
                    0 <= i < t.log.len() && t.log[i] == why && !strings::all_space(why)
                        && forall|j: int|
                        i < j < t.log.len() ==> strings::all_space(#[trigger] t.log[j])
            }
        }),
{
    let i = strings::law_last_text(t.log);
    if text::last_text(t.log) is Some {
        assert(t.log[i] == text::last_text(t.log)->0);
    }
}

/// What a probe of the port shows, and all that it changes.
pub proof fn law_probes(t: tunnel::TunnelView, open: bool)
    ensures
        t.tick_step(tunnel::TickEventView::Waited(None)) == (t, TickAction::Probe),
        ({
            let (after, action) = t.tick_step(tunnel::TickEventView::Probed(open));
            &&& action == TickAction::Done
            &&& after == t.ticked(tunnel::TickReportView::Port(open))
            &&& after == (tunnel::TunnelView { status: after.status, ..t })
            &&& t.child && (t.status is Starting || t.status is Running) ==> after.status == (
            if open {
                tunnel::StatusView::Running
            } else {
                tunnel::StatusView::Starting
            })
            &&& !t.child && (t.status is Stopped || t.status is External) ==> after.status == (
            if open {
                tunnel::StatusView::External
            } else {
                tunnel::StatusView::Stopped
            })
            &&& t.status is Failed ==> after.status == t.status
            &&& !t.child && (t.status is Starting || t.status is Running) ==> after.status
                == t.status
            &&& t.child && (t.status is Stopped || t.status is External) ==> after.status
                == t.status
        }),
{
}

/// The tunnel after a number of ticks on which its process had not exited.
pub open spec fn after_probes(t: tunnel::TunnelView, opens: Seq<bool>) -> tunnel::TunnelView
    decreases opens.len(),
{
    if opens.len() == 0 {
        t
    } else {
        after_probes(t, opens.drop_last()).ticked(tunnel::TickReportView::Port(opens.last()))
    }
}

/// A failure stays shown, with its reason, through every probe of the port until
/// the tunnel is started or stopped.
pub proof fn law_failures_stay(t: tunnel::TunnelView, why: Seq<char>, opens: Seq<bool>)
    requires
        t.status == tunnel::StatusView::Failed(why),
    ensures
        after_probes(t, opens) == t,
    decreases opens.len(),
{
    if opens.len() > 0 {
        law_failures_stay(t, why, opens.drop_last());
    }
}

/// The last probe alone decides what is shown of a tunnel that is not failed.
pub proof fn law_the_last_probe_counts(t: tunnel::TunnelView, opens: Seq<bool>, open: bool)
    requires
        t.settled(),
        !(t.status is Failed),
    ensures
        after_probes(t, opens.push(open)) == after_probes(t, seq![open]),
    decreases opens.len(),
{
    assert(opens.push(open).drop_last() =~= opens);
    assert(seq![open].drop_last() =~= Seq::empty());
    assert(after_probes(t, Seq::empty()) == t);
    assert(after_probes(t, seq![open]) == t.ticked(tunnel::TickReportView::Port(open)));
    assert(after_probes(t, opens.push(open)) == after_probes(t, opens).ticked(
        tunnel::TickReportView::Port(open),
    ));
    if opens.len() > 0 {
        law_the_last_probe_counts(t, opens.drop_last(), opens.last());
        assert(opens =~= opens.drop_last().push(opens.last()));
        assert(seq![opens.last()].drop_last() =~= Seq::empty());
        assert(after_probes(t, seq![opens.last()]) == t.ticked(
            tunnel::TickReportView::Port(opens.last()),
        ));
    } else {
        assert(opens =~= Seq::empty());
    }
}

/// A stop lets go of the process and its group, signals exactly these, and says
/// so in the log.
pub proof fn law_stops(t: tunnel::TunnelView)
    ensures
        t.signals() == (StopSignals { group: t.pgid, child: t.child }),
        t.stopped() == (tunnel::TunnelView {
            status: tunnel::StatusView::Stopped,
            child: false,
            pgid: None,
            log: t.stopped().log,
            ..t
        }),
        t.stopped().log.last() == "stopped"@,
        t.log.len() < 200 ==> t.stopped().log == t.log.push("stopped"@),
{
}

/// Something is under way exactly while a process is held or the tunnel is
/// starting or running.
pub proof fn law_activity(t: tunnel::TunnelView)
    ensures
        t.active() <==> t.child || t.status is Starting || t.status is Running,
{
}

/// What a command needs to know: where the service is, for a service; nothing,
/// for a database; the mode of the key file, for ssh. A start can be told of
/// anything else at any time.
pub proof fn law_what_a_command_needs(t: tunnel::TunnelView, event: tunnel::StartEventView)
    ensures
        t.kind is SsmService && t.accepts(event) && event is Facts ==> event->Facts_0 is Resolved,
        t.kind is SsmRds && t.accepts(event) && event is Facts ==> event->Facts_0 is Nothing,
        t.kind is Ssh && t.accepts(event) && event is Facts ==> event->Facts_0 is PemMode,
        t.kind is SsmService && event is Facts && event->Facts_0 is Resolved ==> t.accepts(event),
        t.kind is SsmRds && event is Facts && event->Facts_0 is Nothing ==> t.accepts(event),
        t.kind is Ssh && event is Facts && event->Facts_0 is PemMode ==> t.accepts(event),
        !(event is Facts) ==> t.accepts(event),
{
}

} // verus!
