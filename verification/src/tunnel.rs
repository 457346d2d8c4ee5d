//! One tunnel: what it connects, how it is brought up, and its life cycle.
//!
//! A tunnel is driven from outside: `start` and `tick` take what has happened
//! and answer with what to do next, and `stop` answers with what to signal.

use vstd::prelude::*;

use crate::aws::discovery;
use crate::text;

verus! {

/// How many log lines a tunnel keeps.
pub const LOG_CAP: usize = 200;

/// Which panel group a tunnel belongs to. Order is the display order.
#[derive(Debug, Clone, Copy, PartialEq, Eq, PartialOrd, Ord, Structural)]
pub enum Group {
    Services,
    Databases,
    Temporal,
}

impl Group {
    /// The heading of the group.
    pub open spec fn heading(self) -> Seq<char> {
        match self {
            Group::Services => "Services"@,
            Group::Databases => "Databases"@,
            Group::Temporal => "Temporal"@,
        }
    }

    /// The heading of the group.
    pub fn title(&self) -> (r: &'static str)
        ensures
            r@ == self.heading(),
    {
        match self {
            Group::Services => "Services",
            Group::Databases => "Databases",
            Group::Temporal => "Temporal",
        }
    }

    /// All groups in display order.
    pub const ALL: [Group; 3] = [Group::Services, Group::Databases, Group::Temporal];
}

/// How a tunnel is established.
#[derive(Debug, Clone)]
pub enum TunnelKind {
    /// SSM port-forward to a Cloud Map service; endpoint resolved live at start.
    SsmService { service_name: String },
    /// SSM port-forward to a fixed remote host (RDS endpoint).
    SsmRds { endpoint: String, remote_port: u16 },
    /// `ssh -L` through a bastion (Temporal UIs).
    Ssh {
        pem: String,
        elb_host: String,
        remote_port: u16,
        ec2_host: String,
        ec2_user: String,
    },
}

/// `TunnelKind` as a mathematical value.
pub enum KindView {
    SsmService { service_name: Seq<char> },
    SsmRds { endpoint: Seq<char>, remote_port: u16 },
    Ssh {
        pem: Seq<char>,
        elb_host: Seq<char>,
        remote_port: u16,
        ec2_host: Seq<char>,
        ec2_user: Seq<char>,
    },
}

impl View for TunnelKind {
    type V = KindView;

    open spec fn view(&self) -> KindView {
        match *self {
            TunnelKind::SsmService { service_name } => KindView::SsmService {
                service_name: service_name@,
            },
            TunnelKind::SsmRds { endpoint, remote_port } => KindView::SsmRds {
                endpoint: endpoint@,
                remote_port,
            },
            TunnelKind::Ssh { pem, elb_host, remote_port, ec2_host, ec2_user } => KindView::Ssh {
                pem: pem@,
                elb_host: elb_host@,
                remote_port,
                ec2_host: ec2_host@,
                ec2_user: ec2_user@,
            },
        }
    }
}

/// What a tunnel is doing.
#[derive(Debug, Clone, PartialEq, Eq)]
pub enum Status {
    Stopped,
    Starting,
    Running,
    Failed(String),
    /// Local port already bound by something that was not spawned here.
    External,
}

/// `Status` as a mathematical value.
pub enum StatusView {
    Stopped,
    Starting,
    Running,
    Failed(Seq<char>),
    External,
}

impl View for Status {
    type V = StatusView;

    open spec fn view(&self) -> StatusView {
        match *self {
            Status::Stopped => StatusView::Stopped,
            Status::Starting => StatusView::Starting,
            Status::Running => StatusView::Running,
            Status::Failed(e) => StatusView::Failed(e@),
            Status::External => StatusView::External,
        }
    }
}

impl StatusView {
    /// The word for the status.
    pub open spec fn word(self) -> Seq<char> {
        match self {
            StatusView::Stopped => "stopped"@,
            StatusView::Starting => "starting"@,
            StatusView::Running => "running"@,
            StatusView::Failed(_) => "failed"@,
            StatusView::External => "external"@,
        }
    }
}

impl Status {
    /// The word for the status.
    pub fn label(&self) -> (r: &str)
        ensures
            r@ == self@.word(),
    {
        match self {
            Status::Stopped => "stopped",
            Status::Starting => "starting",
            Status::Running => "running",
            Status::Failed(_) => "failed",
            Status::External => "external",
        }
    }
}

/// A tunnel and what is known of its process.
#[derive(Debug)]
pub struct Tunnel {
    pub name: String,
    pub group: Group,
    pub kind: TunnelKind,
    /// AWS profile used for SSM tunnels; `None` for pure ssh.
    pub profile: Option<String>,
    pub region: String,
    /// Bastion instance id for SSM tunnels; `None` for ssh.
    pub bastion: Option<String>,
    pub local_port: u16,
    pub status: Status,
    pub log: Vec<String>,
    /// Whether a spawned process is held for the tunnel.
    pub child: bool,
    /// The process group of that process.
    pub pgid: Option<i32>,
}

/// `Tunnel` as a mathematical value.
pub struct TunnelView {
    pub name: Seq<char>,
    pub group: Group,
    pub kind: KindView,
    pub profile: Option<Seq<char>>,
    pub region: Seq<char>,
    pub bastion: Option<Seq<char>>,
    pub local_port: u16,
    pub status: StatusView,
    pub log: Seq<Seq<char>>,
    pub child: bool,
    pub pgid: Option<i32>,
}

impl View for Tunnel {
    type V = TunnelView;

    open spec fn view(&self) -> TunnelView {
        TunnelView {
            name: self.name@,
            group: self.group,
            kind: self.kind@,
            profile: text::opt_view(self.profile),
            region: self.region@,
            bastion: text::opt_view(self.bastion),
            local_port: self.local_port,
            status: self.status@,
            log: text::views(self.log@),
            child: self.child,
            pgid: self.pgid,
        }
    }
}

/// The tunnels that a sequence holds.
pub open spec fn tunnels_view(s: Seq<Tunnel>) -> Seq<TunnelView> {
    s.map_values(|t: Tunnel| t@)
}

/// A program and its arguments.
#[derive(Debug)]
pub struct Command {
    pub program: String,
    pub args: Vec<String>,
}

/// `Command` as a mathematical value.
pub struct CommandView {
    pub program: Seq<char>,
    pub args: Seq<Seq<char>>,
}

impl View for Command {
    type V = CommandView;

    open spec fn view(&self) -> CommandView {
        CommandView { program: self.program@, args: text::views(self.args@) }
    }
}

/// What has to be known before a tunnel's command can be built.
#[derive(Debug)]
pub enum CommandFacts {
    /// Nothing, for a fixed remote host.
    Nothing,
    /// What the name of a Cloud Map service resolved to.
    Resolved(Result<(String, u16), String>),
    /// The mode bits of the key file; `None` where there is no such file.
    PemMode(Option<u32>),
}

/// `CommandFacts` as a mathematical value.
pub enum FactsView {
    Nothing,
    Resolved(Result<(Seq<char>, u16), Seq<char>>),
    PemMode(Option<u32>),
}

impl View for CommandFacts {
    type V = FactsView;

    open spec fn view(&self) -> FactsView {
        match *self {
            CommandFacts::Nothing => FactsView::Nothing,
            CommandFacts::Resolved(r) => FactsView::Resolved(discovery::address_view(r)),
            CommandFacts::PemMode(m) => FactsView::PemMode(m),
        }
    }
}

/// What has happened while a tunnel is being started.
#[derive(Debug)]
pub enum StartEvent {
    /// The start was asked for.
    Requested,
    /// The local port was probed: whether something accepts connections there.
    Probed(bool),
    /// What the command needs is known.
    Facts(CommandFacts),
    /// The command was spawned, with the process id, or could not be.
    Spawned(Result<Option<i32>, String>),
}

/// `StartEvent` as a mathematical value.
pub enum StartEventView {
    Requested,
    Probed(bool),
    Facts(FactsView),
    Spawned(Result<Option<i32>, Seq<char>>),
}

impl View for StartEvent {
    type V = StartEventView;

    open spec fn view(&self) -> StartEventView {
        match *self {
            StartEvent::Requested => StartEventView::Requested,
            StartEvent::Probed(open) => StartEventView::Probed(open),
            StartEvent::Facts(f) => StartEventView::Facts(f@),
            StartEvent::Spawned(Ok(pid)) => StartEventView::Spawned(Ok(pid)),
            StartEvent::Spawned(Err(e)) => StartEventView::Spawned(Err(e@)),
        }
    }
}

/// What to do next to start a tunnel.
#[derive(Debug)]
pub enum StartAction {
    /// Nothing: the start is over.
    Done,
    /// Probe the tunnel's local port.
    Probe,
    /// Resolve a Cloud Map service name.
    Resolve { profile: String, region: String, service_name: String },
    /// Read the mode bits of the key file.
    ReadPemMode(String),
    /// Spawn the command in a process group of its own.
    Spawn(Command),
}

/// `StartAction` as a mathematical value.
pub enum StartActionView {
    Done,
    Probe,
    Resolve { profile: Seq<char>, region: Seq<char>, service_name: Seq<char> },
    ReadPemMode(Seq<char>),
    Spawn(CommandView),
}

impl View for StartAction {
    type V = StartActionView;

    open spec fn view(&self) -> StartActionView {
        match *self {
            StartAction::Done => StartActionView::Done,
            StartAction::Probe => StartActionView::Probe,
            StartAction::Resolve { profile, region, service_name } => StartActionView::Resolve {
                profile: profile@,
                region: region@,
                service_name: service_name@,
            },
            StartAction::ReadPemMode(pem) => StartActionView::ReadPemMode(pem@),
            StartAction::Spawn(c) => StartActionView::Spawn(c@),
        }
    }
}

/// What has happened since the last maintenance of a tunnel.
#[derive(Debug)]
pub enum TickEvent {
    /// The process was polled: how it exited, `None` while it runs or where
    /// there is none.
    Waited(Option<String>),
    /// The local port was probed: whether something accepts connections there.
    Probed(bool),
}

/// `TickEvent` as a mathematical value.
pub enum TickEventView {
    Waited(Option<Seq<char>>),
    Probed(bool),
}

impl View for TickEvent {
    type V = TickEventView;

    open spec fn view(&self) -> TickEventView {
        match *self {
            TickEvent::Waited(exit) => TickEventView::Waited(text::opt_view(exit)),
            TickEvent::Probed(open) => TickEventView::Probed(open),
        }
    }
}

/// What to do next to maintain a tunnel.
#[derive(Debug, Clone, Copy, PartialEq, Eq, Structural)]
pub enum TickAction {
    /// Nothing: the maintenance is over.
    Done,
    /// Probe the tunnel's local port.
    Probe,
}

/// What a look at a tunnel found.
#[derive(Debug)]
pub enum TickReport {
    /// Its process has exited, and how.
    Exited(String),
    /// No process of it has exited; whether something accepts connections on
    /// its local port.
    Port(bool),
}

/// `TickReport` as a mathematical value.
pub enum TickReportView {
    Exited(Seq<char>),
    Port(bool),
}

impl View for TickReport {
    type V = TickReportView;

    open spec fn view(&self) -> TickReportView {
        match *self {
            TickReport::Exited(exit) => TickReportView::Exited(exit@),
            TickReport::Port(open) => TickReportView::Port(open),
        }
    }
}

/// What to signal when a tunnel is stopped.
#[derive(Debug, Clone, Copy, PartialEq, Eq, Structural)]
pub struct StopSignals {
    /// The process group to terminate.
    pub group: Option<i32>,
    /// Whether to kill the process that is held.
    pub child: bool,
}

/// The last lines of a log, as many as are kept.
pub open spec fn capped(log: Seq<Seq<char>>) -> Seq<Seq<char>> {
    if log.len() > LOG_CAP {
        log.skip(log.len() - LOG_CAP)
    } else {
        log
    }
}

/// A message that a local port is taken.
pub open spec fn port_in_use(port: u16) -> Seq<char> {
    "local port "@ + text::decimal_digits(port as nat)
        + " already in use — not starting (external)"@
}

/// The bits of a mode that grant rights to the group and to others.
pub open spec fn shared_bits(mode: u32) -> u32 {
    mode % 64
}

/// What is wrong with a key file; `Ok` where nothing is.
pub open spec fn pem_check(pem: Seq<char>, mode: Option<u32>) -> Result<(), Seq<char>> {
    match mode {
        None => Err("pem not found: "@ + pem),
        Some(mode) => if shared_bits(mode) != 0 {
            Err(
                "pem "@ + pem + " has permissions "@ + text::octal_digits((mode % 512) as nat)
                    + " — ssh requires 0600 or stricter (chmod 600)"@,
            )
        } else {
            Ok(())
        },
    }
}

/// The session parameters of an SSM port-forward.
pub open spec fn ssm_parameters(host: Seq<char>, remote_port: u16, local_port: u16) -> Seq<char> {
    "{\"host\":[\""@ + host + "\"],\"portNumber\":[\""@ + text::decimal_digits(
        remote_port as nat,
    ) + "\"],\"localPortNumber\":[\""@ + text::decimal_digits(local_port as nat) + "\"]}"@
}

/// The value, or `other` where there is none.
pub open spec fn or_else(v: Option<Seq<char>>, other: Seq<char>) -> Seq<char> {
    match v {
        Some(s) => s,
        None => other,
    }
}

impl TunnelView {
    /// The tunnel with one more line in its log.
    pub open spec fn logged(self, line: Seq<char>) -> TunnelView {
        TunnelView { log: capped(self.log.push(line)), ..self }
    }

    /// Something is under way or up.
    pub open spec fn active(self) -> bool {
        self.child || self.status is Starting || self.status is Running
    }

    /// The command of an SSM port-forward to `host`.
    pub open spec fn ssm_command(self, host: Seq<char>, remote_port: u16) -> CommandView {
        CommandView {
            program: "aws"@,
            args: seq![
                "ssm"@,
                "start-session"@,
                "--target"@,
                or_else(self.bastion, Seq::empty()),
                "--region"@,
                self.region,
                "--profile"@,
                or_else(self.profile, "default"@),
                "--document-name"@,
                "AWS-StartPortForwardingSessionToRemoteHost"@,
                "--parameters"@,
                ssm_parameters(host, remote_port, self.local_port),
            ],
        }
    }

    /// The command of an `ssh -L` tunnel.
    pub open spec fn ssh_command(
        self,
        pem: Seq<char>,
        elb_host: Seq<char>,
        remote_port: u16,
        ec2_host: Seq<char>,
        ec2_user: Seq<char>,
    ) -> CommandView {
        CommandView {
            program: "ssh"@,
            args: seq![
                "-i"@,
                pem,
                "-L"@,
                text::decimal_digits(self.local_port as nat) + ":"@ + elb_host + ":"@
                    + text::decimal_digits(remote_port as nat),
                ec2_user + "@"@ + ec2_host,
                "-N"@,
                "-o"@,
                "StrictHostKeyChecking=accept-new"@,
                "-o"@,
                "ExitOnForwardFailure=yes"@,
                "-o"@,
                "ConnectTimeout=10"@,
                "-o"@,
                "ServerAliveInterval=30"@,
                "-o"@,
                "BatchMode=yes"@,
            ],
        }
    }

    /// The facts are those that this kind of tunnel needs.
    pub open spec fn fits(self, facts: FactsView) -> bool {
        match self.kind {
            KindView::SsmService { .. } => facts is Resolved,
            KindView::SsmRds { .. } => facts is Nothing,
            KindView::Ssh { .. } => facts is PemMode,
        }
    }

    /// The tunnel's command, or the reason why there is none.
    pub open spec fn command(self, facts: FactsView) -> Result<CommandView, Seq<char>> {
        match self.kind {
            KindView::SsmService { .. } => match facts->Resolved_0 {
                Ok((ip, port)) => Ok(self.ssm_command(ip, port)),
                Err(e) => Err(e),
            },
            KindView::SsmRds { endpoint, remote_port } => Ok(
                self.ssm_command(endpoint, remote_port),
            ),
            KindView::Ssh { pem, elb_host, remote_port, ec2_host, ec2_user } => match pem_check(
                pem,
                facts->PemMode_0,
            ) {
                Ok(_) => Ok(self.ssh_command(pem, elb_host, remote_port, ec2_host, ec2_user)),
                Err(e) => Err(e),
            },
        }
    }

    /// The program that the tunnel runs.
    pub open spec fn program(self) -> Seq<char> {
        match self.kind {
            KindView::Ssh { .. } => "ssh"@,
            _ => "aws"@,
        }
    }

    /// The command goes to the log and is spawned; without one the start fails.
    pub open spec fn launch(self, command: Result<CommandView, Seq<char>>) -> (
        TunnelView,
        StartActionView,
    ) {
        match command {
            Ok(c) => (
                self.logged("$ "@ + c.program + " "@ + text::joined(c.args, " "@)),
                StartActionView::Spawn(c),
            ),
            Err(e) => (
                TunnelView {
                    status: StatusView::Failed(e),
                    ..self.logged("start failed: "@ + e)
                },
                StartActionView::Done,
            ),
        }
    }

    /// The event is one that can happen to this tunnel while it is started.
    pub open spec fn accepts(self, event: StartEventView) -> bool {
        event matches StartEventView::Facts(f) ==> self.fits(f)
    }

    /// The step that an event leads to while a tunnel is started.
    pub open spec fn start_step(self, event: StartEventView) -> (TunnelView, StartActionView) {
        match event {
            StartEventView::Requested => if self.child {
                (self, StartActionView::Done)
            } else {
                (self, StartActionView::Probe)
            },
            StartEventView::Probed(open) => if open {
                (
                    TunnelView { status: StatusView::External, ..self }.logged(
                        port_in_use(self.local_port),
                    ),
                    StartActionView::Done,
                )
            } else {
                let t = TunnelView { status: StatusView::Starting, log: Seq::empty(), ..self };
                match self.kind {
                    KindView::SsmService { service_name } => (
                        t,
                        StartActionView::Resolve {
                            profile: or_else(self.profile, "default"@),
                            region: self.region,
                            service_name,
                        },
                    ),
                    KindView::SsmRds { .. } => t.launch(t.command(FactsView::Nothing)),
                    KindView::Ssh { pem, .. } => (t, StartActionView::ReadPemMode(pem)),
                }
            },
            StartEventView::Facts(facts) => self.launch(self.command(facts)),
            StartEventView::Spawned(Ok(pid)) => (
                TunnelView { child: true, pgid: pid, ..self },
                StartActionView::Done,
            ),
            StartEventView::Spawned(Err(e)) => {
                let msg = "failed to spawn "@ + self.program() + ": "@ + e;
                (
                    TunnelView { status: StatusView::Failed(msg), ..self.logged(msg) },
                    StartActionView::Done,
                )
            },
        }
    }

    /// The tunnel after its process has exited.
    pub open spec fn exited(self, exit: Seq<char>) -> TunnelView {
        TunnelView {
            child: false,
            pgid: None,
            status: if self.status is Starting || self.status is Running {
                StatusView::Failed(or_else(text::last_text(self.log), exit))
            } else {
                StatusView::Stopped
            },
            ..self
        }
    }

    /// The status after a probe of the local port.
    pub open spec fn probed(self, open: bool) -> StatusView {
        if self.status is Starting && self.child && open {
            StatusView::Running
        } else if self.status is Running && self.child && !open {
            StatusView::Starting
        } else if self.status is Stopped && !self.child && open {
            StatusView::External
        } else if self.status is External && !self.child && !open {
            StatusView::Stopped
        } else {
            self.status
        }
    }

    /// The step that an event leads to while a tunnel is maintained.
    pub open spec fn tick_step(self, event: TickEventView) -> (TunnelView, TickAction) {
        match event {
            TickEventView::Waited(Some(exit)) => (self.exited(exit), TickAction::Done),
            TickEventView::Waited(None) => (self, TickAction::Probe),
            TickEventView::Probed(open) => (
                TunnelView { status: self.probed(open), ..self },
                TickAction::Done,
            ),
        }
    }

    /// The tunnel after the maintenance that a report leads to.
    pub open spec fn ticked(self, report: TickReportView) -> TunnelView {
        match report {
            TickReportView::Exited(exit) => self.tick_step(TickEventView::Waited(Some(exit))).0,
            TickReportView::Port(open) => self.tick_step(
                TickEventView::Waited(None),
            ).0.tick_step(TickEventView::Probed(open)).0,
        }
    }

    /// The tunnel after it was stopped.
    pub open spec fn stopped(self) -> TunnelView {
        TunnelView { child: false, pgid: None, status: StatusView::Stopped, ..self }.logged(
            "stopped"@,
        )
    }

    /// What to signal when the tunnel is stopped.
    pub open spec fn signals(self) -> StopSignals {
        StopSignals { group: self.pgid, child: self.child }
    }

    /// The command that would be run, without live resolution.
    pub open spec fn preview(self) -> Seq<char> {
        match self.kind {
            KindView::SsmService { service_name } => "aws ssm start-session --target "@ + or_else(
                self.bastion,
                "?"@,
            ) + " --profile "@ + or_else(self.profile, "?"@) + " (resolve "@ + service_name
                + " via Cloud Map) -> localhost:"@ + text::decimal_digits(self.local_port as nat),
            KindView::SsmRds { endpoint, remote_port } => "aws ssm start-session --target "@
                + or_else(self.bastion, "?"@) + " --profile "@ + or_else(self.profile, "?"@) + " "@
                + endpoint + ":"@ + text::decimal_digits(remote_port as nat) + " -> localhost:"@
                + text::decimal_digits(self.local_port as nat),
            KindView::Ssh { elb_host, remote_port, ec2_host, ec2_user, .. } => "ssh "@ + ec2_user
                + "@"@ + ec2_host + " -L "@ + text::decimal_digits(self.local_port as nat) + ":"@
                + elb_host + ":"@ + text::decimal_digits(remote_port as nat),
        }
    }

    /// At rest: a process is held exactly while the tunnel is starting or
    /// running, a process group only together with it, and the log is within
    /// its bounds.
    pub open spec fn settled(self) -> bool {
        &&& self.child <==> self.status is Starting || self.status is Running
        &&& self.pgid is Some ==> self.child
        &&& self.log.len() <= LOG_CAP
    }
}

fn or_default(v: &Option<String>, other: &str) -> (r: String)
    ensures
        r@ == or_else(text::opt_view(*v), other@),
{
    match v {
        Some(s) => s.clone(),
        None => other.to_owned(),
    }
}

/// ssh refuses keys readable by group or others. Says so clearly, and confirms
/// that the file exists; `mode` holds its mode bits, if there is a file.
pub fn check_pem(pem: &str, mode: Option<u32>) -> (r: Result<(), String>)
    ensures
        match r {
            Ok(_) => pem_check(pem@, mode) is Ok,
            Err(e) => pem_check(pem@, mode) == Err::<(), Seq<char>>(e@),
        },
{
    match mode {
        None => {
            let mut e = "pem not found: ".to_string();
            e.append(pem);
            Err(e)
        },
        Some(mode) => {
            let shared: u32 = mode & 0o077;
            let rights: u32 = mode & 0o777;
            assert(mode & 0o077 == mode % 64) by (bit_vector);
            assert(mode & 0o777 == mode % 512) by (bit_vector);
            if shared != 0 {
                let mut e = "pem ".to_string();
                e.append(pem);
                e.append(" has permissions ");
                e.append(text::octal(rights).as_str());
                e.append(" — ssh requires 0600 or stricter (chmod 600)");
                return Err(e);
            }
            Ok(())
        },
    }
}

impl Tunnel {
    /// A tunnel that is not up.
    pub fn new(
        name: String,
        group: Group,
        kind: TunnelKind,
        profile: Option<String>,
        region: String,
        bastion: Option<String>,
        local_port: u16,
    ) -> (r: Tunnel)
        ensures
            r@ == (TunnelView {
                name: name@,
                group,
                kind: kind@,
                profile: text::opt_view(profile),
                region: region@,
                bastion: text::opt_view(bastion),
                local_port,
                status: StatusView::Stopped,
                log: Seq::empty(),
                child: false,
                pgid: None,
            }),
            r@.settled(),
    {
        let r = Tunnel {
            name,
            group,
            kind,
            profile,
            region,
            bastion,
            local_port,
            status: Status::Stopped,
            log: Vec::new(),
            child: false,
            pgid: None,
        };
        assert(r@.log =~= Seq::empty());
        r
    }

    /// Whether something is under way or up.
    pub fn is_active(&self) -> (r: bool)
        ensures
            r == self@.active(),
    {
        self.child || match self.status {
            Status::Starting => true,
            Status::Running => true,
            _ => false,
        }
    }

    /// Adds a line to the log, which keeps its last lines only.
    pub fn push_log(&mut self, line: String)
        ensures
            final(self)@ == old(self)@.logged(line@),
            *final(self) == (Tunnel { log: final(self).log, ..*old(self) }),
    {
        let ghost before = text::views(self.log@);
        self.log.push(line);
        let ghost full = text::views(self.log@);
        assert(full =~= before.push(line@));
        let ghost mut dropped: int = 0;
        assert(full.skip(0) =~= full);
        while self.log.len() > LOG_CAP
            invariant
                0 <= dropped <= full.len(),
                dropped > 0 ==> full.len() - dropped >= LOG_CAP,
                text::views(self.log@) == full.skip(dropped),
                *self == (Tunnel { log: self.log, ..*old(self) }),
            decreases self.log.len(),
        {
            let ghost kept = text::views(self.log@);
            assert(kept.len() == self.log@.len());
            let _ = self.log.remove(0);
            assert(text::views(self.log@) =~= kept.skip(1));
            proof {
                dropped = dropped + 1;
            }
            assert(kept.skip(1) =~= full.skip(dropped));
        }
        assert(text::views(self.log@).len() == self.log@.len());
    }

    /// The last log line that is not blank.
    pub fn last_log_line(&self) -> (r: Option<String>)
        ensures
            text::opt_view(r) == text::last_text(self@.log),
    {
        text::last_nonblank(&self.log)
    }

    /// The command of an SSM port-forward to `host`.
    pub fn ssm_args(&self, host: &str, remote_port: u16) -> (r: Command)
        ensures
            r@ == self@.ssm_command(host@, remote_port),
    {
        let mut parameters = "{\"host\":[\"".to_string();
        parameters.append(host);
        parameters.append("\"],\"portNumber\":[\"");
        parameters.append(text::decimal(remote_port as u64).as_str());
        parameters.append("\"],\"localPortNumber\":[\"");
        parameters.append(text::decimal(self.local_port as u64).as_str());
        parameters.append("\"]}");
        let mut args: Vec<String> = Vec::new();
        args.push("ssm".to_string());
        args.push("start-session".to_string());
        args.push("--target".to_string());
        args.push(or_default(&self.bastion, ""));
        args.push("--region".to_string());
        args.push(self.region.clone());
        args.push("--profile".to_string());
        args.push(or_default(&self.profile, "default"));
        args.push("--document-name".to_string());
        args.push("AWS-StartPortForwardingSessionToRemoteHost".to_string());
        args.push("--parameters".to_string());
        args.push(parameters);
        proof {
            reveal_strlit("");
            assert(""@ =~= Seq::<char>::empty());
        }
        let r = Command { program: "aws".to_string(), args };
        assert(r@.args =~= self@.ssm_command(host@, remote_port).args);
        r
    }

    /// The tunnel's command, given what it needs.
    pub fn build_command(&self, facts: CommandFacts) -> (r: Result<Command, String>)
        requires
            self@.fits(facts@),
        ensures
            match r {
                Ok(c) => self@.command(facts@) == Ok::<CommandView, Seq<char>>(c@),
                Err(e) => self@.command(facts@) == Err::<CommandView, Seq<char>>(e@),
            },
    {
        match &self.kind {
            TunnelKind::SsmService { .. } => match facts {
                CommandFacts::Resolved(Ok((ip, port))) => Ok(self.ssm_args(ip.as_str(), port)),
                CommandFacts::Resolved(Err(e)) => Err(e),
                _ => Err(String::new()),
            },
            TunnelKind::SsmRds { endpoint, remote_port } => Ok(
                self.ssm_args(endpoint.as_str(), *remote_port),
            ),
            TunnelKind::Ssh { pem, elb_host, remote_port, ec2_host, ec2_user } => {
                let mode: Option<u32> = match facts {
                    CommandFacts::PemMode(mode) => mode,
                    _ => None,
                };
                match check_pem(pem.as_str(), mode) {
                    Err(e) => Err(e),
                    Ok(_) => {
                        let mut forward = text::decimal(self.local_port as u64);
                        forward.append(":");
                        forward.append(elb_host.as_str());
                        forward.append(":");
                        forward.append(text::decimal(*remote_port as u64).as_str());
                        let mut dest = ec2_user.clone();
                        dest.append("@");
                        dest.append(ec2_host.as_str());
                        let mut args: Vec<String> = Vec::new();
                        args.push("-i".to_string());
                        args.push(pem.clone());
                        args.push("-L".to_string());
                        args.push(forward);
                        args.push(dest);
                        args.push("-N".to_string());
                        args.push("-o".to_string());
                        args.push("StrictHostKeyChecking=accept-new".to_string());
                        args.push("-o".to_string());
                        args.push("ExitOnForwardFailure=yes".to_string());
                        args.push("-o".to_string());
                        args.push("ConnectTimeout=10".to_string());
                        args.push("-o".to_string());
                        args.push("ServerAliveInterval=30".to_string());
                        args.push("-o".to_string());
                        args.push("BatchMode=yes".to_string());
                        let r = Command { program: "ssh".to_string(), args };
                        assert(r@.args =~= self@.ssh_command(
                            pem@,
                            elb_host@,
                            *remote_port,
                            ec2_host@,
                            ec2_user@,
                        ).args);
                        Ok(r)
                    },
                }
            },
        }
    }

    fn launch(&mut self, command: Result<Command, String>) -> (r: StartAction)
        ensures
            (final(self)@, r@) == old(self)@.launch(
                match command {
                    Ok(c) => Ok(c@),
                    Err(e) => Err(e@),
                },
            ),
    {
        match command {
            Ok(c) => {
                let mut line = "$ ".to_string();
                line.append(c.program.as_str());
                line.append(" ");
                line.append(text::join(&c.args, " ").as_str());
                self.push_log(line);
                StartAction::Spawn(c)
            },
            Err(e) => {
                let mut line = "start failed: ".to_string();
                line.append(e.as_str());
                self.push_log(line);
                self.status = Status::Failed(e);
                StartAction::Done
            },
        }
    }

    /// Brings the tunnel up, one event at a time: the local port is probed, the
    /// endpoint of a service resolved or the key of an ssh tunnel checked, and
    /// the command spawned.
    pub fn start(&mut self, event: StartEvent) -> (r: StartAction)
        requires
            old(self)@.accepts(event@),
        ensures
            (final(self)@, r@) == old(self)@.start_step(event@),
    {
        match event {
            StartEvent::Requested => {
                if self.child {
                    StartAction::Done
                } else {
                    StartAction::Probe
                }
            },
            StartEvent::Probed(open) => {
                // Don't fight a port someone else already holds.
                if open {
                    self.status = Status::External;
                    let mut line = "local port ".to_string();
                    line.append(text::decimal(self.local_port as u64).as_str());
                    line.append(" already in use — not starting (external)");
                    self.push_log(line);
                    return StartAction::Done;
                }
                self.status = Status::Starting;
                self.log.clear();
                assert(self@.log =~= Seq::empty());
                match &self.kind {
                    TunnelKind::SsmService { service_name } => {
                        return StartAction::Resolve {
                            profile: or_default(&self.profile, "default"),
                            region: self.region.clone(),
                            service_name: service_name.clone(),
                        };
                    },
                    TunnelKind::SsmRds { .. } => {},
                    TunnelKind::Ssh { pem, .. } => {
                        return StartAction::ReadPemMode(pem.clone());
                    },
                }
                let command = self.build_command(CommandFacts::Nothing);
                self.launch(command)
            },
            StartEvent::Facts(facts) => {
                let command = self.build_command(facts);
                self.launch(command)
            },
            StartEvent::Spawned(Ok(pid)) => {
                self.child = true;
                self.pgid = pid;
                StartAction::Done
            },
            StartEvent::Spawned(Err(e)) => {
                let mut msg = "failed to spawn ".to_string();
                msg.append(
                    match &self.kind {
                        TunnelKind::Ssh { .. } => "ssh",
                        _ => "aws",
                    },
                );
                msg.append(": ");
                msg.append(e.as_str());
                self.push_log(msg.clone());
                self.status = Status::Failed(msg);
                StartAction::Done
            },
        }
    }

    /// Takes the tunnel down and answers with what to signal: the whole process
    /// group (so that a command and what it forks both die), then the process.
    pub fn stop(&mut self) -> (r: StopSignals)
        ensures
            final(self)@ == old(self)@.stopped(),
            r == old(self)@.signals(),
    {
        let r = StopSignals { group: self.pgid, child: self.child };
        self.pgid = None;
        self.child = false;
        self.status = Status::Stopped;
        self.push_log("stopped".to_string());
        r
    }

    /// Per-tick maintenance, one event at a time: notices that the process has
    /// exited, else asks for a probe of the local port and goes by it.
    pub fn tick(&mut self, event: TickEvent) -> (r: TickAction)
        ensures
            (final(self)@, r) == old(self)@.tick_step(event@),
    {
        match event {
            TickEvent::Waited(Some(exit)) => {
                self.child = false;
                self.pgid = None;
                let up: bool = match self.status {
                    Status::Starting => true,
                    Status::Running => true,
                    _ => false,
                };
                if up {
                    let detail = match self.last_log_line() {
                        Some(line) => line,
                        None => exit,
                    };
                    self.status = Status::Failed(detail);
                } else {
                    self.status = Status::Stopped;
                }
                TickAction::Done
            },
            TickEvent::Waited(None) => TickAction::Probe,
            TickEvent::Probed(open) => {
                match (&self.status, self.child, open) {
                    (Status::Starting, true, true) => {
                        self.status = Status::Running;
                    },
                    (Status::Running, true, false) => {
                        self.status = Status::Starting;
                    },
                    // Track tunnels brought up elsewhere (manual scripts).
                    (Status::Stopped, false, true) => {
                        self.status = Status::External;
                    },
                    (Status::External, false, false) => {
                        self.status = Status::Stopped;
                    },
                    _ => {},
                }
                TickAction::Done
            },
        }
    }

    /// Per-tick maintenance in one go, by what a look at the tunnel found.
    pub fn maintain(&mut self, report: &TickReport)
        ensures
            final(self)@ == old(self)@.ticked(report@),
    {
        match report {
            TickReport::Exited(exit) => {
                let _ = self.tick(TickEvent::Waited(Some(exit.clone())));
            },
            TickReport::Port(open) => {
                let _ = self.tick(TickEvent::Waited(None));
                let _ = self.tick(TickEvent::Probed(*open));
            },
        }
    }

    /// The command that would be run, for the detail pane (no live resolution).
    pub fn command_preview(&self) -> (r: String)
        ensures
            r@ == self@.preview(),
    {
        match &self.kind {
            TunnelKind::SsmService { service_name } => {
                let mut r = "aws ssm start-session --target ".to_string();
                r.append(or_default(&self.bastion, "?").as_str());
                r.append(" --profile ");
                r.append(or_default(&self.profile, "?").as_str());
                r.append(" (resolve ");
                r.append(service_name.as_str());
                r.append(" via Cloud Map) -> localhost:");
                r.append(text::decimal(self.local_port as u64).as_str());
                r
            },
            TunnelKind::SsmRds { endpoint, remote_port } => {
                let mut r = "aws ssm start-session --target ".to_string();
                r.append(or_default(&self.bastion, "?").as_str());
                r.append(" --profile ");
                r.append(or_default(&self.profile, "?").as_str());
                r.append(" ");
                r.append(endpoint.as_str());
                r.append(":");
                r.append(text::decimal(*remote_port as u64).as_str());
                r.append(" -> localhost:");
                r.append(text::decimal(self.local_port as u64).as_str());
                r
            },
            TunnelKind::Ssh { elb_host, remote_port, ec2_host, ec2_user, .. } => {
                let mut r = "ssh ".to_string();
                r.append(ec2_user.as_str());
                r.append("@");
                r.append(ec2_host.as_str());
                r.append(" -L ");
                r.append(text::decimal(self.local_port as u64).as_str());
                r.append(":");
                r.append(elb_host.as_str());
                r.append(":");
                r.append(text::decimal(*remote_port as u64).as_str());
                r
            },
        }
    }
}

/// Everything that a start of a tunnel meets outside.
pub struct StartWorld {
    pub open: bool,
    pub facts: FactsView,
    pub spawned: Result<Option<i32>, Seq<char>>,
}

impl TunnelView {
    /// The tunnel after a start from beginning to end.
    pub open spec fn started(self, world: StartWorld) -> TunnelView {
        let (t0, a0) = self.start_step(StartEventView::Requested);
        if a0 is Done {
            t0
        } else {
            let (t1, a1) = t0.start_step(StartEventView::Probed(world.open));
            let (t2, a2) = if a1 is Resolve || a1 is ReadPemMode {
                t1.start_step(StartEventView::Facts(world.facts))
            } else {
                (t1, a1)
            };
            if a2 is Spawn {
                t2.start_step(StartEventView::Spawned(world.spawned)).0
            } else {
                t2
            }
        }
    }

    /// A whole start ends in one of these ways. A tunnel that already has a
    /// process is left alone. One whose local port is taken is shown as external
    /// and nothing is spawned. Otherwise it fails with the reason why there is no
    /// command or why the command could not be spawned, or it is starting, with a
    /// process.
    pub proof fn law_outcome_of_a_start(self, world: StartWorld)
        requires
            self.fits(world.facts),
        ensures
            self.child ==> self.started(world) == self,
            !self.child && world.open ==> {
                &&& self.started(world).status is External
                &&& !self.started(world).child
                &&& self.started(world).log == capped(
                    self.log.push(port_in_use(self.local_port)),
                )
            },
            !self.child && !world.open ==> match (self.command(world.facts), world.spawned) {
                (Err(e), _) => self.started(world).status == StatusView::Failed(e)
                    && !self.started(world).child,
                (Ok(_), Err(e)) => self.started(world).status == StatusView::Failed(
                    "failed to spawn "@ + self.program() + ": "@ + e,
                ) && !self.started(world).child,
                (Ok(_), Ok(pid)) => self.started(world).status is Starting && self.started(
                    world,
                ).child && self.started(world).pgid == pid,
            },
    {
        let t = TunnelView { status: StatusView::Starting, log: Seq::empty(), ..self };
        assert(t.command(world.facts) == self.command(world.facts));
    }

    /// Starting, maintaining and stopping a tunnel at rest leave it at rest.
    pub proof fn law_tunnels_come_to_rest(
        self,
        world: StartWorld,
        exit: Seq<char>,
        open: bool,
    )
        requires
            self.settled(),
            self.fits(world.facts),
        ensures
            self.started(world).settled(),
            self.stopped().settled(),
            self.child ==> self.tick_step(TickEventView::Waited(Some(exit))).0.settled(),
            self.tick_step(TickEventView::Waited(None)).0.settled(),
            self.tick_step(TickEventView::Probed(open)).0.settled(),
    {
        self.law_outcome_of_a_start(world);
    }

    /// At rest a tunnel is active exactly while it holds a process.
    pub proof fn law_active_means_a_process(self)
        requires
            self.settled(),
        ensures
            self.active() <==> self.child,
    {
    }

    /// A stop leaves nothing behind: no process, no process group, and what there
    /// was of either is signalled. A stopped tunnel can be started again.
    pub proof fn law_stop_releases_everything(self)
        ensures
            !self.stopped().child,
            self.stopped().pgid is None,
            self.stopped().status is Stopped,
            self.signals().group == self.pgid,
            self.signals().child == self.child,
            self.stopped().start_step(StartEventView::Requested).1 is Probe,
    {
    }

    /// A tunnel that was brought up elsewhere is shown as external for as long as
    /// its port is taken, and as stopped afterwards.
    pub proof fn law_external_follows_the_port(self, open: bool)
        requires
            !self.child,
            self.status is Stopped || self.status is External,
        ensures
            self.tick_step(TickEventView::Probed(open)).0.status is External <==> open,
            self.tick_step(TickEventView::Probed(open)).0.status is Stopped <==> !open,
    {
    }

    /// With a process, a tunnel is running exactly while its port answers.
    pub proof fn law_running_follows_the_port(self, open: bool)
        requires
            self.child,
            self.status is Starting || self.status is Running,
        ensures
            self.tick_step(TickEventView::Probed(open)).0.status is Running <==> open,
            self.tick_step(TickEventView::Probed(open)).0.status is Starting <==> !open,
    {
    }

    /// Nothing that happens to a tunnel changes what it connects.
    pub proof fn law_identity_is_kept(
        self,
        start: StartEventView,
        tick: TickEventView,
        line: Seq<char>,
    )
        ensures
            self.same_target(self.start_step(start).0),
            self.same_target(self.tick_step(tick).0),
            self.same_target(self.stopped()),
            self.same_target(self.logged(line)),
    {
    }

    /// The same name, kind, place and port.
    pub open spec fn same_target(self, other: TunnelView) -> bool {
        &&& self.name == other.name
        &&& self.group == other.group
        &&& self.kind == other.kind
        &&& self.profile == other.profile
        &&& self.region == other.region
        &&& self.bastion == other.bastion
        &&& self.local_port == other.local_port
    }
}

/// A key passes exactly when it exists and grants nothing to group and others;
/// one that does not is refused with the advice to `chmod 600` or as missing.
pub proof fn law_key_must_be_private(pem: Seq<char>, mode: Option<u32>)
    ensures
        pem_check(pem, mode) is Ok <==> (mode matches Some(m) && m & 0o077 == 0),
{
    if let Some(m) = mode {
        assert(m & 0o077 == m % 64) by (bit_vector);
    }
}

/// A log never holds more than its bound, and ends with the newest line.
pub proof fn law_log_is_bounded(t: TunnelView, line: Seq<char>)
    ensures
        t.logged(line).log.len() <= LOG_CAP,
        t.logged(line).log.last() == line,
        t.log.len() < LOG_CAP ==> t.logged(line).log == t.log.push(line),
{
}

} // verus!
