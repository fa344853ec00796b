use vstd::prelude::*;
use vstd::string::StringExecFns;
use crate::config::config_id::{spec_id_display, ConfigId};
use crate::config::port::Port;
use crate::config::port_forward_config::PortForwardConfig;
use crate::config::retry_delay::{spec_delay_display, RetryDelay};
use crate::strutil::{self, dec_digits, join_with, spec_int_display, split_chars, views_of};

verus! {

/// The paths the external API client is driven with: the client binary
/// and the directory commands run in. The commands themselves are issued
/// by the surrounding application; this type builds their argument lists
/// and interprets their output.
#[derive(Debug)]
pub struct Kubectl {
    kubectl: String,
    current_dir: String,
}

impl Kubectl {
    /// The path of the client binary, as text.
    pub closed spec fn spec_program(&self) -> Seq<char> {
        self.kubectl@
    }

    /// The directory commands run in, as text.
    pub closed spec fn spec_working_dir(&self) -> Seq<char> {
        self.current_dir@
    }

    /// A client from the binary path and the directory to run in.
    pub fn new(kubectl: String, current_dir: String) -> (r: Kubectl)
        ensures
            r.spec_program() == kubectl@,
            r.spec_working_dir() == current_dir@,
    {
        Kubectl { kubectl, current_dir }
    }

    /// The path of the client binary.
    pub fn program(&self) -> (r: &str)
        ensures
            r@ == self.spec_program(),
    {
        self.kubectl.as_str()
    }

    /// The directory commands run in.
    pub fn working_dir(&self) -> (r: &str)
        ensures
            r@ == self.spec_working_dir(),
    {
        self.current_dir.as_str()
    }

    /// Builds the argument list of one forwarding command from the
    /// target's current field values.
    pub fn forward_command_args(&self, fwd: &PortForwardConfig) -> (args: Vec<String>)
        ensures
            views_of(args@) == spec_forward_args(*fwd),
    {
        forward_args(fwd)
    }
}

/// The argument `local:remote` or `:remote` of one port mapping.
pub open spec fn spec_port_arg(p: Port) -> Seq<char> {
    match p.local {
        Some(l) => dec_digits(l as int) + seq![':'] + dec_digits(p.remote as int),
        None => seq![':'] + dec_digits(p.remote as int),
    }
}

/// The port arguments of a target, in order.
pub open spec fn spec_port_args(ps: Seq<Port>) -> Seq<Seq<char>>
    decreases ps.len(),
{
    if ps.len() == 0 {
        Seq::empty()
    } else {
        spec_port_args(ps.drop_last()).push(spec_port_arg(ps.last()))
    }
}

/// The full argument list of one forwarding command: the subcommand, the
/// optional context and cluster, the listen addresses joined by commas,
/// the namespace, the `kind/name` target, and one argument per port.
pub open spec fn spec_forward_args(fwd: PortForwardConfig) -> Seq<Seq<char>> {
    seq!["port-forward"@] + (match crate::config::port_forward_config::opt_view(fwd.context) {
        Some(c) => seq!["--context"@, c],
        None => Seq::empty(),
    }) + (match crate::config::port_forward_config::opt_view(fwd.cluster) {
        Some(c) => seq!["--cluster"@, c],
        None => Seq::empty(),
    }) + (if fwd.listen_addrs@.len() > 0 {
        seq!["--address"@, join_with(views_of(fwd.listen_addrs@), ',')]
    } else {
        Seq::empty()
    }) + seq!["-n"@, fwd.namespace@, fwd.resource_type.spec_arg() + seq!['/'] + fwd.target@]
        + spec_port_args(fwd.ports@)
}

fn port_arg(p: Port) -> (r: String)
    ensures
        r@ == spec_port_arg(p),
{
    let mut r = match p.local {
        Some(l) => strutil::u64_to_string(l as u64),
        None => String::new(),
    };
    strutil::string_push(&mut r, ':');
    r.append(strutil::u64_to_string(p.remote as u64).as_str());
    proof {
        assert(r@ =~= spec_port_arg(p));
    }
    r
}

fn forward_args(fwd: &PortForwardConfig) -> (args: Vec<String>)
    ensures
        views_of(args@) == spec_forward_args(*fwd),
{
    let mut args: Vec<String> = Vec::new();
    args.push(String::from_str("port-forward"));
    match &fwd.context {
        Some(c) => {
            args.push(String::from_str("--context"));
            args.push(c.clone());
        },
        None => (),
    }
    match &fwd.cluster {
        Some(c) => {
            args.push(String::from_str("--cluster"));
            args.push(c.clone());
        },
        None => (),
    }
    if fwd.listen_addrs.len() > 0 {
        args.push(String::from_str("--address"));
        args.push(strutil::join_strings(&fwd.listen_addrs, ','));
    }
    args.push(String::from_str("-n"));
    args.push(fwd.namespace.clone());
    let mut target_arg = String::from_str(fwd.resource_type.to_arg());
    strutil::string_push(&mut target_arg, '/');
    target_arg.append(fwd.target.as_str());
    proof {
        assert(target_arg@ =~= fwd.resource_type.spec_arg() + seq!['/'] + fwd.target@);
    }
    args.push(target_arg);

    let ghost before_ports = views_of(args@);
    proof {
        assert(before_ports =~= seq!["port-forward"@] + (match crate::config::port_forward_config::opt_view(
            fwd.context,
        ) {
            Some(c) => seq!["--context"@, c],
            None => Seq::empty(),
        }) + (match crate::config::port_forward_config::opt_view(fwd.cluster) {
            Some(c) => seq!["--cluster"@, c],
            None => Seq::empty(),
        }) + (if fwd.listen_addrs@.len() > 0 {
            seq!["--address"@, join_with(views_of(fwd.listen_addrs@), ',')]
        } else {
            Seq::empty()
        }) + seq!["-n"@, fwd.namespace@, fwd.resource_type.spec_arg() + seq!['/'] + fwd.target@]);
    }
    let n = fwd.ports.len();
    let mut i: usize = 0;
    proof {
        assert(spec_port_args(fwd.ports@.take(0)) =~= Seq::<Seq<char>>::empty());
        assert(views_of(args@) =~= before_ports + spec_port_args(fwd.ports@.take(0)));
    }
    while i < n
        invariant
            0 <= i <= n,
            n == fwd.ports@.len(),
            views_of(args@) == before_ports + spec_port_args(fwd.ports@.take(i as int)),
        decreases n - i,
    {
        let ghost pre = views_of(args@);
        let a = port_arg(fwd.ports[i]);
        args.push(a);
        proof {
            assert(fwd.ports@.take(i as int + 1).drop_last() =~= fwd.ports@.take(i as int));
            assert(fwd.ports@.take(i as int + 1).last() == fwd.ports@[i as int]);
            assert(views_of(args@) =~= pre.push(spec_port_arg(fwd.ports@[i as int])));
            assert(views_of(args@) =~= before_ports + spec_port_args(
                fwd.ports@.take(i as int + 1),
            ));
        }
        i += 1;
    }
    proof {
        assert(fwd.ports@.take(n as int) =~= fwd.ports@);
        assert(views_of(args@) =~= spec_forward_args(*fwd));
    }
    args
}

/// What a forwarding subprocess ended with, as plain values: the exit
/// code when the process exited, nothing when a signal ended it.
#[derive(Debug, Clone, Copy, PartialEq, Eq, Structural)]
pub struct ChildExitStatus {
    /// The exit code, absent when the process was ended by a signal.
    pub code: Option<i32>,
}

/// Where a line of child output came from.
#[derive(Debug, Copy, Clone, PartialEq, Eq, Structural)]
pub enum StreamSource {
    StdOut,
    StdErr,
}

/// What a supervisor does after a child exits.
#[derive(Debug, Clone, Copy, PartialEq, Eq, Structural)]
pub enum RestartPolicy {
    /// The child is respawned after the given delay.
    WillRestartIn(RetryDelay),
}

/// A runtime error of one supervisor, scoped to its target.
#[derive(Debug)]
pub enum ChildError {
    /// Waiting for the child process's status failed.
    Wait(String),
}

/// One event of a forwarding run, attributed to its target.
#[derive(Debug)]
pub enum ChildEvent {
    /// A line of child output.
    Output(ConfigId, StreamSource, String),
    /// The child exited and will be restarted under the given policy.
    Exit(ConfigId, ChildExitStatus, RestartPolicy),
    /// A runtime error of the supervisor.
    Error(ConfigId, ChildError),
}

/// Failure to run the client binary at all.
#[derive(Debug)]
pub enum ShellError {
    CommandFailed(String),
}

/// Failure to read the client's version.
#[derive(Debug)]
pub enum VersionError {
    /// The version output could not be read.
    InvalidFormat(String),
    /// The version command could not be run.
    CommandFailed(String),
}

/// Failure to query the active context or cluster.
#[derive(Debug)]
pub enum ContextError {
    CommandFailed(String),
}

/// The rendering of a child exit status.
pub open spec fn spec_status_display(st: ChildExitStatus) -> Seq<char> {
    match st.code {
        Some(c) => "exit status: "@ + spec_int_display(c as int),
        None => "terminated by signal"@,
    }
}

/// The rendering of one event as an output line.
pub open spec fn spec_event_line(e: ChildEvent) -> Seq<char> {
    match e {
        ChildEvent::Output(id, _, msg) => spec_id_display(id@) + ": "@ + msg@,
        ChildEvent::Exit(id, status, RestartPolicy::WillRestartIn(d)) => spec_id_display(id@)
            + ": Process exited with "@ + spec_status_display(status) + (if d@ > 0 {
            " - will retry in "@ + spec_delay_display(d@)
        } else {
            " - retrying immediately"@
        }),
        ChildEvent::Error(id, ChildError::Wait(m)) => spec_id_display(id@)
            + ": An error occurred: "@ + m@,
    }
}

/// Whether an event belongs on the error stream: standard-error output,
/// exits and errors do; standard output lines do not.
pub open spec fn spec_event_to_stderr(e: ChildEvent) -> bool {
    match e {
        ChildEvent::Output(_, src, _) => src is StdErr,
        ChildEvent::Exit(_, _, _) => true,
        ChildEvent::Error(_, _) => true,
    }
}

/// Renders one event to an output line, attributed to its target, and
/// says whether the line belongs on the error stream.
pub fn render_event(event: &ChildEvent) -> (r: (String, bool))
    ensures
        r.0@ == spec_event_line(*event),
        r.1 == spec_event_to_stderr(*event),
{
    match event {
        ChildEvent::Output(id, src, msg) => {
            let mut line = id.display();
            line.append(": ");
            line.append(msg.as_str());
            let err = match src {
                StreamSource::StdOut => false,
                StreamSource::StdErr => true,
            };
            proof {
                assert(line@ =~= spec_event_line(*event));
            }
            (line, err)
        },
        ChildEvent::Exit(id, status, RestartPolicy::WillRestartIn(d)) => {
            let mut line = id.display();
            line.append(": Process exited with ");
            match status.code {
                Some(c) => {
                    line.append("exit status: ");
                    line.append(strutil::i32_to_string(c).as_str());
                },
                None => {
                    line.append("terminated by signal");
                },
            }
            if d.as_millis() > 0 {
                line.append(" - will retry in ");
                line.append(d.display().as_str());
            } else {
                line.append(" - retrying immediately");
            }
            proof {
                assert(line@ =~= spec_event_line(*event));
            }
            (line, true)
        },
        ChildEvent::Error(id, ChildError::Wait(m)) => {
            let mut line = id.display();
            line.append(": An error occurred: ");
            line.append(m.as_str());
            proof {
                assert(line@ =~= spec_event_line(*event));
            }
            (line, true)
        },
    }
}

/// The command output with surrounding single quotes removed.
pub open spec fn trim_quotes(s: Seq<char>) -> Seq<char>
    decreases s.len(),
{
    if s.len() > 0 && s[0] == '\'' {
        trim_quotes(s.drop_first())
    } else if s.len() > 0 && s.last() == '\'' {
        trim_quotes(s.drop_last())
    } else {
        s
    }
}

fn trim_quotes_exec(s: &str) -> (r: String)
    ensures
        r@ == trim_quotes(s@),
{
    let len = s.unicode_len();
    let mut lo: usize = 0;
    let mut hi: usize = len;
    proof {
        assert(s@.subrange(0, len as int) =~= s@);
    }
    while lo < hi
        invariant
            0 <= lo <= hi <= len,
            len == s@.len(),
            trim_quotes(s@) == trim_quotes(s@.subrange(lo as int, hi as int)),
        ensures
            0 <= lo <= hi <= len,
            len == s@.len(),
            trim_quotes(s@) == trim_quotes(s@.subrange(lo as int, hi as int)),
            lo == hi || s@[lo as int] != '\'',
        decreases hi - lo,
    {
        if s.get_char(lo) != '\'' {
            break;
        }
        proof {
            let t = s@.subrange(lo as int, hi as int);
            assert(t[0] == s@[lo as int]);
            assert(t.drop_first() =~= s@.subrange(lo as int + 1, hi as int));
        }
        lo += 1;
    }
    while lo < hi
        invariant
            0 <= lo <= hi <= len,
            len == s@.len(),
            trim_quotes(s@) == trim_quotes(s@.subrange(lo as int, hi as int)),
            lo < hi ==> s@[lo as int] != '\'',
        ensures
            0 <= lo <= hi <= len,
            len == s@.len(),
            trim_quotes(s@) == trim_quotes(s@.subrange(lo as int, hi as int)),
            lo == hi || (s@[lo as int] != '\'' && s@[hi - 1] != '\''),
        decreases hi - lo,
    {
        if s.get_char(hi - 1) != '\'' {
            break;
        }
        proof {
            let t = s@.subrange(lo as int, hi as int);
            assert(t[0] == s@[lo as int]);
            assert(t.last() == s@[hi - 1]);
            assert(t.drop_last() =~= s@.subrange(lo as int, hi as int - 1));
        }
        hi -= 1;
    }
    proof {
        let t = s@.subrange(lo as int, hi as int);
        if t.len() > 0 {
            assert(t[0] == s@[lo as int]);
            assert(t.last() == s@[hi - 1]);
        }
        assert(trim_quotes(t) == t);
    }
    s.substring_char(lo, hi).to_owned()
}

/// The active context that a `current-context` query names: the output
/// with its quotes removed, empty included.
pub fn parse_current_context(output: &str) -> (r: String)
    ensures
        r@ == trim_quotes(output@),
{
    trim_quotes_exec(output)
}

/// The active cluster that a cluster query names, or `None` when the
/// output is empty.
pub fn parse_current_cluster(output: &str) -> (r: Option<String>)
    ensures
        match r {
            Some(v) => trim_quotes(output@).len() > 0 && v@ == trim_quotes(output@),
            None => trim_quotes(output@).len() == 0,
        },
{
    let t = trim_quotes_exec(output);
    if t.as_str().unicode_len() == 0 {
        None
    } else {
        Some(t)
    }
}

/// What a context or cluster lookup yields: the single name in the
/// output, or `None` when the output is empty or ambiguous (several
/// space-separated matches).
pub open spec fn spec_lookup_value(s: Seq<char>) -> Option<Seq<char>> {
    let t = trim_quotes(s);
    let ps = split_chars(t, ' ');
    if ps.len() > 1 {
        None
    } else if ps[0].len() == 0 {
        None
    } else {
        Some(ps[0])
    }
}

/// Splitting yields at least one piece.
proof fn lemma_split_nonempty(s: Seq<char>, sep: char)
    ensures
        split_chars(s, sep).len() >= 1,
{
    strutil::lemma_find_sep(s, sep);
}

/// Reads a lookup answer: exactly one match is a name, none or several
/// leave the field unresolved.
pub fn parse_lookup_output(output: &str) -> (r: Option<String>)
    ensures
        match r {
            Some(v) => spec_lookup_value(output@) == Some(v@),
            None => spec_lookup_value(output@) is None,
        },
{
    let t = trim_quotes_exec(output);
    let parts = strutil::split_str(t.as_str(), ' ');
    proof {
        lemma_split_nonempty(t@, ' ');
        assert(views_of(parts@)[0] == parts@[0]@);
    }
    if parts.len() > 1 {
        return None;
    }
    if parts[0].as_str().unicode_len() == 0 {
        return None;
    }
    let mut parts = parts;
    let first = parts.remove(0);
    Some(first)
}

/// The categories a run can end in, each with its own process exit code.
#[derive(Debug, Clone, Copy, PartialEq, Eq, Structural)]
pub enum ExitCategory {
    /// The run completed (or was terminated externally as designed).
    Success,
    /// The configuration could not be used: a parse or version error.
    ConfigInvalid,
    /// The external collaborator was missing or unqueryable.
    Unavailable,
    /// The configuration was valid but named no targets.
    NoTargets,
}

impl ExitCategory {
    /// The process exit code of the category: `0` for success, `78` for
    /// invalid configuration, `69` for an unavailable collaborator, and
    /// `66` for an empty target list — each distinct.
    pub fn code(&self) -> (r: u8)
        ensures
            match self {
                ExitCategory::Success => r == 0,
                ExitCategory::ConfigInvalid => r == 78,
                ExitCategory::Unavailable => r == 69,
                ExitCategory::NoTargets => r == 66,
            },
    {
        match self {
            ExitCategory::Success => 0,
            ExitCategory::ConfigInvalid => 78,
            ExitCategory::Unavailable => 69,
            ExitCategory::NoTargets => 66,
        }
    }
}

/// The states of one target's supervision loop. The loop has no normal
/// terminal state: it respawns the forwarding subprocess until the whole
/// run is terminated. Only a failed spawn ends it, scoped to its target.
#[derive(Debug, Clone, Copy, PartialEq, Eq, Structural)]
pub enum SupervisorState {
    /// About to spawn the forwarding subprocess.
    Starting,
    /// The subprocess runs; waiting for it to exit.
    Running,
    /// Sleeping for the configured retry delay before the next spawn.
    Backoff,
    /// The spawn itself failed; this target's loop is over.
    Failed,
}

/// What the runner must do in the current state.
#[derive(Debug, Clone, Copy, PartialEq, Eq, Structural)]
pub enum SupervisorAction {
    /// Spawn the forwarding subprocess, with piped output.
    Spawn,
    /// Block until the subprocess exits.
    AwaitExit,
    /// Sleep for the given delay; a zero delay means respawn at once.
    Sleep(RetryDelay),
    /// Stop supervising this target.
    Stop,
}

/// What happened while performing the current state's action.
#[derive(Debug)]
pub enum SupervisorEvent {
    /// The subprocess was spawned.
    Spawned,
    /// The spawn failed; fatal for this target only.
    SpawnFailed,
    /// The subprocess exited with the given status.
    Exited(ChildExitStatus),
    /// Waiting for the subprocess failed; treated as transient.
    WaitFailed(String),
    /// The backoff sleep finished.
    Slept,
}

/// Which events can answer which state's action.
pub open spec fn event_fits(state: SupervisorState, event: SupervisorEvent) -> bool {
    match state {
        SupervisorState::Starting => event is Spawned || event is SpawnFailed,
        SupervisorState::Running => event is Exited || event is WaitFailed,
        SupervisorState::Backoff => event is Slept,
        SupervisorState::Failed => false,
    }
}

/// The transition table of the supervision loop.
pub open spec fn spec_step(
    state: SupervisorState,
    event: SupervisorEvent,
    id: ConfigId,
    delay: RetryDelay,
) -> (SupervisorState, Option<ChildEvent>) {
    match event {
        SupervisorEvent::Spawned => (SupervisorState::Running, None),
        SupervisorEvent::SpawnFailed => (SupervisorState::Failed, None),
        SupervisorEvent::Exited(st) => (
            SupervisorState::Backoff,
            Some(ChildEvent::Exit(id, st, RestartPolicy::WillRestartIn(delay))),
        ),
        SupervisorEvent::WaitFailed(m) => (
            SupervisorState::Starting,
            Some(ChildEvent::Error(id, ChildError::Wait(m))),
        ),
        SupervisorEvent::Slept => (SupervisorState::Starting, None),
    }
}

/// The action of each state: spawn at `Starting` (the first pass is the
/// bootstrap spawn, with no delay before it), wait at `Running`, sleep
/// the configured delay at `Backoff`, stop at `Failed`.
pub fn supervisor_action(state: &SupervisorState, delay: RetryDelay) -> (r: SupervisorAction)
    ensures
        match state {
            SupervisorState::Starting => r is Spawn,
            SupervisorState::Running => r is AwaitExit,
            SupervisorState::Backoff => r == SupervisorAction::Sleep(delay),
            SupervisorState::Failed => r is Stop,
        },
{
    match state {
        SupervisorState::Starting => SupervisorAction::Spawn,
        SupervisorState::Running => SupervisorAction::AwaitExit,
        SupervisorState::Backoff => SupervisorAction::Sleep(delay),
        SupervisorState::Failed => SupervisorAction::Stop,
    }
}

/// Advances the supervision loop by one event, yielding the next state
/// and the event to publish, if any: a child exit is published with the
/// restart policy, a wait failure as an error.
pub fn supervisor_step(
    state: SupervisorState,
    event: SupervisorEvent,
    id: ConfigId,
    delay: RetryDelay,
) -> (r: (SupervisorState, Option<ChildEvent>))
    requires
        event_fits(state, event),
    ensures
        r == spec_step(state, event, id, delay),
{
    match event {
        SupervisorEvent::Spawned => (SupervisorState::Running, None),
        SupervisorEvent::SpawnFailed => (SupervisorState::Failed, None),
        SupervisorEvent::Exited(st) => (
            SupervisorState::Backoff,
            Some(ChildEvent::Exit(id, st, RestartPolicy::WillRestartIn(delay))),
        ),
        SupervisorEvent::WaitFailed(m) => (
            SupervisorState::Starting,
            Some(ChildEvent::Error(id, ChildError::Wait(m))),
        ),
        SupervisorEvent::Slept => (SupervisorState::Starting, None),
    }
}

/// A new spawn is reached only through the backoff sleep that follows a
/// child exit, or at once after a failed wait; the only spawn without
/// either before it is the bootstrap spawn the loop begins in.
pub proof fn lemma_respawn_needs_backoff_or_wait_failure(
    state: SupervisorState,
    event: SupervisorEvent,
    id: ConfigId,
    delay: RetryDelay,
)
    requires
        event_fits(state, event),
        spec_step(state, event, id, delay).0 is Starting,
    ensures
        (state is Backoff && event is Slept) || (state is Running && event is WaitFailed),
{
}

/// Every child exit sends the supervisor into backoff for the configured
/// delay, and publishes exactly that policy with the exit event.
pub proof fn lemma_exit_enters_backoff(
    state: SupervisorState,
    st: ChildExitStatus,
    id: ConfigId,
    delay: RetryDelay,
)
    requires
        event_fits(state, SupervisorEvent::Exited(st)),
    ensures
        spec_step(state, SupervisorEvent::Exited(st), id, delay).0 is Backoff,
        spec_step(state, SupervisorEvent::Exited(st), id, delay).1 == Some(
            ChildEvent::Exit(id, st, RestartPolicy::WillRestartIn(delay)),
        ),
{
}

/// A failed wait respawns at once: the loop returns to `Starting`, whose
/// action is the spawn itself, with no backoff sleep in between.
pub proof fn lemma_wait_failure_skips_backoff(
    state: SupervisorState,
    m: Seq<char>,
    id: ConfigId,
    delay: RetryDelay,
)
    requires
        state is Running,
    ensures
        forall|msg: String| msg@ == m ==> (#[trigger] spec_step(
            state,
            SupervisorEvent::WaitFailed(msg),
            id,
            delay,
        )).0 is Starting,
{
}

} // verus!
