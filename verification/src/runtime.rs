//! The gateway's container: waiting until it is up, and the maintenance commands that run in it.
//!
//! Nothing here talks to a container. A caller runs the commands, inspects the container, sleeps
//! where it is told to wait, and hands in what it has seen.

use std::collections::VecDeque;

use vstd::prelude::*;

use crate::container_logs;
use crate::number;
use crate::text;

verus! {

/// How often the kubeconfig is asked for.
pub const KUBECONFIG_ATTEMPTS: u32 = 30;

/// How often the gateway's health is asked for.
pub const GATEWAY_ATTEMPTS: u32 = 180;

/// How often the exit code of a command is asked for.
pub const EXIT_POLLS: u32 = 20;

// ---------------------------------------------------------------------------
// Commands
// ---------------------------------------------------------------------------

/// A shell command with `kubeconfig` as its `KUBECONFIG`.
pub open spec fn kubectl_line(kubeconfig: Seq<char>, command: Seq<char>) -> Seq<Seq<char>> {
    seq!["sh"@, "-c"@, "KUBECONFIG="@ + kubeconfig + " kubectl "@ + command]
}

fn kubectl(kubeconfig: &str, command: &str) -> (v: Vec<String>)
    ensures
        text::views(v@) == kubectl_line(kubeconfig@, command@),
{
    let mut v: Vec<String> = Vec::new();
    v.push("sh".to_owned());
    v.push("-c".to_owned());
    v.push("KUBECONFIG=".to_owned().concat(kubeconfig).concat(" kubectl ").concat(command));
    assert(text::views(v@) =~= kubectl_line(kubeconfig@, command@));
    v
}

// ---------------------------------------------------------------------------
// Waiting for the kubeconfig
// ---------------------------------------------------------------------------

/// Whether `output` looks like a kubeconfig: it has an API version and clusters.
pub open spec fn kubeconfig_shaped(output: Seq<char>) -> bool {
    text::occurs(output, "apiVersion:"@) && text::occurs(output, "clusters:"@)
}

/// Whether a command's output is a kubeconfig, not an error message or a file half written.
pub fn is_valid_kubeconfig(output: &str) -> (r: bool)
    ensures
        r == kubeconfig_shaped(output@),
{
    text::contains(output, "apiVersion:") && text::contains(output, "clusters:")
}

/// The command that prints the kubeconfig.
pub fn kubeconfig_command(kubeconfig: &str) -> (v: Vec<String>)
    ensures
        text::views(v@) == seq!["cat"@, kubeconfig@],
{
    let mut v: Vec<String> = Vec::new();
    v.push("cat".to_owned());
    v.push(kubeconfig.to_owned());
    assert(text::views(v@) =~= seq!["cat"@, kubeconfig@]);
    v
}

/// Why there is no kubeconfig.
#[derive(Debug)]
pub enum KubeconfigFailure {
    /// The container does not run, for this reason.
    NotRunning(String),
    /// The command failed at the last attempt.
    CommandFailed,
    TimedOut,
}

impl KubeconfigFailure {
    /// The text of a failure, with the container's last log lines.
    pub open spec fn text(self, logs: Seq<char>) -> Seq<char> {
        match self {
            KubeconfigFailure::NotRunning(reason) =>
                "gateway container is not running while waiting for kubeconfig: "@ + reason@ + "\n"@
                    + logs,
            KubeconfigFailure::CommandFailed => "failed waiting for kubeconfig\n"@ + logs,
            KubeconfigFailure::TimedOut => "timed out waiting for kubeconfig\n"@ + logs,
        }
    }

    /// The failure as a message, with the container's last log lines.
    pub fn message(&self, logs: &str) -> (s: String)
        ensures
            s@ == self.text(logs@),
    {
        match self {
            KubeconfigFailure::NotRunning(reason) => {
                "gateway container is not running while waiting for kubeconfig: ".to_owned().concat(
                    reason.as_str(),
                ).concat("\n").concat(logs)
            },
            KubeconfigFailure::CommandFailed => {
                "failed waiting for kubeconfig\n".to_owned().concat(logs)
            },
            KubeconfigFailure::TimedOut => {
                "timed out waiting for kubeconfig\n".to_owned().concat(logs)
            },
        }
    }
}

/// What to do about the kubeconfig next.
#[derive(Debug)]
pub enum KubeconfigStep {
    /// See whether the container runs.
    Check,
    /// Run the command that prints the kubeconfig.
    Ask,
    /// Wait, then see again.
    Wait,
    /// This is the kubeconfig.
    Done(String),
    Fail(KubeconfigFailure),
}

/// What follows when `made` attempts have been made before and the next brings `output`.
pub open spec fn after_asking(made: int, output: Option<String>) -> KubeconfigStep {
    match output {
        Some(text) => if kubeconfig_shaped(text@) {
            KubeconfigStep::Done(text)
        } else {
            KubeconfigStep::Wait
        },
        None => if made + 1 < KUBECONFIG_ATTEMPTS {
            KubeconfigStep::Wait
        } else {
            KubeconfigStep::Fail(KubeconfigFailure::CommandFailed)
        },
    }
}

/// How a wait goes on after `made` attempts, in a container that keeps running, where the `i`th
/// attempt brings `outputs[i]`.
pub open spec fn kubeconfig_wait(outputs: Seq<Option<String>>, made: int) -> KubeconfigStep
    decreases KUBECONFIG_ATTEMPTS - made,
{
    if made >= KUBECONFIG_ATTEMPTS {
        KubeconfigStep::Fail(KubeconfigFailure::TimedOut)
    } else {
        match after_asking(made, outputs[made]) {
            KubeconfigStep::Wait => kubeconfig_wait(outputs, made + 1),
            step => step,
        }
    }
}

/// Whether an attempt brings a kubeconfig.
pub open spec fn brings_kubeconfig(output: Option<String>) -> bool {
    output matches Some(text) && kubeconfig_shaped(text@)
}

/// A wait ends with the first kubeconfig that comes. It fails only if none of all the attempts
/// brings one, and blames the command if that could not be run at the last of them.
pub proof fn law_first_kubeconfig_ends_the_wait(outputs: Seq<Option<String>>)
    requires
        outputs.len() == KUBECONFIG_ATTEMPTS,
    ensures
        match kubeconfig_wait(outputs, 0) {
            KubeconfigStep::Done(text) => exists|i: int|
                0 <= i < outputs.len() && outputs[i] == Some(text) && #[trigger] brings_kubeconfig(
                    outputs[i],
                ) && forall|j: int|
                    0 <= j < i ==> !#[trigger] brings_kubeconfig(outputs[j]),
            KubeconfigStep::Fail(reason) => {
                &&& forall|j: int|
                    0 <= j < outputs.len() ==> !#[trigger] brings_kubeconfig(outputs[j])
                &&& reason == (if outputs.last() is None {
                    KubeconfigFailure::CommandFailed
                } else {
                    KubeconfigFailure::TimedOut
                })
            },
            _ => false,
        },
{
    lemma_kubeconfig_wait(outputs, 0);
}

proof fn lemma_kubeconfig_wait(outputs: Seq<Option<String>>, made: int)
    requires
        outputs.len() == KUBECONFIG_ATTEMPTS,
        0 <= made <= KUBECONFIG_ATTEMPTS,
        forall|j: int| 0 <= j < made ==> !#[trigger] brings_kubeconfig(outputs[j]),
        made == KUBECONFIG_ATTEMPTS ==> outputs.last() is Some,
    ensures
        match kubeconfig_wait(outputs, made) {
            KubeconfigStep::Done(text) => exists|i: int|
                0 <= i < outputs.len() && outputs[i] == Some(text) && #[trigger] brings_kubeconfig(
                    outputs[i],
                ) && forall|j: int|
                    0 <= j < i ==> !#[trigger] brings_kubeconfig(outputs[j]),
            KubeconfigStep::Fail(reason) => {
                &&& forall|j: int|
                    0 <= j < outputs.len() ==> !#[trigger] brings_kubeconfig(outputs[j])
                &&& reason == (if outputs.last() is None {
                    KubeconfigFailure::CommandFailed
                } else {
                    KubeconfigFailure::TimedOut
                })
            },
            _ => false,
        },
    decreases KUBECONFIG_ATTEMPTS - made,
{
    if made < KUBECONFIG_ATTEMPTS {
        if after_asking(made, outputs[made]) is Wait {
            lemma_kubeconfig_wait(outputs, made + 1);
        } else if brings_kubeconfig(outputs[made]) {
            assert(outputs[made] == Some(outputs[made]->0));
        }
    }
}

/// The wait for a kubeconfig: how many attempts have been made.
#[derive(Debug)]
pub struct KubeconfigWait {
    attempts: u32,
}

impl KubeconfigWait {
    #[verifier::type_invariant]
    spec fn well_formed(self) -> bool {
        self.attempts <= KUBECONFIG_ATTEMPTS
    }

    /// How many attempts have been made.
    pub closed spec fn made(self) -> u32 {
        self.attempts
    }

    /// A wait in which nothing has been asked yet.
    pub fn new() -> (w: KubeconfigWait)
        ensures
            w.made() == 0,
    {
        KubeconfigWait { attempts: 0 }
    }

    /// What to do at the start of an attempt: see to the container, or give up once there have been
    /// enough.
    pub fn begin(&self) -> (s: KubeconfigStep)
        ensures
            self.made() <= KUBECONFIG_ATTEMPTS,
            s == (if self.made() < KUBECONFIG_ATTEMPTS {
                KubeconfigStep::Check
            } else {
                KubeconfigStep::Fail(KubeconfigFailure::TimedOut)
            }),
    {
        proof {
            use_type_invariant(self);
        }
        if self.attempts < KUBECONFIG_ATTEMPTS {
            KubeconfigStep::Check
        } else {
            KubeconfigStep::Fail(KubeconfigFailure::TimedOut)
        }
    }

    /// The container has been seen to: what keeps it from running, if anything does. Only in a
    /// container that runs is there anything to ask.
    pub fn checked(&self, problem: Option<String>) -> (s: KubeconfigStep)
        ensures
            s == (match problem {
                Some(reason) => KubeconfigStep::Fail(KubeconfigFailure::NotRunning(reason)),
                None => KubeconfigStep::Ask,
            }),
    {
        match problem {
            Some(reason) => KubeconfigStep::Fail(KubeconfigFailure::NotRunning(reason)),
            None => KubeconfigStep::Ask,
        }
    }

    /// The command has run: its output, or that it could not be run. Output that is no kubeconfig
    /// is waited out; so is a failure, except at the last attempt.
    pub fn asked(&mut self, output: Option<String>) -> (s: KubeconfigStep)
        requires
            old(self).made() < KUBECONFIG_ATTEMPTS,
        ensures
            final(self).made() == old(self).made() + 1,
            s == after_asking(old(self).made() as int, output),
    {
        self.attempts = self.attempts + 1;
        match output {
            Some(text) => if is_valid_kubeconfig(text.as_str()) {
                KubeconfigStep::Done(text)
            } else {
                KubeconfigStep::Wait
            },
            None => if self.attempts < KUBECONFIG_ATTEMPTS {
                KubeconfigStep::Wait
            } else {
                KubeconfigStep::Fail(KubeconfigFailure::CommandFailed)
            },
        }
    }
}

// ---------------------------------------------------------------------------
// Waiting for the gateway
// ---------------------------------------------------------------------------

/// What a container's health check says.
#[derive(Debug, Clone, Copy, PartialEq, Eq, Structural)]
pub enum HealthStatus {
    /// It says nothing.
    Empty,
    /// There is none.
    Absent,
    Starting,
    Healthy,
    Unhealthy,
}

/// The state of a container, as far as it is known.
#[derive(Debug)]
pub struct ContainerState {
    pub running: Option<bool>,
    pub exit_code: Option<i64>,
    pub error: Option<String>,
    pub health: Option<HealthStatus>,
}

/// Why the gateway is not ready.
#[derive(Debug)]
pub enum GatewayFailure {
    /// The container has ended: its exit code, -1 for none, and its error, which may be empty.
    Exited(i64, String),
    Unhealthy,
    NoHealthCheck,
    TimedOut,
}

impl GatewayFailure {
    /// What a failure says.
    pub open spec fn head(self) -> Seq<char> {
        match self {
            GatewayFailure::Exited(code, error) => {
                let detail = "gateway container exited unexpectedly (exit_code="@
                    + number::signed_decimal(code as int) + ")"@;
                if error@.len() == 0 {
                    detail
                } else {
                    detail + ", error="@ + error@
                }
            },
            GatewayFailure::Unhealthy => "gateway health check reported unhealthy"@,
            GatewayFailure::NoHealthCheck => "gateway container does not expose a health check"@,
            GatewayFailure::TimedOut => "timed out waiting for gateway health check"@,
        }
    }

    fn head_text(&self) -> (s: String)
        ensures
            s@ == self.head(),
    {
        match self {
            GatewayFailure::Exited(code, error) => {
                let digits = number::render_i64(*code);
                let detail = "gateway container exited unexpectedly (exit_code=".to_owned().concat(
                    digits.as_str(),
                ).concat(")");
                if error.as_str().is_empty() {
                    detail
                } else {
                    detail.concat(", error=").concat(error.as_str())
                }
            },
            GatewayFailure::Unhealthy => "gateway health check reported unhealthy".to_owned(),
            GatewayFailure::NoHealthCheck => {
                "gateway container does not expose a health check".to_owned()
            },
            GatewayFailure::TimedOut => "timed out waiting for gateway health check".to_owned(),
        }
    }

    /// Whether the log lines that have come since are to be read first.
    pub fn reads_logs(&self) -> (r: bool)
        ensures
            r == (self is Exited || self is TimedOut),
    {
        match self {
            GatewayFailure::Exited(_, _) => true,
            GatewayFailure::TimedOut => true,
            GatewayFailure::Unhealthy => false,
            GatewayFailure::NoHealthCheck => false,
        }
    }

    /// The failure as a message, with the container's last log lines.
    pub fn message(&self, recent_logs: &VecDeque<String>) -> (s: String)
        ensures
            s@ == self.head() + "\n"@ + container_logs::log_section(
                text::views(recent_logs@),
                "container logs: none received"@,
            ),
    {
        let logs = container_logs::format_recent_logs(recent_logs);
        self.head_text().concat("\n").concat(logs.as_str())
    }
}

/// What to do about the gateway next.
#[derive(Debug)]
pub enum GatewayStep {
    /// Inspect the container.
    Inspect,
    /// Wait, then see again.
    Wait,
    Ready,
    Fail(GatewayFailure),
}

/// Whether a state is that of a running container.
pub open spec fn runs(state: Option<ContainerState>) -> bool {
    state matches Some(s) && s.running == Some(true)
}

/// The health of a container.
pub open spec fn health_of(state: Option<ContainerState>) -> Option<HealthStatus> {
    match state {
        Some(s) => s.health,
        None => None,
    }
}

/// The failure that a container which does not run makes.
pub open spec fn is_exit_of(failure: GatewayFailure, state: Option<ContainerState>) -> bool {
    let (code, error): (Option<i64>, Option<String>) = match state {
        Some(s) => (s.exit_code, s.error),
        None => (None, None),
    };
    failure matches GatewayFailure::Exited(c, e) && c == (match code {
        Some(n) => n as int,
        None => -1,
    }) && e@ == (match error {
        Some(t) => t@,
        None => Seq::empty(),
    })
}

/// What follows when `made` attempts have been made before and the next finds the container running
/// in this health.
pub open spec fn after_inspecting(made: int, health: Option<HealthStatus>) -> GatewayStep {
    match health {
        Some(HealthStatus::Healthy) => GatewayStep::Ready,
        Some(HealthStatus::Unhealthy) => if made + 1 == GATEWAY_ATTEMPTS {
            GatewayStep::Fail(GatewayFailure::Unhealthy)
        } else {
            GatewayStep::Wait
        },
        Some(HealthStatus::Starting) => GatewayStep::Wait,
        Some(HealthStatus::Absent) | Some(HealthStatus::Empty) | None => if made == 0 {
            GatewayStep::Fail(GatewayFailure::NoHealthCheck)
        } else {
            GatewayStep::Wait
        },
    }
}

/// How a wait goes on after `made` attempts, for a container that keeps running, where the `i`th
/// attempt finds the health `seen[i]`.
pub open spec fn gateway_wait(seen: Seq<Option<HealthStatus>>, made: int) -> GatewayStep
    decreases GATEWAY_ATTEMPTS - made,
{
    if made >= GATEWAY_ATTEMPTS {
        GatewayStep::Fail(GatewayFailure::TimedOut)
    } else {
        match after_inspecting(made, seen[made]) {
            GatewayStep::Wait => gateway_wait(seen, made + 1),
            step => step,
        }
    }
}

/// Whether a health is that of a container without a health check.
pub open spec fn no_health_check(health: Option<HealthStatus>) -> bool {
    health is None || health == Some(HealthStatus::Absent) || health == Some(HealthStatus::Empty)
}

/// A running gateway that has a health check is ready as soon as it is healthy, whatever it was
/// before. Otherwise the wait lasts through all the attempts, and fails as unhealthy if that is
/// what the last of them finds. A gateway without a health check fails at once.
pub proof fn law_health_ends_the_wait(seen: Seq<Option<HealthStatus>>)
    requires
        seen.len() == GATEWAY_ATTEMPTS,
    ensures
        gateway_wait(seen, 0) == (if no_health_check(seen[0]) {
            GatewayStep::Fail(GatewayFailure::NoHealthCheck)
        } else if seen.contains(Some(HealthStatus::Healthy)) {
            GatewayStep::Ready
        } else if seen.last() == Some(HealthStatus::Unhealthy) {
            GatewayStep::Fail(GatewayFailure::Unhealthy)
        } else {
            GatewayStep::Fail(GatewayFailure::TimedOut)
        }),
{
    if !no_health_check(seen[0]) {
        lemma_gateway_wait(seen, 0);
    }
}

proof fn lemma_gateway_wait(seen: Seq<Option<HealthStatus>>, made: int)
    requires
        seen.len() == GATEWAY_ATTEMPTS,
        0 <= made <= GATEWAY_ATTEMPTS,
        made == 0 ==> !no_health_check(seen[0]),
        forall|j: int| 0 <= j < made ==> #[trigger] seen[j] != Some(HealthStatus::Healthy),
        made == GATEWAY_ATTEMPTS ==> seen.last() != Some(HealthStatus::Unhealthy),
    ensures
        gateway_wait(seen, made) == (if seen.contains(Some(HealthStatus::Healthy)) {
            GatewayStep::Ready
        } else if seen.last() == Some(HealthStatus::Unhealthy) {
            GatewayStep::Fail(GatewayFailure::Unhealthy)
        } else {
            GatewayStep::Fail(GatewayFailure::TimedOut)
        }),
    decreases GATEWAY_ATTEMPTS - made,
{
    if made < GATEWAY_ATTEMPTS {
        if seen[made] == Some(HealthStatus::Healthy) {
            assert(seen.contains(seen[made]));
        } else if after_inspecting(made, seen[made]) is Wait {
            lemma_gateway_wait(seen, made + 1);
        } else {
            assert(made + 1 == GATEWAY_ATTEMPTS);
        }
    }
}

/// The wait for a gateway: how many attempts have been made.
#[derive(Debug)]
pub struct GatewayWait {
    attempts: u32,
}

impl GatewayWait {
    #[verifier::type_invariant]
    spec fn well_formed(self) -> bool {
        self.attempts <= GATEWAY_ATTEMPTS
    }

    /// How many attempts have been made.
    pub closed spec fn made(self) -> u32 {
        self.attempts
    }

    /// A wait in which nothing has been inspected yet.
    pub fn new() -> (w: GatewayWait)
        ensures
            w.made() == 0,
    {
        GatewayWait { attempts: 0 }
    }

    /// What to do at the start of an attempt: inspect, or give up once there have been enough.
    pub fn begin(&self) -> (s: GatewayStep)
        ensures
            self.made() <= GATEWAY_ATTEMPTS,
            s == (if self.made() < GATEWAY_ATTEMPTS {
                GatewayStep::Inspect
            } else {
                GatewayStep::Fail(GatewayFailure::TimedOut)
            }),
    {
        proof {
            use_type_invariant(self);
        }
        if self.attempts < GATEWAY_ATTEMPTS {
            GatewayStep::Inspect
        } else {
            GatewayStep::Fail(GatewayFailure::TimedOut)
        }
    }

    /// The container has been inspected. One that runs is ready once it is healthy. It may be
    /// unhealthy for a while, but not at the last attempt, and it must have a health check from
    /// the first.
    pub fn inspected(&mut self, state: Option<ContainerState>) -> (s: GatewayStep)
        requires
            old(self).made() < GATEWAY_ATTEMPTS,
        ensures
            final(self).made() == old(self).made() + 1,
            if !runs(state) {
                s matches GatewayStep::Fail(f) && is_exit_of(f, state)
            } else {
                s == after_inspecting(old(self).made() as int, health_of(state))
            },
    {
        let attempt = self.attempts;
        self.attempts = attempt + 1;
        let (running, exit_code, error, health) = match state {
            Some(s) => (s.running, s.exit_code, s.error, s.health),
            None => (None, None, None, None),
        };
        let runs_now = match running {
            Some(b) => b,
            None => false,
        };
        if !runs_now {
            let code: i64 = match exit_code {
                Some(c) => c,
                None => -1,
            };
            let error = match error {
                Some(e) => e,
                None => String::new(),
            };
            return GatewayStep::Fail(GatewayFailure::Exited(code, error));
        }
        match health {
            Some(HealthStatus::Healthy) => GatewayStep::Ready,
            Some(HealthStatus::Unhealthy) => if attempt + 1 == GATEWAY_ATTEMPTS {
                GatewayStep::Fail(GatewayFailure::Unhealthy)
            } else {
                GatewayStep::Wait
            },
            Some(HealthStatus::Starting) => GatewayStep::Wait,
            Some(HealthStatus::Absent) | Some(HealthStatus::Empty) | None => if attempt == 0 {
                GatewayStep::Fail(GatewayFailure::NoHealthCheck)
            } else {
                GatewayStep::Wait
            },
        }
    }
}

// ---------------------------------------------------------------------------
// The exit code of a command
// ---------------------------------------------------------------------------

/// What to do about the exit code of a command next.
#[derive(Debug, PartialEq, Eq, Structural)]
pub enum ExitStep {
    /// Ask for the exit code.
    Ask,
    /// Wait, then see again.
    Wait,
    /// This is the exit code.
    Exit(i64),
}

/// The wait for the exit code of a command: how often it has been asked for.
#[derive(Debug)]
pub struct ExitWait {
    polls: u32,
}

impl ExitWait {
    #[verifier::type_invariant]
    spec fn well_formed(self) -> bool {
        self.polls <= EXIT_POLLS
    }

    /// How often the exit code has been asked for.
    pub closed spec fn made(self) -> u32 {
        self.polls
    }

    /// A wait in which nothing has been asked yet.
    pub fn new() -> (w: ExitWait)
        ensures
            w.made() == 0,
    {
        ExitWait { polls: 0 }
    }

    /// What to do next. A command without an exit code after enough attempts counts as failed.
    pub fn begin(&self) -> (s: ExitStep)
        ensures
            self.made() <= EXIT_POLLS,
            s == (if self.made() < EXIT_POLLS {
                ExitStep::Ask
            } else {
                ExitStep::Exit(1)
            }),
    {
        proof {
            use_type_invariant(self);
        }
        if self.polls < EXIT_POLLS {
            ExitStep::Ask
        } else {
            ExitStep::Exit(1)
        }
    }

    /// The command has been inspected: its exit code, if it has one.
    pub fn inspected(&mut self, exit_code: Option<i64>) -> (s: ExitStep)
        requires
            old(self).made() < EXIT_POLLS,
        ensures
            final(self).made() == old(self).made() + 1,
            s == (match exit_code {
                Some(code) => ExitStep::Exit(code),
                None => ExitStep::Wait,
            }),
    {
        self.polls = self.polls + 1;
        match exit_code {
            Some(code) => ExitStep::Exit(code),
            None => ExitStep::Wait,
        }
    }
}

// ---------------------------------------------------------------------------
// Stale nodes
// ---------------------------------------------------------------------------

/// The command that lists the nodes that are not ready.
///
/// The last condition on a node is always type=Ready; its **status** (True/False/Unknown) counts,
/// not its type. Nodes where that status is not "True" are stale.
pub fn stale_nodes_command(kubeconfig: &str) -> (v: Vec<String>)
    ensures
        text::views(v@) == kubectl_line(
            kubeconfig@,
            "get nodes --no-headers -o custom-columns=NAME:.metadata.name,STATUS:.status.conditions[-1].status 2>/dev/null | grep -v '\\bTrue$' | awk '{print $1}'"@,
        ),
{
    kubectl(
        kubeconfig,
        "get nodes --no-headers -o custom-columns=NAME:.metadata.name,STATUS:.status.conditions[-1].status 2>/dev/null | grep -v '\\bTrue$' | awk '{print $1}'",
    )
}

/// The nodes that the list names, one on each line: none where the command failed, which means
/// that there is no list yet.
pub fn stale_nodes(output: &str, exit_code: i64) -> (v: Vec<String>)
    ensures
        text::views(v@) == (if exit_code != 0 {
            Seq::empty()
        } else {
            container_logs::trimmed_lines(output@)
        }),
{
    let mut v: Vec<String> = Vec::new();
    assert(text::views(v@) =~= Seq::empty());
    if exit_code == 0 {
        container_logs::push_trimmed_lines(&mut v, output);
        assert(text::views(v@) =~= container_logs::trimmed_lines(output@));
    }
    v
}

/// What is left to do about stale nodes.
#[derive(Debug)]
pub enum NodeCleanup {
    /// Nothing, as there are none.
    Nothing,
    /// Run this command, which removes them.
    Delete(Vec<String>),
}

/// The removal of stale nodes.
pub fn node_cleanup(kubeconfig: &str, nodes: &Vec<String>) -> (c: NodeCleanup)
    ensures
        nodes@.len() == 0 <==> c is Nothing,
        c matches NodeCleanup::Delete(command) ==> text::views(command@) == kubectl_line(
            kubeconfig@,
            "delete node "@ + text::joined(text::views(nodes@), " "@) + " --ignore-not-found"@,
        ),
{
    if nodes.len() == 0 {
        return NodeCleanup::Nothing;
    }
    let list = text::join(nodes, " ");
    let line = "delete node ".to_owned().concat(list.as_str()).concat(" --ignore-not-found");
    NodeCleanup::Delete(kubectl(kubeconfig, line.as_str()))
}

/// What kubectl says of a node that it has deleted.
pub open spec fn deleted_line(node: Seq<char>) -> Seq<char> {
    "node \""@ + node + "\" deleted"@
}

/// How many of `nodes` are said to be deleted in `lines`.
pub open spec fn deleted_among(nodes: Seq<Seq<char>>, lines: Seq<Seq<char>>) -> nat
    decreases nodes.len(),
{
    if nodes.len() == 0 {
        0
    } else {
        deleted_among(nodes.drop_last(), lines) + (if lines.contains(deleted_line(nodes.last())) {
            1nat
        } else {
            0
        })
    }
}

/// How many of `nodes` a delete command has removed: all of them if it succeeds, else those that
/// its output says were deleted.
pub open spec fn removed_count(nodes: Seq<Seq<char>>, exit_code: i64, output: Seq<char>) -> nat {
    if exit_code == 0 {
        nodes.len()
    } else {
        deleted_among(nodes, container_logs::trimmed_lines(output))
    }
}

fn has_line(lines: &Vec<String>, line: &str) -> (r: bool)
    ensures
        r == text::views(lines@).contains(line@),
{
    let mut i: usize = 0;
    while i < lines.len()
        invariant
            i <= lines@.len(),
            forall|j: int| 0 <= j < i ==> (#[trigger] text::views(lines@)[j]) != line@,
        decreases lines@.len() - i,
    {
        assert(text::views(lines@)[i as int] == lines@[i as int]@);
        if text::same(lines[i].as_str(), line) {
            return true;
        }
        i += 1;
    }
    false
}

/// The number of stale nodes removed, from the outcome of the delete command.
pub fn nodes_removed(nodes: &Vec<String>, exit_code: i64, output: &str) -> (n: usize)
    ensures
        n == removed_count(text::views(nodes@), exit_code, output@),
        n <= nodes@.len(),
{
    if exit_code == 0 {
        return nodes.len();
    }
    let mut lines: Vec<String> = Vec::new();
    assert(text::views(lines@) =~= Seq::empty());
    container_logs::push_trimmed_lines(&mut lines, output);
    assert(text::views(lines@) =~= container_logs::trimmed_lines(output@));
    let ghost all = text::views(nodes@);
    let ghost said = text::views(lines@);
    let mut n: usize = 0;
    let mut i: usize = 0;
    assert(all.take(0) =~= Seq::empty());
    while i < nodes.len()
        invariant
            n <= i <= nodes@.len(),
            all == text::views(nodes@),
            said == text::views(lines@),
            n == deleted_among(all.take(i as int), said),
        decreases nodes@.len() - i,
    {
        proof {
            let t = all.take(i + 1);
            assert(t.drop_last() =~= all.take(i as int));
            assert(t.last() == nodes@[i as int]@);
        }
        let line = "node \"".to_owned().concat(nodes[i].as_str()).concat("\" deleted");
        if has_line(&lines, line.as_str()) {
            n += 1;
        }
        i += 1;
    }
    assert(all.take(i as int) =~= all);
    n
}

/// A delete command that succeeds removes every node that was listed. One that fails without
/// saying that it deleted any of them removes none.
pub proof fn law_failed_delete_removes_none(
    nodes: Seq<Seq<char>>,
    exit_code: i64,
    output: Seq<char>,
)
    ensures
        exit_code == 0 ==> removed_count(nodes, exit_code, output) == nodes.len(),
        exit_code != 0 && (forall|i: int|
            0 <= i < nodes.len() ==> !container_logs::trimmed_lines(output).contains(
                deleted_line(#[trigger] nodes[i]),
            )) ==> removed_count(nodes, exit_code, output) == 0,
    decreases nodes.len(),
{
    if exit_code != 0 && nodes.len() > 0 {
        let front = nodes.drop_last();
        law_failed_delete_removes_none(front, exit_code, output);
        if forall|i: int|
            0 <= i < nodes.len() ==> !container_logs::trimmed_lines(output).contains(
                deleted_line(#[trigger] nodes[i]),
            ) {
            assert forall|i: int| 0 <= i < front.len() implies !container_logs::trimmed_lines(
                output,
            ).contains(deleted_line(#[trigger] front[i])) by {
                assert(front[i] == nodes[i]);
            }
            assert(nodes[nodes.len() - 1] == nodes.last());
        }
    }
}

// ---------------------------------------------------------------------------
// The workload
// ---------------------------------------------------------------------------

/// How openshell is deployed.
#[derive(Debug, Clone, Copy, PartialEq, Eq, Structural)]
pub enum WorkloadKind {
    StatefulSet,
    Deployment,
}

impl WorkloadKind {
    /// The name of a workload kind.
    pub open spec fn text(self) -> Seq<char> {
        match self {
            WorkloadKind::StatefulSet => "statefulset"@,
            WorkloadKind::Deployment => "deployment"@,
        }
    }

    /// The openshell workload of this kind.
    pub open spec fn workload(self) -> Seq<char> {
        self.text() + "/openshell"@
    }

    /// The name of the kind.
    pub fn name(&self) -> (s: &'static str)
        ensures
            s@ == self.text(),
    {
        match self {
            WorkloadKind::StatefulSet => "statefulset",
            WorkloadKind::Deployment => "deployment",
        }
    }

    /// The openshell workload of this kind.
    pub fn workload_ref(&self) -> (s: String)
        ensures
            s@ == self.workload(),
    {
        self.name().to_owned().concat("/openshell")
    }

    /// The command that succeeds if there is an openshell workload of this kind.
    pub fn probe_command(&self, kubeconfig: &str) -> (v: Vec<String>)
        ensures
            text::views(v@) == kubectl_line(
                kubeconfig@,
                "get "@ + self.workload() + " -n openshell -o name 2>/dev/null"@,
            ),
    {
        let workload = self.workload_ref();
        let line = "get ".to_owned().concat(workload.as_str()).concat(
            " -n openshell -o name 2>/dev/null",
        );
        kubectl(kubeconfig, line.as_str())
    }

    /// The command that restarts the workload.
    pub fn restart_command(&self, kubeconfig: &str) -> (v: Vec<String>)
        ensures
            text::views(v@) == kubectl_line(
                kubeconfig@,
                "rollout restart "@ + self.workload() + " -n openshell"@,
            ),
    {
        let workload = self.workload_ref();
        let line = "rollout restart ".to_owned().concat(workload.as_str()).concat(" -n openshell");
        kubectl(kubeconfig, line.as_str())
    }

    /// The command that waits until the restart is done.
    pub open spec fn status_line(self, kubeconfig: Seq<char>) -> Seq<Seq<char>> {
        kubectl_line(
            kubeconfig,
            "rollout status "@ + self.workload() + " -n openshell --timeout=180s"@,
        )
    }

    /// The message where the restart failed.
    pub open spec fn restart_failure(self, output: Seq<char>, exit_code: i64) -> Seq<char> {
        "failed to restart openshell "@ + self.workload() + " (exit code "@
            + number::signed_decimal(exit_code as int) + ")\n"@ + output
    }

    /// The command that waits until the restart is done.
    pub fn status_command(&self, kubeconfig: &str) -> (v: Vec<String>)
        ensures
            text::views(v@) == self.status_line(kubeconfig@),
    {
        let workload = self.workload_ref();
        let line = "rollout status ".to_owned().concat(workload.as_str()).concat(
            " -n openshell --timeout=180s",
        );
        kubectl(kubeconfig, line.as_str())
    }

    /// What the restart came to.
    pub fn restarted(&self, output: &str, exit_code: i64) -> (r: Result<(), String>)
        ensures
            r is Ok <==> exit_code == 0,
            r matches Err(m) ==> m@ == self.restart_failure(output@, exit_code),
    {
        if exit_code == 0 {
            return Ok(());
        }
        let workload = self.workload_ref();
        let code = number::render_i64(exit_code);
        Err(
            "failed to restart openshell ".to_owned().concat(workload.as_str()).concat(
                " (exit code ",
            ).concat(code.as_str()).concat(")\n").concat(output),
        )
    }

    /// What waiting for the restart came to.
    pub fn rolled_out(&self, output: &str, exit_code: i64) -> (r: Result<(), String>)
        ensures
            r is Ok <==> exit_code == 0,
            r matches Err(m) ==> m@ == "openshell rollout status failed for "@ + self.workload()
                + " (exit code "@ + number::signed_decimal(exit_code as int) + ")\n"@ + output@,
    {
        if exit_code == 0 {
            return Ok(());
        }
        let workload = self.workload_ref();
        let code = number::render_i64(exit_code);
        Err(
            "openshell rollout status failed for ".to_owned().concat(workload.as_str()).concat(
                " (exit code ",
            ).concat(code.as_str()).concat(")\n").concat(output),
        )
    }
}

/// What follows the restart of a workload.
#[derive(Debug)]
pub enum RestartStep {
    /// Run this command, which waits until the restart is done.
    Await(Vec<String>),
    /// Give up, with this message.
    Fail(String),
}

/// What follows the restart of a workload: only one that succeeded is waited for.
pub fn after_restart(kind: WorkloadKind, kubeconfig: &str, output: &str, exit_code: i64) -> (s:
    RestartStep)
    ensures
        match s {
            RestartStep::Await(command) => exit_code == 0 && text::views(command@)
                == kind.status_line(kubeconfig@),
            RestartStep::Fail(message) => exit_code != 0 && message@ == kind.restart_failure(
                output@,
                exit_code,
            ),
        },
{
    match kind.restarted(output, exit_code) {
        Ok(()) => RestartStep::Await(kind.status_command(kubeconfig)),
        Err(message) => RestartStep::Fail(message),
    }
}

/// What to do about the workload next.
#[derive(Debug)]
pub enum WorkloadSearch {
    /// See whether there is one of this kind.
    Probe(WorkloadKind),
    Found(WorkloadKind),
    NotFound,
}

/// Where the search for the workload begins: with the primary kind for fresh deploys.
pub fn detect_openshell_workload_kind() -> (s: WorkloadSearch)
    ensures
        s == WorkloadSearch::Probe(WorkloadKind::StatefulSet),
{
    WorkloadSearch::Probe(WorkloadKind::StatefulSet)
}

/// How the search goes on after a probe with this exit code.
pub open spec fn search_after(kind: WorkloadKind, exit_code: i64) -> WorkloadSearch {
    if exit_code == 0 {
        WorkloadSearch::Found(kind)
    } else {
        match kind {
            WorkloadKind::StatefulSet => WorkloadSearch::Probe(WorkloadKind::Deployment),
            WorkloadKind::Deployment => WorkloadSearch::NotFound,
        }
    }
}

/// The search goes on after a probe.
pub fn probed(kind: WorkloadKind, exit_code: i64) -> (s: WorkloadSearch)
    ensures
        s == search_after(kind, exit_code),
{
    if exit_code == 0 {
        return WorkloadSearch::Found(kind);
    }
    match kind {
        WorkloadKind::StatefulSet => WorkloadSearch::Probe(WorkloadKind::Deployment),
        WorkloadKind::Deployment => WorkloadSearch::NotFound,
    }
}

/// The message where there is no workload.
pub fn no_workload_message() -> (s: String)
    ensures
        s@
            == "no openshell workload (statefulset or deployment) found in namespace 'openshell'"@,
{
    "no openshell workload (statefulset or deployment) found in namespace 'openshell'".to_owned()
}

/// Whether there is a workload: no, where the search failed.
pub fn openshell_workload_exists(found: &Result<WorkloadKind, String>) -> (r: bool)
    ensures
        r == (found is Ok),
{
    match found {
        Ok(_) => true,
        Err(_) => false,
    }
}

/// The search takes at most two probes, and finds a stateful set where there is one, and a
/// deployment only where there is no stateful set.
pub proof fn law_search_prefers_the_stateful_set(stateful_set: i64, deployment: i64)
    ensures
        match search_after(WorkloadKind::StatefulSet, stateful_set) {
            WorkloadSearch::Found(kind) => stateful_set == 0 && kind == WorkloadKind::StatefulSet,
            WorkloadSearch::Probe(kind) => {
                &&& stateful_set != 0
                &&& kind == WorkloadKind::Deployment
                &&& search_after(kind, deployment) == (if deployment == 0 {
                    WorkloadSearch::Found(WorkloadKind::Deployment)
                } else {
                    WorkloadSearch::NotFound
                })
            },
            WorkloadSearch::NotFound => false,
        },
{
}

// ---------------------------------------------------------------------------
// Laws
// ---------------------------------------------------------------------------

/// A command runs in a shell, with the kubeconfig in its environment.
pub proof fn law_commands_run_in_a_shell(kubeconfig: Seq<char>, command: Seq<char>)
    ensures
        kubectl_line(kubeconfig, command).len() == 3,
        kubectl_line(kubeconfig, command)[0] == "sh"@,
        kubectl_line(kubeconfig, command)[1] == "-c"@,
        kubectl_line(kubeconfig, command)[2] == "KUBECONFIG="@ + kubeconfig + " kubectl "@
            + command,
{
}

/// A kubeconfig is told by its two keys, in whatever order and with whatever around them.
pub proof fn law_kubeconfig_has_both_keys(
    output: Seq<char>,
    a: Seq<char>,
    b: Seq<char>,
    c: Seq<char>,
)
    ensures
        kubeconfig_shaped(a + "apiVersion:"@ + (b + "clusters:"@ + c)),
        kubeconfig_shaped(a + "clusters:"@ + (b + "apiVersion:"@ + c)),
        kubeconfig_shaped(output) <==> text::occurs(output, "apiVersion:"@) && text::occurs(
            output,
            "clusters:"@,
        ),
{
    let api = "apiVersion:"@;
    let clusters = "clusters:"@;
    text::law_parts_occur(a, api, b + clusters + c);
    text::law_parts_occur(a + api + b, clusters, c);
    assert(a + api + b + clusters + c =~= a + api + (b + clusters + c));
    text::law_parts_occur(a, clusters, b + api + c);
    text::law_parts_occur(a + clusters + b, api, c);
    assert(a + clusters + b + api + c =~= a + clusters + (b + api + c));
}

/// How often things are asked for.
pub proof fn law_attempts_are_limited()
    ensures
        KUBECONFIG_ATTEMPTS == 30,
        GATEWAY_ATTEMPTS == 180,
        EXIT_POLLS == 20,
{
}

/// One attempt at the kubeconfig: a kubeconfig ends the wait with itself, anything else is waited
/// out, and so is a command that cannot be run, until the last attempt.
pub proof fn law_attempt_at_the_kubeconfig(made: int, text: String)
    ensures
        kubeconfig_shaped(text@) ==> after_asking(made, Some(text)) == KubeconfigStep::Done(text),
        !kubeconfig_shaped(text@) ==> after_asking(made, Some(text)) == KubeconfigStep::Wait,
        made < 29 ==> after_asking(made, None) == KubeconfigStep::Wait,
        made >= 29 ==> after_asking(made, None) == KubeconfigStep::Fail(
            KubeconfigFailure::CommandFailed,
        ),
{
}

/// One look at a running gateway: health ends the wait, starting up never does, being unhealthy
/// does at the last look only, and having no health check at the first look only.
pub proof fn law_look_at_the_gateway(made: int, health: Option<HealthStatus>)
    ensures
        after_inspecting(made, Some(HealthStatus::Healthy)) == GatewayStep::Ready,
        after_inspecting(made, Some(HealthStatus::Starting)) == GatewayStep::Wait,
        made != 179 ==> after_inspecting(made, Some(HealthStatus::Unhealthy)) == GatewayStep::Wait,
        made == 179 ==> after_inspecting(made, Some(HealthStatus::Unhealthy)) == GatewayStep::Fail(
            GatewayFailure::Unhealthy,
        ),
        no_health_check(health) && made != 0 ==> after_inspecting(made, health)
            == GatewayStep::Wait,
        no_health_check(health) && made == 0 ==> after_inspecting(made, health)
            == GatewayStep::Fail(GatewayFailure::NoHealthCheck),
{
}

/// A container runs if its state says so, and only then. One that does not run has exited, with the
/// code and the error that its state tells, -1 for no code and nothing for no error.
pub proof fn law_container_that_does_not_run_has_exited(
    state: ContainerState,
    code: i64,
    error: String,
)
    ensures
        runs(Some(state)) <==> state.running == Some(true),
        !runs(None),
        health_of(Some(state)) == state.health,
        health_of(None) is None,
        is_exit_of(GatewayFailure::Exited(code, error), Some(state)) <==> {
            &&& state.exit_code matches Some(c) ==> code == c
            &&& state.exit_code is None ==> code == -1
            &&& state.error matches Some(e) ==> error@ == e@
            &&& state.error is None ==> error@.len() == 0
        },
        is_exit_of(GatewayFailure::Exited(code, error), None) <==> code == -1 && error@.len() == 0,
        !is_exit_of(GatewayFailure::Unhealthy, Some(state)),
        !is_exit_of(GatewayFailure::NoHealthCheck, Some(state)),
        !is_exit_of(GatewayFailure::TimedOut, Some(state)),
{
    if error@.len() == 0 {
        assert(error@ =~= Seq::<char>::empty());
    }
}

/// A failure says what happened: the code of a container that ended, and its error if it has one;
/// and what kept a kubeconfig from coming, with the log after it.
pub proof fn law_failures_say_what_happened(code: i64, error: String, logs: Seq<char>)
    ensures
        ({
            let exited = "gateway container exited unexpectedly (exit_code="@
                + number::signed_decimal(code as int) + ")"@;
            GatewayFailure::Exited(code, error).head() == (if error@.len() == 0 {
                exited
            } else {
                exited + ", error="@ + error@
            })
        }),
        GatewayFailure::Unhealthy.head() == "gateway health check reported unhealthy"@,
        GatewayFailure::NoHealthCheck.head() == "gateway container does not expose a health check"@,
        GatewayFailure::TimedOut.head() == "timed out waiting for gateway health check"@,
        KubeconfigFailure::NotRunning(error).text(logs)
            == "gateway container is not running while waiting for kubeconfig: "@ + error@ + "\n"@
            + logs,
        KubeconfigFailure::CommandFailed.text(logs) == "failed waiting for kubeconfig\n"@ + logs,
        KubeconfigFailure::TimedOut.text(logs) == "timed out waiting for kubeconfig\n"@ + logs,
{
}

/// What a failed delete command has removed is counted node by node: a node counts exactly if the
/// output says, on a line of its own, that it was deleted.
pub proof fn law_removed_nodes_are_counted_one_by_one(
    nodes: Seq<Seq<char>>,
    node: Seq<char>,
    exit_code: i64,
    output: Seq<char>,
)
    ensures
        exit_code == 0 ==> removed_count(nodes, exit_code, output) == nodes.len(),
        exit_code != 0 ==> removed_count(Seq::empty(), exit_code, output) == 0,
        exit_code != 0 ==> removed_count(nodes.push(node), exit_code, output) == removed_count(
            nodes,
            exit_code,
            output,
        ) + (if container_logs::trimmed_lines(output).contains(
            "node \""@ + node + "\" deleted"@,
        ) {
            1int
        } else {
            0
        }),
{
    assert(nodes.push(node).drop_last() =~= nodes);
}

/// The workload commands and messages name the workload by its kind, and the failure tells what the
/// command wrote.
pub proof fn law_workloads_are_named(
    kind: WorkloadKind,
    kubeconfig: Seq<char>,
    output: Seq<char>,
    exit_code: i64,
)
    ensures
        WorkloadKind::StatefulSet.text() == "statefulset"@,
        WorkloadKind::Deployment.text() == "deployment"@,
        kind.workload() == kind.text() + "/openshell"@,
        kind.status_line(kubeconfig) == kubectl_line(
            kubeconfig,
            "rollout status "@ + kind.workload() + " -n openshell --timeout=180s"@,
        ),
        kind.restart_failure(output, exit_code) == "failed to restart openshell "@
            + kind.workload() + " (exit code "@ + number::signed_decimal(exit_code as int) + ")\n"@
            + output,
{
}

} // verus!
