//! Deciding on a CONNECT: the evidence that is gathered about the calling process, the decision
//! that follows from it, the answer to the client and the line in the log.
//!
//! Evaluation goes through stages. Each stage says what to look up next, and takes what was found;
//! a stage ends either in the next one or in a denial.

use vstd::prelude::*;

use crate::number;
use crate::proxy::{self, ConnectRequest, HeaderStep};
use crate::text;

verus! {

// ---------------------------------------------------------------------------
// Paths
// ---------------------------------------------------------------------------

/// A file system path: its bytes, and the text to show for it.
#[derive(Debug)]
pub struct BinaryPath {
    pub raw: Vec<u8>,
    pub display: String,
}

impl View for BinaryPath {
    type V = (Seq<u8>, Seq<char>);

    open spec fn view(&self) -> (Seq<u8>, Seq<char>) {
        (self.raw@, self.display@)
    }
}

impl BinaryPath {
    /// A second copy of the path.
    pub fn duplicate(&self) -> (p: BinaryPath)
        ensures
            p@ == self@,
    {
        BinaryPath {
            raw: vstd::slice::slice_to_vec(self.raw.as_slice()),
            display: self.display.clone(),
        }
    }
}

/// The contents of a list of paths.
pub open spec fn path_views(v: Seq<BinaryPath>) -> Seq<(Seq<u8>, Seq<char>)> {
    Seq::new(v.len(), |i: int| v[i]@)
}

/// The texts of a list of paths.
pub open spec fn displays(v: Seq<(Seq<u8>, Seq<char>)>) -> Seq<Seq<char>> {
    Seq::new(v.len(), |i: int| v[i].1)
}

/// A second copy of a list of paths.
pub fn duplicate_paths(v: &Vec<BinaryPath>) -> (r: Vec<BinaryPath>)
    ensures
        path_views(r@) == path_views(v@),
{
    let mut r: Vec<BinaryPath> = Vec::new();
    let mut i: usize = 0;
    while i < v.len()
        invariant
            i <= v@.len(),
            r@.len() == i,
            forall|j: int| 0 <= j < i ==> (#[trigger] r@[j])@ == v@[j]@,
        decreases v@.len() - i,
    {
        r.push(v[i].duplicate());
        i += 1;
    }
    assert(path_views(r@) =~= path_views(v@));
    r
}

// ---------------------------------------------------------------------------
// Decisions
// ---------------------------------------------------------------------------

/// Which engine made a decision.
#[derive(Debug, Clone, Copy, PartialEq, Eq, Structural)]
pub enum DecisionEngine {
    Opa,
    ControlPlane,
}

impl DecisionEngine {
    /// The name of an engine.
    pub open spec fn text(self) -> Seq<char> {
        match self {
            DecisionEngine::Opa => "opa"@,
            DecisionEngine::ControlPlane => "control_plane"@,
        }
    }

    /// The name of the engine.
    pub fn name(&self) -> (s: &'static str)
        ensures
            s@ == self.text(),
    {
        match self {
            DecisionEngine::Opa => "opa",
            DecisionEngine::ControlPlane => "control_plane",
        }
    }
}

/// Result of a proxy CONNECT policy decision.
#[derive(Debug)]
pub struct ConnectDecision {
    pub allowed: bool,
    /// Resolved binary path.
    pub binary: Option<BinaryPath>,
    /// PID owning the socket.
    pub binary_pid: Option<u32>,
    /// Ancestor binary paths from process tree walk.
    pub ancestors: Vec<BinaryPath>,
    /// Cmdline-derived absolute paths (for script detection).
    pub cmdline_paths: Vec<BinaryPath>,
    /// Name of the matched policy rule (allow only).
    pub matched_policy: Option<String>,
    /// Which engine made the decision.
    pub engine: DecisionEngine,
    /// Deny reason or error context.
    pub reason: String,
}

/// The contents of a [`ConnectDecision`].
#[verifier::ext_equal]
pub struct DecisionView {
    pub allowed: bool,
    pub binary: Option<(Seq<u8>, Seq<char>)>,
    pub binary_pid: Option<u32>,
    pub ancestors: Seq<(Seq<u8>, Seq<char>)>,
    pub cmdline_paths: Seq<(Seq<u8>, Seq<char>)>,
    pub matched_policy: Option<Seq<char>>,
    pub engine: DecisionEngine,
    pub reason: Seq<char>,
}

impl View for ConnectDecision {
    type V = DecisionView;

    open spec fn view(&self) -> DecisionView {
        DecisionView {
            allowed: self.allowed,
            binary: match self.binary {
                Some(p) => Some(p@),
                None => None,
            },
            binary_pid: self.binary_pid,
            ancestors: path_views(self.ancestors@),
            cmdline_paths: path_views(self.cmdline_paths@),
            matched_policy: text::opt_view(self.matched_policy),
            engine: self.engine,
            reason: self.reason@,
        }
    }
}

/// The decision on a control plane endpoint.
pub open spec fn control_plane_view() -> DecisionView {
    DecisionView {
        allowed: true,
        binary: None,
        binary_pid: None,
        ancestors: Seq::empty(),
        cmdline_paths: Seq::empty(),
        matched_policy: Some("control_plane"@),
        engine: DecisionEngine::ControlPlane,
        reason: Seq::empty(),
    }
}

/// A denial before the calling binary is known.
pub open spec fn early_denial_view(reason: Seq<char>) -> DecisionView {
    DecisionView {
        allowed: false,
        binary: None,
        binary_pid: None,
        ancestors: Seq::empty(),
        cmdline_paths: Seq::empty(),
        matched_policy: None,
        engine: DecisionEngine::Opa,
        reason,
    }
}

/// A denial of a known binary, with the ancestors and command line paths found until then.
pub open spec fn denial_view(
    binary: (Seq<u8>, Seq<char>),
    binary_pid: u32,
    ancestors: Seq<(Seq<u8>, Seq<char>)>,
    cmdline_paths: Seq<(Seq<u8>, Seq<char>)>,
    reason: Seq<char>,
) -> DecisionView {
    DecisionView {
        allowed: false,
        binary: Some(binary),
        binary_pid: Some(binary_pid),
        ancestors,
        cmdline_paths,
        matched_policy: None,
        engine: DecisionEngine::Opa,
        reason,
    }
}

/// The decision on a control plane endpoint: it is allowed without policy evaluation.
pub fn allow_control_plane() -> (d: ConnectDecision)
    ensures
        d@ == control_plane_view(),
{
    let d = ConnectDecision {
        allowed: true,
        binary: None,
        binary_pid: None,
        ancestors: Vec::new(),
        cmdline_paths: Vec::new(),
        matched_policy: Some("control_plane".to_owned()),
        engine: DecisionEngine::ControlPlane,
        reason: String::new(),
    };
    assert(d@ =~= control_plane_view());
    d
}

fn deny_early(reason: String) -> (d: ConnectDecision)
    ensures
        d@ == early_denial_view(reason@),
{
    let d = ConnectDecision {
        allowed: false,
        binary: None,
        binary_pid: None,
        ancestors: Vec::new(),
        cmdline_paths: Vec::new(),
        matched_policy: None,
        engine: DecisionEngine::Opa,
        reason,
    };
    assert(d@ =~= early_denial_view(reason@));
    d
}

fn deny(
    binary: BinaryPath,
    binary_pid: u32,
    ancestors: Vec<BinaryPath>,
    cmdline_paths: Vec<BinaryPath>,
    reason: String,
) -> (d: ConnectDecision)
    ensures
        d@ == denial_view(
            binary@,
            binary_pid,
            path_views(ancestors@),
            path_views(cmdline_paths@),
            reason@,
        ),
{
    ConnectDecision {
        allowed: false,
        binary: Some(binary),
        binary_pid: Some(binary_pid),
        ancestors,
        cmdline_paths,
        matched_policy: None,
        engine: DecisionEngine::Opa,
        reason,
    }
}

/// The decision where the platform cannot tell which process owns a connection.
pub fn deny_without_identity_binding() -> (d: ConnectDecision)
    ensures
        d@ == early_denial_view("identity binding unavailable on this platform"@),
{
    deny_early("identity binding unavailable on this platform".to_owned())
}

/// How a tunnel to a host is decided on.
#[derive(Debug)]
pub enum TunnelRule {
    /// By the allow list of infrastructure endpoints.
    ControlPlane(ConnectDecision),
    /// By policy evaluation, for the host in lower case.
    Evaluate { host: String },
}

/// Control plane endpoints are allowed; everything else goes to policy evaluation.
pub fn tunnel_rule(endpoints: &Vec<proxy::AllowedEndpoint>, host: &str, port: u16) -> (r: TunnelRule)
    ensures
        match r {
            TunnelRule::ControlPlane(d) => proxy::listed(endpoints@, text::lowered(host@), port)
                && d@ == control_plane_view(),
            TunnelRule::Evaluate { host: h } => !proxy::listed(
                endpoints@,
                text::lowered(host@),
                port,
            ) && h@ == text::lowered(host@),
        },
{
    let host_lc = text::to_ascii_lowercase(host);
    if proxy::is_control_plane(endpoints, host_lc.as_str(), port) {
        TunnelRule::ControlPlane(allow_control_plane())
    } else {
        TunnelRule::Evaluate { host: host_lc }
    }
}

// ---------------------------------------------------------------------------
// Policy evaluation, stage by stage
// ---------------------------------------------------------------------------

/// To do: find the process that owns the connection, among the descendants of the entrypoint.
#[derive(Debug)]
pub struct PeerLookup {
    entrypoint_pid: u32,
}

/// The contents of a [`PeerLookup`].
#[verifier::ext_equal]
pub struct PeerLookupView {
    pub entrypoint_pid: u32,
}

impl View for PeerLookup {
    type V = PeerLookupView;

    closed spec fn view(&self) -> PeerLookupView {
        PeerLookupView {
            entrypoint_pid: self.entrypoint_pid,
        }
    }
}

/// To do: check the binary of the calling process against the hash on record.
#[derive(Debug)]
pub struct BinaryCheck {
    entrypoint_pid: u32,
    binary: BinaryPath,
    binary_pid: u32,
}

/// The contents of a [`BinaryCheck`].
#[verifier::ext_equal]
pub struct BinaryCheckView {
    pub entrypoint_pid: u32,
    pub binary: (Seq<u8>, Seq<char>),
    pub binary_pid: u32,
}

impl View for BinaryCheck {
    type V = BinaryCheckView;

    closed spec fn view(&self) -> BinaryCheckView {
        BinaryCheckView {
            entrypoint_pid: self.entrypoint_pid,
            binary: self.binary@,
            binary_pid: self.binary_pid,
        }
    }
}

/// To do: collect the binaries of the calling process's ancestors.
#[derive(Debug)]
pub struct AncestorWalk {
    entrypoint_pid: u32,
    binary: BinaryPath,
    binary_pid: u32,
    binary_sha256: String,
}

/// The contents of a [`AncestorWalk`].
#[verifier::ext_equal]
pub struct AncestorWalkView {
    pub entrypoint_pid: u32,
    pub binary: (Seq<u8>, Seq<char>),
    pub binary_pid: u32,
    pub binary_sha256: Seq<char>,
}

impl View for AncestorWalk {
    type V = AncestorWalkView;

    closed spec fn view(&self) -> AncestorWalkView {
        AncestorWalkView {
            entrypoint_pid: self.entrypoint_pid,
            binary: self.binary@,
            binary_pid: self.binary_pid,
            binary_sha256: self.binary_sha256@,
        }
    }
}

/// To do: check each ancestor's binary against the hash on record, from the `checked`th on.
#[derive(Debug)]
pub struct AncestorCheck {
    entrypoint_pid: u32,
    binary: BinaryPath,
    binary_pid: u32,
    binary_sha256: String,
    ancestors: Vec<BinaryPath>,
    checked: usize,
}

/// The contents of a [`AncestorCheck`].
#[verifier::ext_equal]
pub struct AncestorCheckView {
    pub entrypoint_pid: u32,
    pub binary: (Seq<u8>, Seq<char>),
    pub binary_pid: u32,
    pub binary_sha256: Seq<char>,
    pub ancestors: Seq<(Seq<u8>, Seq<char>)>,
    pub checked: int,
}

impl View for AncestorCheck {
    type V = AncestorCheckView;

    closed spec fn view(&self) -> AncestorCheckView {
        AncestorCheckView {
            entrypoint_pid: self.entrypoint_pid,
            binary: self.binary@,
            binary_pid: self.binary_pid,
            binary_sha256: self.binary_sha256@,
            ancestors: path_views(self.ancestors@),
            checked: self.checked as int,
        }
    }
}

/// To do: collect the paths on the command lines of the calling process and its ancestors.
#[derive(Debug)]
pub struct CmdlineWalk {
    entrypoint_pid: u32,
    binary: BinaryPath,
    binary_pid: u32,
    binary_sha256: String,
    ancestors: Vec<BinaryPath>,
}

/// The contents of a [`CmdlineWalk`].
#[verifier::ext_equal]
pub struct CmdlineWalkView {
    pub entrypoint_pid: u32,
    pub binary: (Seq<u8>, Seq<char>),
    pub binary_pid: u32,
    pub binary_sha256: Seq<char>,
    pub ancestors: Seq<(Seq<u8>, Seq<char>)>,
}

impl View for CmdlineWalk {
    type V = CmdlineWalkView;

    closed spec fn view(&self) -> CmdlineWalkView {
        CmdlineWalkView {
            entrypoint_pid: self.entrypoint_pid,
            binary: self.binary@,
            binary_pid: self.binary_pid,
            binary_sha256: self.binary_sha256@,
            ancestors: path_views(self.ancestors@),
        }
    }
}

/// To do: ask the policy engine.
#[derive(Debug)]
pub struct PolicyQuery {
    binary: BinaryPath,
    binary_pid: u32,
    binary_sha256: String,
    ancestors: Vec<BinaryPath>,
    cmdline_paths: Vec<BinaryPath>,
}

/// The contents of a [`PolicyQuery`].
#[verifier::ext_equal]
pub struct PolicyQueryView {
    pub binary: (Seq<u8>, Seq<char>),
    pub binary_pid: u32,
    pub binary_sha256: Seq<char>,
    pub ancestors: Seq<(Seq<u8>, Seq<char>)>,
    pub cmdline_paths: Seq<(Seq<u8>, Seq<char>)>,
}

impl View for PolicyQuery {
    type V = PolicyQueryView;

    closed spec fn view(&self) -> PolicyQueryView {
        PolicyQueryView {
            binary: self.binary@,
            binary_pid: self.binary_pid,
            binary_sha256: self.binary_sha256@,
            ancestors: path_views(self.ancestors@),
            cmdline_paths: path_views(self.cmdline_paths@),
        }
    }
}

/// What the policy engine is asked about.
#[derive(Debug)]
pub struct NetworkInput {
    pub host: String,
    pub port: u16,
    pub binary_path: BinaryPath,
    pub binary_sha256: String,
    pub ancestors: Vec<BinaryPath>,
    pub cmdline_paths: Vec<BinaryPath>,
}

/// What the policy engine answers.
#[derive(Debug)]
pub struct PolicyVerdict {
    pub allowed: bool,
    pub matched_policy: Option<String>,
    pub reason: String,
}

/// Begins the evaluation of a connection. Nothing is allowed before the sandboxed process exists.
pub fn begin_evaluation(entrypoint_pid: u32) -> (r: Result<PeerLookup, ConnectDecision>)
    ensures
        match r {
            Ok(next) => entrypoint_pid != 0 && next@.entrypoint_pid == entrypoint_pid,
            Err(d) => entrypoint_pid == 0 && d@ == early_denial_view(
                "entrypoint process not yet spawned"@,
            ),
        },
{
    if entrypoint_pid == 0 {
        Err(deny_early("entrypoint process not yet spawned".to_owned()))
    } else {
        Ok(PeerLookup { entrypoint_pid })
    }
}

impl PeerLookup {
    /// The PID of the sandboxed process.
    pub fn entrypoint_pid(&self) -> (pid: u32)
        ensures
            pid == self@.entrypoint_pid,
    {
        self.entrypoint_pid
    }

    /// Takes the binary and PID of the owner of the connection, or why they were not found.
    pub fn resolved(self, peer: Result<(BinaryPath, u32), String>) -> (r: Result<
        BinaryCheck,
        ConnectDecision,
    >)
        ensures
            match (peer, r) {
                (Ok((binary, pid)), Ok(next)) => next@ == (BinaryCheckView {
                    entrypoint_pid: self@.entrypoint_pid,
                    binary: binary@,
                    binary_pid: pid,
                }),
                (Err(e), Err(d)) => d@ == early_denial_view(
                    "failed to resolve peer binary: "@ + e@,
                ),
                _ => false,
            },
    {
        match peer {
            Ok((binary, binary_pid)) => Ok(
                BinaryCheck { entrypoint_pid: self.entrypoint_pid, binary, binary_pid },
            ),
            Err(e) => Err(
                deny_early("failed to resolve peer binary: ".to_owned().concat(e.as_str())),
            ),
        }
    }
}

impl BinaryCheck {
    /// The binary to check.
    pub fn binary(&self) -> (b: &BinaryPath)
        ensures
            b@ == self@.binary,
    {
        &self.binary
    }

    /// Takes the hash of the binary, or why it failed the check.
    pub fn verified(self, hash: Result<String, String>) -> (r: Result<AncestorWalk, ConnectDecision>)
        ensures
            match (hash, r) {
                (Ok(h), Ok(next)) => next@ == (AncestorWalkView {
                    entrypoint_pid: self@.entrypoint_pid,
                    binary: self@.binary,
                    binary_pid: self@.binary_pid,
                    binary_sha256: h@,
                }),
                (Err(e), Err(d)) => d@ == denial_view(
                    self@.binary,
                    self@.binary_pid,
                    Seq::empty(),
                    Seq::empty(),
                    "binary integrity check failed: "@ + e@,
                ),
                _ => false,
            },
    {
        match hash {
            Ok(binary_sha256) => Ok(
                AncestorWalk {
                    entrypoint_pid: self.entrypoint_pid,
                    binary: self.binary,
                    binary_pid: self.binary_pid,
                    binary_sha256,
                },
            ),
            Err(e) => {
                let d = deny(
                    self.binary,
                    self.binary_pid,
                    Vec::new(),
                    Vec::new(),
                    "binary integrity check failed: ".to_owned().concat(e.as_str()),
                );
                assert(d@.ancestors =~= Seq::empty());
                assert(d@.cmdline_paths =~= Seq::empty());
                Err(d)
            },
        }
    }
}

impl AncestorWalk {
    /// The PIDs of the calling process and of the sandboxed process, between which to walk.
    pub fn pids(&self) -> (r: (u32, u32))
        ensures
            r == (self@.binary_pid, self@.entrypoint_pid),
    {
        (self.binary_pid, self.entrypoint_pid)
    }

    /// Takes the binaries of the ancestors.
    pub fn collected(self, ancestors: Vec<BinaryPath>) -> (next: AncestorCheck)
        ensures
            next@ == (AncestorCheckView {
                entrypoint_pid: self@.entrypoint_pid,
                binary: self@.binary,
                binary_pid: self@.binary_pid,
                binary_sha256: self@.binary_sha256,
                ancestors: path_views(ancestors@),
                checked: 0,
            }),
    {
        AncestorCheck {
            entrypoint_pid: self.entrypoint_pid,
            binary: self.binary,
            binary_pid: self.binary_pid,
            binary_sha256: self.binary_sha256,
            ancestors,
            checked: 0,
        }
    }
}

impl AncestorCheck {
    /// The ancestor to check next. `None`: all have been checked.
    pub fn pending(&self) -> (r: Option<&BinaryPath>)
        ensures
            r is Some <==> self@.checked < self@.ancestors.len(),
            r matches Some(p) ==> p@ == self@.ancestors[self@.checked],
    {
        if self.checked < self.ancestors.len() {
            Some(&self.ancestors[self.checked])
        } else {
            None
        }
    }

    /// Takes the outcome of the check of the pending ancestor.
    pub fn verified(self, outcome: Result<(), String>) -> (r: Result<AncestorCheck, ConnectDecision>)
        requires
            self@.checked < self@.ancestors.len(),
        ensures
            match (outcome, r) {
                (Ok(_), Ok(next)) => next@ == (AncestorCheckView {
                    checked: self@.checked + 1,
                    ..self@
                }),
                (Err(e), Err(d)) => d@ == denial_view(
                    self@.binary,
                    self@.binary_pid,
                    self@.ancestors,
                    Seq::empty(),
                    "ancestor integrity check failed for "@ + self@.ancestors[self@.checked].1
                        + ": "@ + e@,
                ),
                _ => false,
            },
    {
        assert(self.checked < self.ancestors.len());
        match outcome {
            Ok(_) => Ok(
                AncestorCheck {
                    entrypoint_pid: self.entrypoint_pid,
                    binary: self.binary,
                    binary_pid: self.binary_pid,
                    binary_sha256: self.binary_sha256,
                    ancestors: self.ancestors,
                    checked: self.checked + 1,
                },
            ),
            Err(e) => {
                let reason = "ancestor integrity check failed for ".to_owned().concat(
                    self.ancestors[self.checked].display.as_str(),
                ).concat(": ").concat(e.as_str());
                let d = deny(self.binary, self.binary_pid, self.ancestors, Vec::new(), reason);
                assert(d@.cmdline_paths =~= Seq::empty());
                Err(d)
            },
        }
    }

    /// Goes on once all ancestors have been checked.
    pub fn complete(self) -> (next: CmdlineWalk)
        requires
            self@.checked >= self@.ancestors.len(),
        ensures
            next@ == (CmdlineWalkView {
                entrypoint_pid: self@.entrypoint_pid,
                binary: self@.binary,
                binary_pid: self@.binary_pid,
                binary_sha256: self@.binary_sha256,
                ancestors: self@.ancestors,
            }),
    {
        CmdlineWalk {
            entrypoint_pid: self.entrypoint_pid,
            binary: self.binary,
            binary_pid: self.binary_pid,
            binary_sha256: self.binary_sha256,
            ancestors: self.ancestors,
        }
    }
}

impl CmdlineWalk {
    /// The PIDs of the calling process and of the sandboxed process, between which to walk.
    pub fn pids(&self) -> (r: (u32, u32))
        ensures
            r == (self@.binary_pid, self@.entrypoint_pid),
    {
        (self.binary_pid, self.entrypoint_pid)
    }

    /// The paths that are known already: the ancestors' binaries and the binary itself.
    pub fn exclude(&self) -> (r: Vec<BinaryPath>)
        ensures
            path_views(r@) == self@.ancestors.push(self@.binary),
    {
        let mut r = duplicate_paths(&self.ancestors);
        let ghost known = path_views(r@);
        r.push(self.binary.duplicate());
        assert(path_views(r@) =~= known.push(self.binary@));
        r
    }

    /// Takes the paths on the command lines.
    pub fn collected(self, cmdline_paths: Vec<BinaryPath>) -> (next: PolicyQuery)
        ensures
            next@ == (PolicyQueryView {
                binary: self@.binary,
                binary_pid: self@.binary_pid,
                binary_sha256: self@.binary_sha256,
                ancestors: self@.ancestors,
                cmdline_paths: path_views(cmdline_paths@),
            }),
    {
        PolicyQuery {
            binary: self.binary,
            binary_pid: self.binary_pid,
            binary_sha256: self.binary_sha256,
            ancestors: self.ancestors,
            cmdline_paths,
        }
    }
}

/// The decision that follows from an answer of the policy engine. A denial names no matched rule.
pub open spec fn verdict_view(
    binary: (Seq<u8>, Seq<char>),
    binary_pid: u32,
    ancestors: Seq<(Seq<u8>, Seq<char>)>,
    cmdline_paths: Seq<(Seq<u8>, Seq<char>)>,
    verdict: PolicyVerdict,
) -> DecisionView {
    DecisionView {
        allowed: verdict.allowed,
        binary: Some(binary),
        binary_pid: Some(binary_pid),
        ancestors,
        cmdline_paths,
        matched_policy: if verdict.allowed {
            text::opt_view(verdict.matched_policy)
        } else {
            None
        },
        engine: DecisionEngine::Opa,
        reason: verdict.reason@,
    }
}

impl PolicyQuery {
    /// What to ask the policy engine about a tunnel to `host` and `port`.
    pub fn input(&self, host: &str, port: u16) -> (r: NetworkInput)
        ensures
            r.host@ == host@,
            r.port == port,
            r.binary_path@ == self@.binary,
            r.binary_sha256@ == self@.binary_sha256,
            path_views(r.ancestors@) == self@.ancestors,
            path_views(r.cmdline_paths@) == self@.cmdline_paths,
    {
        NetworkInput {
            host: host.to_owned(),
            port,
            binary_path: self.binary.duplicate(),
            binary_sha256: self.binary_sha256.clone(),
            ancestors: duplicate_paths(&self.ancestors),
            cmdline_paths: duplicate_paths(&self.cmdline_paths),
        }
    }

    /// Takes the answer of the policy engine, or why there is none.
    pub fn decided(self, verdict: Result<PolicyVerdict, String>) -> (d: ConnectDecision)
        ensures
            match verdict {
                Ok(v) => d@ == verdict_view(
                    self@.binary,
                    self@.binary_pid,
                    self@.ancestors,
                    self@.cmdline_paths,
                    v,
                ),
                Err(e) => d@ == denial_view(
                    self@.binary,
                    self@.binary_pid,
                    self@.ancestors,
                    self@.cmdline_paths,
                    "policy evaluation error: "@ + e@,
                ),
            },
    {
        match verdict {
            Ok(v) => ConnectDecision {
                allowed: v.allowed,
                binary: Some(self.binary),
                binary_pid: Some(self.binary_pid),
                ancestors: self.ancestors,
                cmdline_paths: self.cmdline_paths,
                matched_policy: if v.allowed {
                    v.matched_policy
                } else {
                    None
                },
                engine: DecisionEngine::Opa,
                reason: v.reason,
            },
            Err(e) => deny(
                self.binary,
                self.binary_pid,
                self.ancestors,
                self.cmdline_paths,
                "policy evaluation error: ".to_owned().concat(e.as_str()),
            ),
        }
    }
}

// ---------------------------------------------------------------------------
// The evaluation as a whole
// ---------------------------------------------------------------------------

/// What the stages of an evaluation find. What is found after a stage that fails is not looked at.
#[derive(Debug)]
pub struct Evidence {
    pub entrypoint_pid: u32,
    pub peer: Result<(BinaryPath, u32), String>,
    pub binary_hash: Result<String, String>,
    pub ancestors: Vec<BinaryPath>,
    /// The outcome of the check of each ancestor.
    pub ancestor_checks: Vec<Result<(), String>>,
    pub cmdline_paths: Vec<BinaryPath>,
    pub verdict: Result<PolicyVerdict, String>,
}

/// The first ancestor from the `i`th on that fails its check, or their number.
pub open spec fn first_failure(checks: Seq<Result<(), String>>, i: int) -> int
    decreases checks.len() - i,
{
    if 0 <= i < checks.len() && checks[i] is Ok {
        first_failure(checks, i + 1)
    } else {
        i
    }
}

/// The decision that evidence leads to.
pub open spec fn evaluated(e: Evidence) -> DecisionView {
    if e.entrypoint_pid == 0 {
        early_denial_view("entrypoint process not yet spawned"@)
    } else {
        match e.peer {
            Err(err) => early_denial_view("failed to resolve peer binary: "@ + err@),
            Ok((binary, pid)) => match e.binary_hash {
                Err(err) => denial_view(
                    binary@,
                    pid,
                    Seq::empty(),
                    Seq::empty(),
                    "binary integrity check failed: "@ + err@,
                ),
                Ok(_) => {
                    let k = first_failure(e.ancestor_checks@, 0);
                    if k < e.ancestor_checks@.len() {
                        denial_view(
                            binary@,
                            pid,
                            path_views(e.ancestors@),
                            Seq::empty(),
                            "ancestor integrity check failed for "@ + e.ancestors@[k].display@
                                + ": "@ + e.ancestor_checks@[k]->Err_0@,
                        )
                    } else {
                        match e.verdict {
                            Ok(v) => verdict_view(
                                binary@,
                                pid,
                                path_views(e.ancestors@),
                                path_views(e.cmdline_paths@),
                                v,
                            ),
                            Err(err) => denial_view(
                                binary@,
                                pid,
                                path_views(e.ancestors@),
                                path_views(e.cmdline_paths@),
                                "policy evaluation error: "@ + err@,
                            ),
                        }
                    }
                },
            },
        }
    }
}

/// Goes through the stages with evidence that is at hand.
pub fn evaluate_opa_tcp(evidence: Evidence) -> (d: ConnectDecision)
    requires
        evidence.ancestor_checks@.len() == evidence.ancestors@.len(),
    ensures
        d@ == evaluated(evidence),
{
    let ghost e = evidence;
    let lookup = match begin_evaluation(evidence.entrypoint_pid) {
        Ok(next) => next,
        Err(d) => {
            return d;
        },
    };
    let check = match lookup.resolved(evidence.peer) {
        Ok(next) => next,
        Err(d) => {
            return d;
        },
    };
    let walk = match check.verified(evidence.binary_hash) {
        Ok(next) => next,
        Err(d) => {
            return d;
        },
    };
    let mut stage = walk.collected(evidence.ancestors);
    let mut outcomes = evidence.ancestor_checks;
    let ghost binary = stage@.binary;
    let ghost pid = stage@.binary_pid;
    let mut i: usize = 0;
    while i < outcomes.len()
        invariant
            i <= outcomes@.len(),
            outcomes@.len() == e.ancestor_checks@.len() == e.ancestors@.len(),
            forall|j: int| i <= j < outcomes@.len() ==> outcomes@[j] == e.ancestor_checks@[j],
            stage@.checked == i,
            stage@.ancestors == path_views(e.ancestors@),
            stage@.binary == binary,
            stage@.binary_pid == pid,
            e == evidence,
            e.entrypoint_pid != 0,
            e.peer is Ok,
            e.peer->Ok_0.0@ == binary,
            e.peer->Ok_0.1 == pid,
            e.binary_hash is Ok,
            first_failure(e.ancestor_checks@, 0) == first_failure(e.ancestor_checks@, i as int),
        decreases outcomes@.len() - i,
    {
        let mut outcome: Result<(), String> = Ok(());
        std::mem::swap(&mut outcome, &mut outcomes[i]);
        stage = match stage.verified(outcome) {
            Ok(next) => next,
            Err(d) => {
                return d;
            },
        };
        i += 1;
    }
    stage.complete().collected(evidence.cmdline_paths).decided(evidence.verdict)
}

/// A connection is let through only if the sandboxed process exists, the calling binary was
/// identified and passed its check, every ancestor passed its check, and the policy engine
/// allowed the connection.
pub proof fn law_allowed_only_with_full_evidence(e: Evidence)
    requires
        evaluated(e).allowed,
    ensures
        e.entrypoint_pid != 0,
        e.peer is Ok,
        e.binary_hash is Ok,
        forall|i: int| 0 <= i < e.ancestor_checks@.len() ==> #[trigger] e.ancestor_checks@[i] is Ok,
        e.verdict matches Ok(v) && v.allowed,
{
    lemma_first_failure(e.ancestor_checks@, 0);
}

/// Evidence without a gap leaves the decision to the policy engine.
pub proof fn law_full_evidence_leaves_it_to_the_engine(e: Evidence)
    requires
        e.entrypoint_pid != 0,
        e.peer is Ok,
        e.binary_hash is Ok,
        forall|i: int| 0 <= i < e.ancestor_checks@.len() ==> #[trigger] e.ancestor_checks@[i] is Ok,
    ensures
        evaluated(e).allowed <==> (e.verdict matches Ok(v) && v.allowed),
{
    lemma_first_failure(e.ancestor_checks@, 0);
}

/// A decision names a matched rule only if it allows the connection.
pub proof fn law_matched_policy_on_allow_only(e: Evidence)
    ensures
        evaluated(e).matched_policy is Some ==> evaluated(e).allowed,
        control_plane_view().matched_policy is Some && control_plane_view().allowed,
{
}

proof fn lemma_first_failure(checks: Seq<Result<(), String>>, i: int)
    requires
        0 <= i <= checks.len(),
    ensures
        i <= first_failure(checks, i) <= checks.len(),
        forall|j: int| i <= j < first_failure(checks, i) ==> #[trigger] checks[j] is Ok,
        first_failure(checks, i) < checks.len() ==> checks[first_failure(checks, i)] is Err,
    decreases checks.len() - i,
{
    if i < checks.len() && checks[i] is Ok {
        lemma_first_failure(checks, i + 1);
    }
}

// ---------------------------------------------------------------------------
// Answers
// ---------------------------------------------------------------------------

/// What the proxy writes to its client.
#[derive(Debug, Clone, Copy, PartialEq, Eq, Structural)]
pub enum Reply {
    HeaderTooLarge,
    MethodNotAllowed,
    Forbidden,
    Established,
}

impl Reply {
    /// The response head of a reply.
    pub open spec fn text(self) -> Seq<char> {
        match self {
            Reply::HeaderTooLarge => "HTTP/1.1 431 Request Header Fields Too Large\r\n\r\n"@,
            Reply::MethodNotAllowed => "HTTP/1.1 405 Method Not Allowed\r\n\r\n"@,
            Reply::Forbidden => "HTTP/1.1 403 Forbidden\r\n\r\n"@,
            Reply::Established => "HTTP/1.1 200 Connection Established\r\n\r\n"@,
        }
    }

    /// The response head.
    pub fn head(&self) -> (s: &'static str)
        ensures
            s@ == self.text(),
    {
        match self {
            Reply::HeaderTooLarge => "HTTP/1.1 431 Request Header Fields Too Large\r\n\r\n",
            Reply::MethodNotAllowed => "HTTP/1.1 405 Method Not Allowed\r\n\r\n",
            Reply::Forbidden => "HTTP/1.1 403 Forbidden\r\n\r\n",
            Reply::Established => "HTTP/1.1 200 Connection Established\r\n\r\n",
        }
    }
}

/// What answers a client before its header is complete. `None`: nothing yet, the header goes on.
pub fn header_reply(step: &HeaderStep) -> (r: Option<Reply>)
    ensures
        r == (if *step == HeaderStep::TooLarge {
            Some(Reply::HeaderTooLarge)
        } else {
            None
        }),
{
    match step {
        HeaderStep::TooLarge => Some(Reply::HeaderTooLarge),
        HeaderStep::Read(_) => None,
    }
}

/// What answers a request that is for no tunnel. `None`: it is for one, and a decision follows.
pub fn method_reply(request: &ConnectRequest) -> (r: Option<Reply>)
    ensures
        r == (if *request is OtherMethod {
            Some(Reply::MethodNotAllowed)
        } else {
            None
        }),
{
    match request {
        ConnectRequest::OtherMethod => Some(Reply::MethodNotAllowed),
        ConnectRequest::Tunnel { .. } => None,
    }
}

/// What follows a decision.
#[derive(Debug, Clone, Copy, PartialEq, Eq, Structural)]
pub enum TunnelAction {
    /// Write this reply and close the connection.
    Refuse(Reply),
    /// Connect to the destination; then write this reply and copy bytes both ways.
    Open(Reply),
}

/// A denied client is told so; an allowed one gets its tunnel once the destination is reached.
pub fn act_on(decision: &ConnectDecision) -> (r: TunnelAction)
    ensures
        r == (if decision.allowed {
            TunnelAction::Open(Reply::Established)
        } else {
            TunnelAction::Refuse(Reply::Forbidden)
        }),
{
    if decision.allowed {
        TunnelAction::Open(Reply::Established)
    } else {
        TunnelAction::Refuse(Reply::Forbidden)
    }
}

// ---------------------------------------------------------------------------
// The log line
// ---------------------------------------------------------------------------

/// The fields of the log line of one CONNECT that the decision determines.
#[derive(Debug)]
pub struct ConnectLog {
    pub action: &'static str,
    pub binary: String,
    pub binary_pid: String,
    pub ancestors: String,
    pub cmdline: String,
    pub engine: &'static str,
    pub policy: String,
    pub reason: String,
}

/// The texts of `paths` with `sep` between them, or a dash if there are none.
pub open spec fn path_list_text(paths: Seq<(Seq<u8>, Seq<char>)>, sep: Seq<char>) -> Seq<char> {
    if paths.len() == 0 {
        "-"@
    } else {
        text::joined(displays(paths), sep)
    }
}

fn path_list(paths: &Vec<BinaryPath>, sep: &str) -> (s: String)
    ensures
        s@ == path_list_text(path_views(paths@), sep@),
{
    if paths.len() == 0 {
        return "-".to_owned();
    }
    let mut shown: Vec<String> = Vec::new();
    let mut i: usize = 0;
    while i < paths.len()
        invariant
            i <= paths@.len(),
            shown@.len() == i,
            forall|j: int| 0 <= j < i ==> (#[trigger] shown@[j])@ == paths@[j].display@,
        decreases paths@.len() - i,
    {
        shown.push(paths[i].display.clone());
        i += 1;
    }
    assert(text::views(shown@) =~= displays(path_views(paths@)));
    text::join(&shown, sep)
}

/// The log line of a decision: one per CONNECT, with full context.
pub fn connect_log(decision: &ConnectDecision) -> (log: ConnectLog)
    ensures
        log.action@ == (if decision.allowed {
            "allow"@
        } else {
            "deny"@
        }),
        log.binary@ == (match decision@.binary {
            Some(p) => p.1,
            None => "-"@,
        }),
        log.binary_pid@ == (match decision.binary_pid {
            Some(pid) => number::decimal(pid as nat),
            None => "-"@,
        }),
        log.ancestors@ == path_list_text(decision@.ancestors, " -> "@),
        log.cmdline@ == path_list_text(decision@.cmdline_paths, ", "@),
        log.engine@ == decision.engine.text(),
        log.policy@ == (match decision@.matched_policy {
            Some(p) => p,
            None => "-"@,
        }),
        log.reason@ == decision.reason@,
{
    ConnectLog {
        action: if decision.allowed {
            "allow"
        } else {
            "deny"
        },
        binary: match &decision.binary {
            Some(p) => p.display.clone(),
            None => "-".to_owned(),
        },
        binary_pid: match decision.binary_pid {
            Some(pid) => number::render_u64(pid as u64),
            None => "-".to_owned(),
        },
        ancestors: path_list(&decision.ancestors, " -> "),
        cmdline: path_list(&decision.cmdline_paths, ", "),
        engine: decision.engine.name(),
        policy: match &decision.matched_policy {
            Some(p) => p.clone(),
            None => "-".to_owned(),
        },
        reason: decision.reason.clone(),
    }
}

// ---------------------------------------------------------------------------
// Laws
// ---------------------------------------------------------------------------

/// What is known of a connection whose evidence has no gap up to the policy engine: the binary, its
/// PID, the ancestors and the paths on the command lines, all as they were found, and that the
/// decision is the policy engine's.
pub proof fn law_decision_tells_what_was_found(
    e: Evidence,
    binary: BinaryPath,
    pid: u32,
    hash: String,
)
    requires
        e.entrypoint_pid != 0,
        e.peer == Ok::<(BinaryPath, u32), String>((binary, pid)),
        e.binary_hash == Ok::<String, String>(hash),
        forall|i: int| 0 <= i < e.ancestor_checks@.len() ==> #[trigger] e.ancestor_checks@[i] is Ok,
    ensures
        evaluated(e).binary == Some(binary@),
        evaluated(e).binary_pid == Some(pid),
        evaluated(e).ancestors == path_views(e.ancestors@),
        evaluated(e).cmdline_paths == path_views(e.cmdline_paths@),
        evaluated(e).engine == DecisionEngine::Opa,
        e.verdict matches Ok(v) ==> {
            &&& evaluated(e).allowed == v.allowed
            &&& evaluated(e).reason == v.reason@
            &&& v.allowed ==> evaluated(e).matched_policy == text::opt_view(v.matched_policy)
            &&& !v.allowed ==> evaluated(e).matched_policy is None
        },
        e.verdict matches Err(err) ==> {
            &&& !evaluated(e).allowed
            &&& evaluated(e).reason == "policy evaluation error: "@ + err@
            &&& evaluated(e).matched_policy is None
        },
{
    lemma_first_failure(e.ancestor_checks@, 0);
}

/// An ancestor that fails its check is named, with what it failed on: the first of those that do.
/// The decision tells the calling binary and all ancestors, and no command lines, which have not
/// been looked at.
pub proof fn law_failed_ancestor_is_named(
    e: Evidence,
    binary: BinaryPath,
    pid: u32,
    k: int,
    err: String,
)
    requires
        e.entrypoint_pid != 0,
        e.peer == Ok::<(BinaryPath, u32), String>((binary, pid)),
        e.binary_hash is Ok,
        0 <= k < e.ancestor_checks@.len(),
        e.ancestor_checks@[k] == Err::<(), String>(err),
        forall|i: int| 0 <= i < k ==> #[trigger] e.ancestor_checks@[i] is Ok,
    ensures
        !evaluated(e).allowed,
        evaluated(e).reason == "ancestor integrity check failed for "@ + e.ancestors@[k].display@
            + ": "@ + err@,
        evaluated(e).binary == Some(binary@),
        evaluated(e).binary_pid == Some(pid),
        evaluated(e).ancestors == path_views(e.ancestors@),
        evaluated(e).cmdline_paths.len() == 0,
        evaluated(e).matched_policy is None,
        evaluated(e).engine == DecisionEngine::Opa,
{
    lemma_first_failure(e.ancestor_checks@, 0);
    let f = first_failure(e.ancestor_checks@, 0);
    if f < k {
        assert(e.ancestor_checks@[f] is Ok);
    } else if f > k {
        assert(e.ancestor_checks@[k] is Ok);
    }
}

/// Where the binary fails its check, where the caller is not found, and where the sandboxed process
/// does not exist yet, the connection is denied for that reason, and the decision tells what was
/// known by then and nothing else.
pub proof fn law_earlier_gaps_are_denials(
    e: Evidence,
    binary: BinaryPath,
    pid: u32,
    err: String,
)
    ensures
        e.entrypoint_pid == 0 ==> evaluated(e) == (DecisionView {
            allowed: false,
            binary: None,
            binary_pid: None,
            ancestors: Seq::empty(),
            cmdline_paths: Seq::empty(),
            matched_policy: None,
            engine: DecisionEngine::Opa,
            reason: "entrypoint process not yet spawned"@,
        }),
        e.entrypoint_pid != 0 && e.peer == Err::<(BinaryPath, u32), String>(err) ==> evaluated(e)
            == (DecisionView {
            allowed: false,
            binary: None,
            binary_pid: None,
            ancestors: Seq::empty(),
            cmdline_paths: Seq::empty(),
            matched_policy: None,
            engine: DecisionEngine::Opa,
            reason: "failed to resolve peer binary: "@ + err@,
        }),
        e.entrypoint_pid != 0 && e.peer == Ok::<(BinaryPath, u32), String>((binary, pid))
            && e.binary_hash == Err::<String, String>(err) ==> evaluated(e) == (DecisionView {
            allowed: false,
            binary: Some(binary@),
            binary_pid: Some(pid),
            ancestors: Seq::empty(),
            cmdline_paths: Seq::empty(),
            matched_policy: None,
            engine: DecisionEngine::Opa,
            reason: "binary integrity check failed: "@ + err@,
        }),
{
}

/// Whatever stage denies a connection, the decision allows nothing, names no rule and no other
/// engine, and tells what the stage knew. A control plane endpoint is allowed under its own name,
/// with nothing known of the caller.
pub proof fn law_decisions_of_the_stages(
    binary: (Seq<u8>, Seq<char>),
    pid: u32,
    ancestors: Seq<(Seq<u8>, Seq<char>)>,
    paths: Seq<(Seq<u8>, Seq<char>)>,
    reason: Seq<char>,
)
    ensures
        early_denial_view(reason) == (DecisionView {
            allowed: false,
            binary: None,
            binary_pid: None,
            ancestors: Seq::empty(),
            cmdline_paths: Seq::empty(),
            matched_policy: None,
            engine: DecisionEngine::Opa,
            reason,
        }),
        denial_view(binary, pid, ancestors, paths, reason) == (DecisionView {
            allowed: false,
            binary: Some(binary),
            binary_pid: Some(pid),
            ancestors,
            cmdline_paths: paths,
            matched_policy: None,
            engine: DecisionEngine::Opa,
            reason,
        }),
        control_plane_view() == (DecisionView {
            allowed: true,
            binary: None,
            binary_pid: None,
            ancestors: Seq::empty(),
            cmdline_paths: Seq::empty(),
            matched_policy: Some("control_plane"@),
            engine: DecisionEngine::ControlPlane,
            reason: Seq::empty(),
        }),
{
}

/// The policy engine's answer is the decision: it is allowed if and only if the engine allows it,
/// for the engine's reason, and under the rule that the engine matched.
pub proof fn law_verdict_is_the_decision(
    binary: (Seq<u8>, Seq<char>),
    pid: u32,
    ancestors: Seq<(Seq<u8>, Seq<char>)>,
    paths: Seq<(Seq<u8>, Seq<char>)>,
    verdict: PolicyVerdict,
)
    ensures
        ({
            let d = verdict_view(binary, pid, ancestors, paths, verdict);
            &&& d.allowed == verdict.allowed
            &&& d.reason == verdict.reason@
            &&& verdict.allowed ==> d.matched_policy == text::opt_view(verdict.matched_policy)
            &&& !verdict.allowed ==> d.matched_policy is None
            &&& d.binary == Some(binary)
            &&& d.binary_pid == Some(pid)
            &&& d.ancestors == ancestors
            &&& d.cmdline_paths == paths
            &&& d.engine == DecisionEngine::Opa
        }),
{
}

/// What comes after a gap in the evidence makes no difference: evidence that agrees up to its first
/// gap leads to one decision.
pub proof fn law_nothing_counts_after_a_gap(e: Evidence, f: Evidence)
    requires
        e.entrypoint_pid == f.entrypoint_pid,
        e.entrypoint_pid != 0 ==> e.peer == f.peer,
        e.entrypoint_pid != 0 && e.peer is Ok ==> e.binary_hash == f.binary_hash,
        e.entrypoint_pid != 0 && e.peer is Ok && e.binary_hash is Ok ==> e.ancestors == f.ancestors
            && e.ancestor_checks == f.ancestor_checks && exists|i: int|
            0 <= i < e.ancestor_checks@.len() && #[trigger] e.ancestor_checks@[i] is Err,
    ensures
        evaluated(e) == evaluated(f),
        !evaluated(e).allowed,
{
    lemma_first_failure(e.ancestor_checks@, 0);
}

/// A list of paths is shown by the paths' texts, in their order, with the separator between any two
/// neighbours; one path by its text alone, and none by a dash.
pub proof fn law_path_lists_are_shown_whole(
    a: Seq<(Seq<u8>, Seq<char>)>,
    b: Seq<(Seq<u8>, Seq<char>)>,
    path: (Seq<u8>, Seq<char>),
    sep: Seq<char>,
)
    requires
        a.len() > 0,
        b.len() > 0,
    ensures
        path_list_text(Seq::empty(), sep) == "-"@,
        path_list_text(seq![path], sep) == path.1,
        path_list_text(a + b, sep) == path_list_text(a, sep) + sep + path_list_text(b, sep),
{
    assert(displays(seq![path]) =~= seq![path.1]);
    assert(displays(a + b) =~= displays(a) + displays(b));
    text::law_joined_in_pieces(displays(a), displays(b), path.1, sep);
}

/// The contents of a decision and of a list of paths are what they hold.
pub proof fn law_contents_of_decisions(d: ConnectDecision, paths: Seq<BinaryPath>)
    ensures
        d@.allowed == d.allowed,
        d@.binary_pid == d.binary_pid,
        d@.engine == d.engine,
        d@.reason == d.reason@,
        d.matched_policy matches Some(p) ==> d@.matched_policy == Some(p@),
        d.matched_policy is None ==> d@.matched_policy is None,
        d.binary matches Some(p) ==> d@.binary == Some((p.raw@, p.display@)),
        d.binary is None ==> d@.binary is None,
        d@.ancestors == path_views(d.ancestors@),
        d@.cmdline_paths == path_views(d.cmdline_paths@),
        path_views(paths).len() == paths.len(),
        forall|i: int|
            0 <= i < paths.len() ==> #[trigger] path_views(paths)[i] == (
                paths[i].raw@,
                paths[i].display@,
            ),
{
}

/// The replies are those of HTTP.
pub proof fn law_replies_are_http()
    ensures
        Reply::HeaderTooLarge.text() == "HTTP/1.1 431 Request Header Fields Too Large\r\n\r\n"@,
        Reply::MethodNotAllowed.text() == "HTTP/1.1 405 Method Not Allowed\r\n\r\n"@,
        Reply::Forbidden.text() == "HTTP/1.1 403 Forbidden\r\n\r\n"@,
        Reply::Established.text() == "HTTP/1.1 200 Connection Established\r\n\r\n"@,
        DecisionEngine::Opa.text() == "opa"@,
        DecisionEngine::ControlPlane.text() == "control_plane"@,
{
}

} // verus!
