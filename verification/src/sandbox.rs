//! Starting a sandbox: where its policy comes from, who owns its directories, how it is cut off
//! from the network, and how it ends.

use vstd::prelude::*;

use crate::number;
use crate::proxy::{self, AllowedEndpoint, ListenAddr};
use crate::text;

verus! {

/// The port of the proxy where the policy names none.
pub const DEFAULT_PROXY_PORT: u16 = 3128;

/// The exit code of a sandbox that ran out of time.
pub const TIMEOUT_EXIT_CODE: i32 = 124;

// ---------------------------------------------------------------------------
// Errors
// ---------------------------------------------------------------------------

/// Why a sandbox does not start.
#[derive(Debug)]
pub enum SandboxError {
    NoCommand,
    NoPolicySource,
    /// There is no user of this name.
    UserNotFound(String),
    /// There is no group of this name.
    GroupNotFound(String),
    /// There is no network namespace, for this reason.
    NoNamespace(String),
    NoProxyConfig,
    NoPolicyEngine,
}

impl SandboxError {
    /// The text of an error.
    pub open spec fn text(self) -> Seq<char> {
        match self {
            SandboxError::NoCommand => "No command specified"@,
            SandboxError::NoPolicySource =>
                "Sandbox policy required. Provide one of:\n- --rego-policy and --rego-data (or NAVIGATOR_REGO_POLICY and NAVIGATOR_REGO_DATA env vars)\n- --sandbox-id and --navigator-endpoint (or NAVIGATOR_SANDBOX_ID and NAVIGATOR_ENDPOINT env vars)"@,
            SandboxError::UserNotFound(name) => "Sandbox user not found: "@ + name@,
            SandboxError::GroupNotFound(name) => "Sandbox group not found: "@ + name@,
            SandboxError::NoNamespace(reason) =>
                "Network namespace creation failed and proxy mode requires isolation. Ensure CAP_NET_ADMIN and CAP_SYS_ADMIN are available and iproute2 is installed. Error: "@
                    + reason@,
            SandboxError::NoProxyConfig =>
                "Network mode is set to proxy but no proxy configuration was provided"@,
            SandboxError::NoPolicyEngine =>
                "Proxy mode requires an OPA engine (--rego-policy and --rego-data)"@,
        }
    }

    /// The error as a message.
    pub fn message(&self) -> (s: String)
        ensures
            s@ == self.text(),
    {
        match self {
            SandboxError::NoCommand => "No command specified".to_owned(),
            SandboxError::NoPolicySource =>
                "Sandbox policy required. Provide one of:\n- --rego-policy and --rego-data (or NAVIGATOR_REGO_POLICY and NAVIGATOR_REGO_DATA env vars)\n- --sandbox-id and --navigator-endpoint (or NAVIGATOR_SANDBOX_ID and NAVIGATOR_ENDPOINT env vars)".to_owned(),
            SandboxError::UserNotFound(name) => {
                "Sandbox user not found: ".to_owned().concat(name.as_str())
            },
            SandboxError::GroupNotFound(name) => {
                "Sandbox group not found: ".to_owned().concat(name.as_str())
            },
            SandboxError::NoNamespace(reason) =>
                "Network namespace creation failed and proxy mode requires isolation. Ensure CAP_NET_ADMIN and CAP_SYS_ADMIN are available and iproute2 is installed. Error: ".to_owned().concat(
            reason.as_str()),
            SandboxError::NoProxyConfig =>
                "Network mode is set to proxy but no proxy configuration was provided".to_owned(),
            SandboxError::NoPolicyEngine =>
                "Proxy mode requires an OPA engine (--rego-policy and --rego-data)".to_owned(),
        }
    }
}

// ---------------------------------------------------------------------------
// The command
// ---------------------------------------------------------------------------

/// The program of a command, and its arguments.
pub fn split_command(command: &Vec<String>) -> (r: Result<(String, Vec<String>), SandboxError>)
    ensures
        command@.len() == 0 ==> r == Err::<(String, Vec<String>), SandboxError>(
            SandboxError::NoCommand,
        ),
        command@.len() > 0 ==> r is Ok,
        r matches Ok((program, args)) ==> seq![program@] + text::views(args@) == text::views(
            command@,
        ),
{
    if command.len() == 0 {
        return Err(SandboxError::NoCommand);
    }
    let program = command[0].clone();
    let mut args: Vec<String> = Vec::new();
    let ghost all = text::views(command@);
    let mut i: usize = 1;
    assert(text::views(args@) =~= all.subrange(1, 1));
    while i < command.len()
        invariant
            1 <= i <= command@.len(),
            all == text::views(command@),
            text::views(args@) == all.subrange(1, i as int),
        decreases command@.len() - i,
    {
        let ghost sofar = args@;
        args.push(command[i].clone());
        i += 1;
        proof {
            text::lemma_views_push(sofar, args@.last());
            assert(all.subrange(1, i as int) =~= all.subrange(1, i - 1).push(all[i - 1]));
        }
    }
    assert(seq![program@] + text::views(args@) =~= all);
    Ok((program, args))
}

// ---------------------------------------------------------------------------
// The policy
// ---------------------------------------------------------------------------

/// Where a policy comes from.
#[derive(Debug)]
pub enum PolicySource {
    /// Two Rego files: rules and data.
    Rego { policy_file: String, data_file: String },
    /// A control plane that knows the sandbox by its id.
    Grpc { endpoint: String, sandbox_id: String },
}

/// Where the policy of a sandbox comes from: two Rego files, else a control plane that knows the
/// sandbox.
pub open spec fn policy_source(
    sandbox_id: Option<String>,
    navigator_endpoint: Option<String>,
    rego_policy: Option<String>,
    rego_data: Option<String>,
) -> Option<PolicySource> {
    match (rego_policy, rego_data, sandbox_id, navigator_endpoint) {
        (Some(policy_file), Some(data_file), _, _) => Some(
            PolicySource::Rego { policy_file, data_file },
        ),
        (_, _, Some(sandbox_id), Some(endpoint)) => Some(
            PolicySource::Grpc { endpoint, sandbox_id },
        ),
        _ => None,
    }
}

/// Load sandbox policy from Rego files or gRPC.
///
/// Priority:
/// 1. If `rego_policy` and `rego_data` are provided, the Rego files
/// 2. If `sandbox_id` and `navigator_endpoint` are provided, gRPC
/// 3. Otherwise, an error
pub fn load_policy(
    sandbox_id: Option<String>,
    navigator_endpoint: Option<String>,
    rego_policy: Option<String>,
    rego_data: Option<String>,
) -> (r: Result<PolicySource, SandboxError>)
    ensures
        r == (match policy_source(sandbox_id, navigator_endpoint, rego_policy, rego_data) {
            Some(source) => Ok::<PolicySource, SandboxError>(source),
            None => Err::<PolicySource, SandboxError>(SandboxError::NoPolicySource),
        }),
{
    match (rego_policy, rego_data) {
        (Some(policy_file), Some(data_file)) => Ok(PolicySource::Rego { policy_file, data_file }),
        _ => match (sandbox_id, navigator_endpoint) {
            (Some(sandbox_id), Some(endpoint)) => Ok(PolicySource::Grpc { endpoint, sandbox_id }),
            _ => Err(SandboxError::NoPolicySource),
        },
    }
}

/// What the supervisor begins with.
#[derive(Debug)]
pub struct SandboxStart {
    pub program: String,
    pub args: Vec<String>,
    pub source: PolicySource,
}

/// Begins to run a command in the sandbox: there must be a command, and a policy for it.
pub fn run_sandbox(
    command: &Vec<String>,
    sandbox_id: Option<String>,
    navigator_endpoint: Option<String>,
    rego_policy: Option<String>,
    rego_data: Option<String>,
) -> (r: Result<SandboxStart, SandboxError>)
    ensures
        match r {
            Ok(start) => command@.len() > 0 && seq![start.program@] + text::views(start.args@)
                == text::views(command@) && policy_source(
                sandbox_id,
                navigator_endpoint,
                rego_policy,
                rego_data,
            ) == Some(start.source),
            Err(SandboxError::NoCommand) => command@.len() == 0,
            Err(SandboxError::NoPolicySource) => command@.len() > 0 && policy_source(
                sandbox_id,
                navigator_endpoint,
                rego_policy,
                rego_data,
            ) is None,
            Err(_) => false,
        },
{
    let (program, args) = match split_command(command) {
        Ok(parts) => parts,
        Err(e) => {
            return Err(e);
        },
    };
    match load_policy(sandbox_id, navigator_endpoint, rego_policy, rego_data) {
        Ok(source) => Ok(SandboxStart { program, args, source }),
        Err(e) => Err(e),
    }
}

/// How a sandbox reaches the network.
#[derive(Debug, Clone, Copy, PartialEq, Eq, Structural)]
pub enum NetworkMode {
    /// Through the proxy.
    Proxy,
    /// In a way that takes no proxy.
    Unproxied,
}

/// The proxy of a sandbox.
#[derive(Debug)]
pub struct ProxyPolicy {
    pub http_addr: Option<ListenAddr>,
}

/// The network part of a policy.
#[derive(Debug)]
pub struct NetworkPolicy {
    pub mode: NetworkMode,
    pub proxy: Option<ProxyPolicy>,
}

/// The version of a policy that comes from Rego files.
pub const REGO_POLICY_VERSION: u32 = 1;

/// The network part of a policy that comes from Rego files: a proxy, at no address in particular.
pub fn rego_network_policy() -> (p: NetworkPolicy)
    ensures
        p == (NetworkPolicy {
            mode: NetworkMode::Proxy,
            proxy: Some(ProxyPolicy { http_addr: None }),
        }),
{
    NetworkPolicy { mode: NetworkMode::Proxy, proxy: Some(ProxyPolicy { http_addr: None }) }
}

/// Whether a policy that the control plane hands out has a policy engine: if it has any network
/// policies.
pub fn needs_engine(network_policies: usize) -> (r: bool)
    ensures
        r == (network_policies != 0),
{
    network_policies != 0
}

// ---------------------------------------------------------------------------
// The filesystem
// ---------------------------------------------------------------------------

/// The user and the group whose ids are to be looked up.
#[derive(Debug)]
pub struct OwnerLookup {
    pub user: Option<String>,
    pub group: Option<String>,
}

/// A name that is configured: one that is there and not empty.
pub open spec fn configured(name: Option<Seq<char>>) -> Option<Seq<char>> {
    match name {
        Some(s) => if s.len() == 0 {
            None
        } else {
            Some(s)
        },
        None => None,
    }
}

fn non_empty(name: Option<String>) -> (r: Option<String>)
    ensures
        text::opt_view(r) == configured(text::opt_view(name)),
{
    match name {
        Some(s) => if s.as_str().is_empty() {
            None
        } else {
            Some(s)
        },
        None => None,
    }
}

/// Prepare filesystem for the sandboxed process: the user and the group that its `read_write`
/// directories are given to, as far as they are configured. What is done about each directory is
/// said by [`path_steps`].
pub fn prepare_filesystem(run_as_user: Option<String>, run_as_group: Option<String>) -> (l:
    OwnerLookup)
    ensures
        text::opt_view(l.user) == configured(text::opt_view(run_as_user)),
        text::opt_view(l.group) == configured(text::opt_view(run_as_group)),
{
    OwnerLookup { user: non_empty(run_as_user), group: non_empty(run_as_group) }
}

impl OwnerLookup {
    /// The id of the user, from what was found under its name. `None`: no user is configured.
    pub fn user_id(&self, found: Option<u32>) -> (r: Result<Option<u32>, SandboxError>)
        ensures
            match (self.user, found) {
                (None, _) => r == Ok::<Option<u32>, SandboxError>(None),
                (Some(_), Some(id)) => r == Ok::<Option<u32>, SandboxError>(Some(id)),
                (Some(name), None) => r matches Err(SandboxError::UserNotFound(n)) && n@ == name@,
            },
    {
        match &self.user {
            None => Ok(None),
            Some(name) => match found {
                Some(id) => Ok(Some(id)),
                None => Err(SandboxError::UserNotFound(name.clone())),
            },
        }
    }

    /// The id of the group, from what was found under its name. `None`: no group is configured.
    pub fn group_id(&self, found: Option<u32>) -> (r: Result<Option<u32>, SandboxError>)
        ensures
            match (self.group, found) {
                (None, _) => r == Ok::<Option<u32>, SandboxError>(None),
                (Some(_), Some(id)) => r == Ok::<Option<u32>, SandboxError>(Some(id)),
                (Some(name), None) => r matches Err(SandboxError::GroupNotFound(n)) && n@ == name@,
            },
    {
        match &self.group {
            None => Ok(None),
            Some(name) => match found {
                Some(id) => Ok(Some(id)),
                None => Err(SandboxError::GroupNotFound(name.clone())),
            },
        }
    }
}

/// Something to do about a `read_write` path.
#[derive(Debug, Clone, Copy, PartialEq, Eq, Structural)]
pub enum PathStep {
    /// Create the directory and those above it.
    Create,
    /// Give the path to this user and this group, where there is one.
    Chown { uid: Option<u32>, gid: Option<u32> },
}

/// What to do about a path: create it if it is not there, then change its owner, if there is one to
/// change it to.
pub open spec fn path_plan(exists: bool, uid: Option<u32>, gid: Option<u32>) -> Seq<PathStep> {
    (if exists {
        Seq::empty()
    } else {
        seq![PathStep::Create]
    }) + (if uid is None && gid is None {
        Seq::empty()
    } else {
        seq![PathStep::Chown { uid, gid }]
    })
}

/// What to do about a path, in this order.
pub fn path_steps(exists: bool, uid: Option<u32>, gid: Option<u32>) -> (v: Vec<PathStep>)
    ensures
        v@ == path_plan(exists, uid, gid),
{
    let mut v: Vec<PathStep> = Vec::new();
    if !exists {
        v.push(PathStep::Create);
    }
    if uid.is_some() || gid.is_some() {
        v.push(PathStep::Chown { uid, gid });
    }
    assert(v@ =~= path_plan(exists, uid, gid));
    v
}

/// A path: whether it is there, and whose it is. For one that is not there yet, whose it will be
/// when it is created.
pub struct PathState {
    pub exists: bool,
    pub uid: u32,
    pub gid: u32,
}

/// A path after a step.
pub open spec fn after_step(path: PathState, step: PathStep) -> PathState {
    match step {
        PathStep::Create => PathState { exists: true, ..path },
        PathStep::Chown { uid, gid } => PathState {
            uid: match uid {
                Some(id) => id,
                None => path.uid,
            },
            gid: match gid {
                Some(id) => id,
                None => path.gid,
            },
            ..path
        },
    }
}

/// A path after some steps.
pub open spec fn after_steps(path: PathState, steps: Seq<PathStep>) -> PathState
    decreases steps.len(),
{
    if steps.len() == 0 {
        path
    } else {
        after_step(after_steps(path, steps.drop_last()), steps.last())
    }
}

/// Once prepared, a `read_write` path is there, with the owner and the group that are configured.
/// One that is not configured is left as it was.
pub proof fn law_prepared_paths_exist(path: PathState, uid: Option<u32>, gid: Option<u32>)
    ensures
        after_steps(path, path_plan(path.exists, uid, gid)) == (PathState {
            exists: true,
            uid: match uid {
                Some(id) => id,
                None => path.uid,
            },
            gid: match gid {
                Some(id) => id,
                None => path.gid,
            },
        }),
{
    reveal_with_fuel(after_steps, 3);
    let plan = path_plan(path.exists, uid, gid);
    if plan.len() == 2 {
        assert(plan.drop_last() =~= seq![PathStep::Create]);
        assert(plan.drop_last().drop_last() =~= Seq::empty());
    } else if plan.len() == 1 {
        assert(plan.drop_last() =~= Seq::empty());
    }
}

// ---------------------------------------------------------------------------
// The network
// ---------------------------------------------------------------------------

/// A network namespace, as far as the supervisor looks at it.
#[derive(Debug)]
pub struct Namespace {
    /// The address of the host's end of the link, at which the proxy listens.
    pub host_ip: String,
    /// The file descriptor by which other processes enter the namespace.
    pub fd: Option<i32>,
}

/// What the supervisor runs on.
#[derive(Debug, Clone, Copy, PartialEq, Eq, Structural)]
pub enum HostPlatform {
    /// Linux, which has network namespaces.
    Linux,
    /// A system that has none.
    Other,
}

/// A sandbox whose network is settled: the namespace is there before anything that needs it, which
/// is the proxy, the SSH server and the sandboxed process.
#[derive(Debug)]
pub struct Isolation {
    host: HostPlatform,
    mode: NetworkMode,
    namespace: Option<Namespace>,
}

/// The port of the proxy.
pub open spec fn proxy_port(proxy: Option<ProxyPolicy>) -> u16 {
    match proxy {
        Some(p) => match p.http_addr {
            Some(addr) => addr.port,
            None => DEFAULT_PROXY_PORT,
        },
        None => DEFAULT_PROXY_PORT,
    }
}

fn port_of(proxy: &Option<ProxyPolicy>) -> (port: u16)
    ensures
        port == proxy_port(*proxy),
{
    match proxy {
        Some(p) => match &p.http_addr {
            Some(addr) => addr.port,
            None => DEFAULT_PROXY_PORT,
        },
        None => DEFAULT_PROXY_PORT,
    }
}

/// The URL of a proxy that listens on this address.
pub open spec fn proxy_url(host_ip: Seq<char>, port: u16) -> Seq<char> {
    "http://"@ + host_ip + ":"@ + number::decimal(port as nat)
}

/// The URL that shells are told of leads to the address that the proxy listens on.
pub proof fn law_proxy_url_names_the_proxy(host_ip: Seq<char>, port: u16)
    ensures
        proxy::endpoint_of(proxy_url(host_ip, port)) == Some((text::lowered(host_ip), port)),
{
    let url = proxy_url(host_ip, port);
    let digits = number::decimal(port as nat);
    let rest = host_ip + ":"@ + digits;
    reveal_strlit("http://");
    reveal_strlit(":");
    number::lemma_decimal_reads_back(port as nat);
    assert(url.subrange(0, 7) =~= "http://"@);
    assert(url.skip(7) =~= rest);
    let k = text::last_position(rest, ':');
    text::lemma_last_position(rest, ':');
    assert(rest[host_ip.len() as int] == ':');
    if k > host_ip.len() {
        assert(rest[k] == digits[k - host_ip.len() - 1]);
    }
    assert(k == host_ip.len());
    assert(rest.take(k) =~= host_ip);
    assert(rest.skip(k + 1) =~= digits);
    assert(digits[0] != '+');
}

/// An address to listen on.
#[derive(Debug)]
pub struct BindAddr {
    pub host_ip: String,
    pub port: u16,
}

/// What the proxy of a sandbox is started with.
#[derive(Debug)]
pub struct ProxyPlan {
    /// The address to listen on. `None`: the policy's own.
    pub bind: Option<BindAddr>,
    /// The destinations that need no policy: the control plane, so that sandboxed processes can
    /// reach it for inference.
    pub control_plane_endpoints: Vec<AllowedEndpoint>,
}

/// The proxy that shells are told of: the one on the host's end of the namespace's link or, without
/// a namespace, the one at the policy's own address.
pub open spec fn shell_proxy(
    mode: NetworkMode,
    netns: Option<Namespace>,
    proxy: Option<ProxyPolicy>,
) -> Option<Seq<char>> {
    match (mode, netns) {
        (NetworkMode::Unproxied, _) => None,
        (NetworkMode::Proxy, Some(ns)) => Some(proxy_url(ns.host_ip@, proxy_port(proxy))),
        (NetworkMode::Proxy, None) => match proxy {
            Some(p) => match p.http_addr {
                Some(addr) => Some("http://"@ + addr.text@),
                None => None,
            },
            None => None,
        },
    }
}

/// What the SSH server of a sandbox is started with.
#[derive(Debug)]
pub struct SshPlan {
    pub listen_addr: String,
    pub secret: String,
    pub skew_secs: u64,
    /// The namespace that shells enter, so that all their traffic goes through the proxy.
    pub netns_fd: Option<i32>,
    /// The proxy that shells are told of.
    pub proxy_url: Option<String>,
}

/// Whether a sandbox in this mode gets a network namespace: in proxy mode, wherever there are any.
pub fn needs_namespace(mode: NetworkMode, host: HostPlatform) -> (r: bool)
    ensures
        r == (mode == NetworkMode::Proxy && host == HostPlatform::Linux),
{
    mode == NetworkMode::Proxy && host == HostPlatform::Linux
}

impl Isolation {
    #[verifier::type_invariant]
    spec fn well_formed(self) -> bool {
        self.namespace is Some <==> self.mode == NetworkMode::Proxy && self.host
            == HostPlatform::Linux
    }

    /// What the supervisor runs on.
    pub closed spec fn platform(self) -> HostPlatform {
        self.host
    }

    /// How the sandbox reaches the network.
    pub closed spec fn network_mode(self) -> NetworkMode {
        self.mode
    }

    /// The network namespace.
    pub closed spec fn netns(self) -> Option<Namespace> {
        self.namespace
    }

    /// Settles the network of a sandbox that gets no namespace. `None`: it needs one.
    pub fn without_namespace(mode: NetworkMode, host: HostPlatform) -> (r: Option<Isolation>)
        ensures
            r is None <==> mode == NetworkMode::Proxy && host == HostPlatform::Linux,
            r matches Some(i) ==> i.network_mode() == mode && i.platform() == host
                && i.netns() is None,
    {
        if needs_namespace(mode, host) {
            None
        } else {
            Some(Isolation { host, mode, namespace: None })
        }
    }

    /// Settles the network of a sandbox in proxy mode that needs a namespace: the namespace, or why
    /// there is none. Isolation is mandatory there, so without it the sandbox does not start.
    pub fn proxied(created: Result<Namespace, String>) -> (r: Result<Isolation, SandboxError>)
        ensures
            match created {
                Ok(ns) => r matches Ok(i) && i.network_mode() == NetworkMode::Proxy && i.platform()
                    == HostPlatform::Linux && i.netns() == Some(ns),
                Err(reason) => r == Err::<Isolation, SandboxError>(
                    SandboxError::NoNamespace(reason),
                ),
            },
    {
        match created {
            Ok(ns) => Ok(
                Isolation {
                    host: HostPlatform::Linux,
                    mode: NetworkMode::Proxy,
                    namespace: Some(ns),
                },
            ),
            Err(reason) => Err(SandboxError::NoNamespace(reason)),
        }
    }

    /// The network namespace that the sandboxed process runs in: on Linux there is one exactly in
    /// proxy mode.
    pub fn namespace(&self) -> (r: &Option<Namespace>)
        ensures
            *r == self.netns(),
            r is Some <==> self.network_mode() == NetworkMode::Proxy && self.platform()
                == HostPlatform::Linux,
    {
        proof {
            use_type_invariant(self);
        }
        &self.namespace
    }

    /// The proxy to start, if there is one to start. It takes a proxy configuration and a policy
    /// engine. It listens on the host's end of the namespace's link, if there is a namespace, so
    /// that sandboxed processes can reach it, and always lets them through to the control plane.
    pub fn proxy_plan(
        &self,
        proxy: &Option<ProxyPolicy>,
        has_engine: bool,
        navigator_endpoint: &Option<String>,
    ) -> (r: Result<Option<ProxyPlan>, SandboxError>)
        ensures
            if self.network_mode() == NetworkMode::Unproxied {
                r == Ok::<Option<ProxyPlan>, SandboxError>(None)
            } else if *proxy is None {
                r == Err::<Option<ProxyPlan>, SandboxError>(SandboxError::NoProxyConfig)
            } else if !has_engine {
                r == Err::<Option<ProxyPlan>, SandboxError>(SandboxError::NoPolicyEngine)
            } else {
                &&& r matches Ok(Some(_))
                &&& is_control_plane_list(
                    r->Ok_0->0.control_plane_endpoints@,
                    text::opt_view(*navigator_endpoint),
                )
                &&& match (self.netns(), r->Ok_0->0.bind) {
                    (Some(ns), Some(bind)) => bind.host_ip@ == ns.host_ip@ && bind.port
                        == proxy_port(*proxy),
                    (None, None) => true,
                    _ => false,
                }
            },
    {
        if self.mode == NetworkMode::Unproxied {
            return Ok(None);
        }
        if proxy.is_none() {
            return Err(SandboxError::NoProxyConfig);
        }
        if !has_engine {
            return Err(SandboxError::NoPolicyEngine);
        }
        let mut control_plane_endpoints: Vec<AllowedEndpoint> = Vec::new();
        if let Some(url) = navigator_endpoint {
            if let Some(endpoint) = proxy::parse_endpoint_url(url.as_str()) {
                control_plane_endpoints.push(endpoint);
            }
        }
        let bind = match &self.namespace {
            Some(ns) => Some(BindAddr { host_ip: ns.host_ip.clone(), port: port_of(proxy) }),
            None => None,
        };
        Ok(Some(ProxyPlan { bind, control_plane_endpoints }))
    }

    fn shell_proxy_url(&self, proxy: &Option<ProxyPolicy>) -> (r: Option<String>)
        ensures
            text::opt_view(r) == shell_proxy(self.network_mode(), self.netns(), *proxy),
    {
        if self.mode == NetworkMode::Unproxied {
            return None;
        }
        match &self.namespace {
            Some(ns) => {
                let port = number::render_u64(port_of(proxy) as u64);
                Some(
                    "http://".to_owned().concat(ns.host_ip.as_str()).concat(":").concat(
                        port.as_str(),
                    ),
                )
            },
            None => match proxy {
                Some(p) => match &p.http_addr {
                    Some(addr) => Some("http://".to_owned().concat(addr.text.as_str())),
                    None => None,
                },
                None => None,
            },
        }
    }

    /// The SSH server to start, if there is an address for it. Its shells enter the namespace, if
    /// there is one, and are told of the proxy.
    pub fn ssh_plan(
        &self,
        proxy: &Option<ProxyPolicy>,
        listen_addr: Option<String>,
        handshake_secret: Option<String>,
        skew_secs: u64,
    ) -> (r: Option<SshPlan>)
        ensures
            r is Some <==> listen_addr is Some,
            r matches Some(plan) ==> {
                &&& listen_addr == Some(plan.listen_addr)
                &&& plan.secret@ == (match handshake_secret {
                    Some(s) => s@,
                    None => Seq::empty(),
                })
                &&& plan.skew_secs == skew_secs
                &&& plan.netns_fd == (match self.netns() {
                    Some(ns) => ns.fd,
                    None => None,
                })
                &&& text::opt_view(plan.proxy_url) == shell_proxy(
                    self.network_mode(),
                    self.netns(),
                    *proxy,
                )
            },
    {
        let listen_addr = match listen_addr {
            Some(addr) => addr,
            None => {
                return None;
            },
        };
        let secret = match handshake_secret {
            Some(s) => s,
            None => String::new(),
        };
        let netns_fd = match &self.namespace {
            Some(ns) => ns.fd,
            None => None,
        };
        let proxy_url = self.shell_proxy_url(proxy);
        Some(SshPlan { listen_addr, secret, skew_secs, netns_fd, proxy_url })
    }
}

/// Whether `eps` is the list with the control plane's endpoint, or an empty list where the control
/// plane is at no URL that names a host and a port.
pub open spec fn is_control_plane_list(eps: Seq<AllowedEndpoint>, url: Option<Seq<char>>) -> bool {
    match url {
        Some(u) => match proxy::endpoint_of(u) {
            Some(ep) => eps.len() == 1 && eps[0]@ == ep,
            None => eps.len() == 0,
        },
        None => eps.len() == 0,
    }
}

/// What the proxy of a sandbox lets through without a policy is the control plane, and nothing
/// else.
pub proof fn law_only_the_control_plane_needs_no_policy(
    eps: Seq<AllowedEndpoint>,
    url: Seq<char>,
    host: Seq<char>,
    port: u16,
)
    requires
        is_control_plane_list(eps, Some(url)),
    ensures
        proxy::listed(eps, host, port) <==> proxy::endpoint_of(url) == Some((host, port)),
{
    match proxy::endpoint_of(url) {
        Some(ep) => {
            if ep == (host, port) {
                assert(eps[0]@ == (host, port));
            }
        },
        None => {},
    }
}

// ---------------------------------------------------------------------------
// The order
// ---------------------------------------------------------------------------

/// Something that the supervisor does once it has a command and a policy.
#[derive(Debug, Clone, Copy, PartialEq, Eq, Structural)]
pub enum StartStep {
    PrepareFilesystem,
    CreateNamespace,
    StartProxy,
    StartSsh,
    Spawn,
    Wait,
}

/// What the supervisor does, in this order.
pub open spec fn start_plan(mode: NetworkMode, host: HostPlatform, has_ssh: bool) -> Seq<
    StartStep,
> {
    seq![StartStep::PrepareFilesystem] + (match (mode, host) {
        (NetworkMode::Proxy, HostPlatform::Linux) => seq![
            StartStep::CreateNamespace,
            StartStep::StartProxy,
        ],
        (NetworkMode::Proxy, HostPlatform::Other) => seq![StartStep::StartProxy],
        (NetworkMode::Unproxied, _) => Seq::empty(),
    }) + (if has_ssh {
        seq![StartStep::StartSsh]
    } else {
        Seq::empty()
    }) + seq![StartStep::Spawn, StartStep::Wait]
}

/// What the supervisor does, in this order. The namespace comes before the proxy and the SSH
/// server, so that SSH sessions can enter it.
pub fn start_steps(mode: NetworkMode, host: HostPlatform, has_ssh: bool) -> (v: Vec<StartStep>)
    ensures
        v@ == start_plan(mode, host, has_ssh),
{
    let mut v: Vec<StartStep> = Vec::new();
    v.push(StartStep::PrepareFilesystem);
    if needs_namespace(mode, host) {
        v.push(StartStep::CreateNamespace);
    }
    if mode == NetworkMode::Proxy {
        v.push(StartStep::StartProxy);
    }
    if has_ssh {
        v.push(StartStep::StartSsh);
    }
    v.push(StartStep::Spawn);
    v.push(StartStep::Wait);
    assert(v@ =~= start_plan(mode, host, has_ssh));
    v
}

/// Nothing that could use the network starts before the proxy, and on Linux the proxy not before
/// the namespace: in proxy mode the namespace is created first, then the proxy starts, and only
/// then the SSH server and the sandboxed process. Directories are prepared before any of it.
pub proof fn law_isolation_comes_first(host: HostPlatform, has_ssh: bool, i: int, j: int)
    requires
        0 <= i < start_plan(NetworkMode::Proxy, host, has_ssh).len(),
        0 <= j < start_plan(NetworkMode::Proxy, host, has_ssh).len(),
    ensures
        ({
            let plan = start_plan(NetworkMode::Proxy, host, has_ssh);
            &&& plan[0] == StartStep::PrepareFilesystem
            &&& plan[i] == StartStep::CreateNamespace && (plan[j] == StartStep::StartProxy
                || plan[j] == StartStep::StartSsh || plan[j] == StartStep::Spawn) ==> i < j
            &&& plan[i] == StartStep::StartProxy && (plan[j] == StartStep::StartSsh || plan[j]
                == StartStep::Spawn) ==> i < j
            &&& plan.contains(StartStep::CreateNamespace) <==> host == HostPlatform::Linux
            &&& plan.contains(StartStep::StartProxy)
        }),
{
    let plan = start_plan(NetworkMode::Proxy, host, has_ssh);
    if host == HostPlatform::Linux {
        assert(plan[1] == StartStep::CreateNamespace);
        assert(plan[2] == StartStep::StartProxy);
    } else {
        assert(plan[1] == StartStep::StartProxy);
    }
}

// ---------------------------------------------------------------------------
// The end
// ---------------------------------------------------------------------------

/// How long to wait for the sandboxed process, in seconds. `None`: for as long as it takes.
pub fn wait_limit(timeout_secs: u64) -> (r: Option<u64>)
    ensures
        r == (if timeout_secs > 0 {
            Some(timeout_secs)
        } else {
            None::<u64>
        }),
{
    if timeout_secs > 0 {
        Some(timeout_secs)
    } else {
        None
    }
}

/// How the wait for the sandboxed process ended.
#[derive(Debug, Clone, Copy, PartialEq, Eq, Structural)]
pub enum WaitEnd {
    /// The process ended, with this code.
    Exited(i32),
    /// Time ran out first.
    TimedOut,
}

/// What is left to do, and to return.
#[derive(Debug, Clone, Copy, PartialEq, Eq, Structural)]
pub struct SandboxEnd {
    /// Whether the process is to be killed.
    pub kill: bool,
    pub exit_code: i32,
}

/// The end of a sandbox: the exit code of its process, or that of a timeout, for which the process
/// is killed.
pub fn sandbox_end(end: WaitEnd) -> (r: SandboxEnd)
    ensures
        r == (match end {
            WaitEnd::Exited(code) => SandboxEnd { kill: false, exit_code: code },
            WaitEnd::TimedOut => SandboxEnd { kill: true, exit_code: TIMEOUT_EXIT_CODE },
        }),
{
    match end {
        WaitEnd::Exited(code) => SandboxEnd { kill: false, exit_code: code },
        WaitEnd::TimedOut => SandboxEnd { kill: true, exit_code: TIMEOUT_EXIT_CODE },
    }
}

// ---------------------------------------------------------------------------
// Laws
// ---------------------------------------------------------------------------

/// The place of a step in the order in which a sandbox starts.
pub open spec fn rank(step: StartStep) -> int {
    match step {
        StartStep::PrepareFilesystem => 0,
        StartStep::CreateNamespace => 1,
        StartStep::StartProxy => 2,
        StartStep::StartSsh => 3,
        StartStep::Spawn => 4,
        StartStep::Wait => 5,
    }
}

/// What a start takes, in every mode and on every host: directories are prepared and the command is
/// spawned and waited for in any case; there is a namespace in proxy mode on Linux, a proxy in proxy
/// mode, and an SSH server exactly if there is an address for it. No step is taken twice, and all
/// come in their order, the SSH server before the command, and nothing after the wait.
pub proof fn law_start_takes_what_it_needs(mode: NetworkMode, host: HostPlatform, has_ssh: bool)
    ensures
        ({
            let plan = start_plan(mode, host, has_ssh);
            &&& plan.contains(StartStep::PrepareFilesystem)
            &&& plan.contains(StartStep::CreateNamespace) <==> mode == NetworkMode::Proxy && host
                == HostPlatform::Linux
            &&& plan.contains(StartStep::StartProxy) <==> mode == NetworkMode::Proxy
            &&& plan.contains(StartStep::StartSsh) <==> has_ssh
            &&& plan.contains(StartStep::Spawn)
            &&& plan.contains(StartStep::Wait)
            &&& forall|i: int, j: int|
                0 <= i < j < plan.len() ==> rank(#[trigger] plan[i]) < rank(#[trigger] plan[j])
            &&& plan[plan.len() - 2] == StartStep::Spawn
            &&& plan.last() == StartStep::Wait
        }),
{
    let plan = start_plan(mode, host, has_ssh);
    let proxy: int = if mode == NetworkMode::Proxy {
        1
    } else {
        0
    };
    let ns: int = if mode == NetworkMode::Proxy && host == HostPlatform::Linux {
        1
    } else {
        0
    };
    assert(plan[0] == StartStep::PrepareFilesystem);
    if ns == 1 {
        assert(plan[1] == StartStep::CreateNamespace);
    }
    if proxy == 1 {
        assert(plan[1 + ns] == StartStep::StartProxy);
    }
    if has_ssh {
        assert(plan[1 + ns + proxy] == StartStep::StartSsh);
    }
    assert(plan[plan.len() - 2] == StartStep::Spawn);
    assert(plan[plan.len() - 1] == StartStep::Wait);
}

/// Two Rego files give the policy, whatever else there is. Else a control plane and the sandbox's
/// id give it. A part of either is not enough.
pub proof fn law_policy_comes_from_the_first_complete_source(
    id: String,
    endpoint: String,
    policy_file: String,
    data_file: String,
    some_id: Option<String>,
    some_endpoint: Option<String>,
    some_policy: Option<String>,
    some_data: Option<String>,
)
    ensures
        policy_source(some_id, some_endpoint, Some(policy_file), Some(data_file)) == Some(
            PolicySource::Rego { policy_file, data_file },
        ),
        some_policy is None || some_data is None ==> policy_source(
            Some(id),
            Some(endpoint),
            some_policy,
            some_data,
        ) == Some(PolicySource::Grpc { endpoint, sandbox_id: id }),
        (some_policy is None || some_data is None) && (some_id is None || some_endpoint is None)
            ==> policy_source(some_id, some_endpoint, some_policy, some_data) is None,
{
}

/// A name counts as configured if it is there and not empty.
pub proof fn law_empty_names_are_not_configured(name: Seq<char>)
    ensures
        configured(None) is None,
        name.len() == 0 ==> configured(Some(name)) is None,
        name.len() > 0 ==> configured(Some(name)) == Some(name),
{
}

/// A path is created exactly if it is not there, and its owner is changed exactly if there is one to
/// change it to, once each and in this order; nothing else is done about it.
pub proof fn law_paths_take_what_they_need(exists: bool, uid: Option<u32>, gid: Option<u32>)
    ensures
        ({
            let plan = path_plan(exists, uid, gid);
            let chown = PathStep::Chown { uid, gid };
            &&& plan.contains(PathStep::Create) <==> !exists
            &&& plan.contains(chown) <==> uid is Some || gid is Some
            &&& forall|i: int|
                0 <= i < plan.len() ==> #[trigger] plan[i] == PathStep::Create || plan[i] == chown
            &&& forall|i: int, j: int|
                0 <= i < j < plan.len() ==> #[trigger] plan[i] == PathStep::Create
                    && #[trigger] plan[j] == chown
        }),
{
    let plan = path_plan(exists, uid, gid);
    if !exists {
        assert(plan[0] == PathStep::Create);
    }
    if uid is Some || gid is Some {
        assert(plan[plan.len() - 1] == PathStep::Chown { uid, gid });
    }
}

/// The proxy's port is the one that the policy names, and the usual one where it names none.
pub proof fn law_port_is_the_policys(addr: ListenAddr)
    ensures
        proxy_port(Some(ProxyPolicy { http_addr: Some(addr) })) == addr.port,
        proxy_port(Some(ProxyPolicy { http_addr: None })) == 3128,
        proxy_port(None) == 3128,
{
}

/// Shells are told of the proxy that was started, and of none where there is none: with a namespace
/// the URL leads to the host's end of its link and the policy's port, without one to the policy's
/// own address.
pub proof fn law_shells_are_told_of_the_proxy(
    ns: Namespace,
    netns: Option<Namespace>,
    proxy: Option<ProxyPolicy>,
    addr: ListenAddr,
)
    ensures
        shell_proxy(NetworkMode::Unproxied, netns, proxy) is None,
        shell_proxy(NetworkMode::Proxy, Some(ns), proxy) == Some(
            "http://"@ + ns.host_ip@ + ":"@ + number::decimal(proxy_port(proxy) as nat),
        ),
        shell_proxy(NetworkMode::Proxy, Some(ns), proxy) matches Some(url) && proxy::endpoint_of(url)
            == Some((text::lowered(ns.host_ip@), proxy_port(proxy))),
        shell_proxy(
            NetworkMode::Proxy,
            None,
            Some(ProxyPolicy { http_addr: Some(addr) }),
        ) == Some("http://"@ + addr.text@),
        shell_proxy(NetworkMode::Proxy, None, Some(ProxyPolicy { http_addr: None })) is None,
        shell_proxy(NetworkMode::Proxy, None, None) is None,
{
    law_proxy_url_names_the_proxy(ns.host_ip@, proxy_port(proxy));
}

/// The list of endpoints that need no policy holds the control plane's and no other, and nothing
/// where there is no control plane or where its URL names no endpoint.
pub proof fn law_control_plane_list_holds_the_control_plane(
    eps: Seq<AllowedEndpoint>,
    scheme: Seq<char>,
    host: Seq<char>,
    port: u16,
)
    requires
        scheme == "http://"@ || scheme == "https://"@,
    ensures
        is_control_plane_list(eps, None) <==> eps.len() == 0,
        is_control_plane_list(
            eps,
            Some(scheme + host + seq![':'] + number::decimal(port as nat)),
        ) <==> eps.len() == 1 && eps[0].host@ == text::lowered(host) && eps[0].port == port,
{
    proxy::law_endpoint_is_read_as_written(scheme, host, Seq::empty(), port);
}

/// The text of an error names what it is about.
pub proof fn law_errors_name_their_cause(s: String)
    ensures
        SandboxError::UserNotFound(s).text() == "Sandbox user not found: "@ + s@,
        SandboxError::GroupNotFound(s).text() == "Sandbox group not found: "@ + s@,
        SandboxError::NoNamespace(s).text()
            == "Network namespace creation failed and proxy mode requires isolation. Ensure CAP_NET_ADMIN and CAP_SYS_ADMIN are available and iproute2 is installed. Error: "@
            + s@,
{
}

} // verus!
