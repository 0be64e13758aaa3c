//! An SSH session: the terminal it asks for, the shell it starts, and how its channel ends.

use vstd::prelude::*;

use crate::text;

verus! {

// ---------------------------------------------------------------------------
// Terminal sizes
// ---------------------------------------------------------------------------

/// `value` as a 16-bit number, the largest one in place of a larger value.
pub open spec fn clamped(value: u32) -> u16 {
    if value <= u16::MAX {
        value as u16
    } else {
        u16::MAX
    }
}

/// Clamps a 32-bit dimension to the 16-bit range of a terminal size.
pub fn to_u16(value: u32) -> (r: u16)
    ensures
        r == clamped(value),
{
    if value <= 65535 {
        value as u16
    } else {
        65535
    }
}

/// The size of a terminal.
#[derive(Debug, Clone, Copy, PartialEq, Eq, Structural)]
pub struct WindowSize {
    pub ws_row: u16,
    pub ws_col: u16,
    pub ws_xpixel: u16,
    pub ws_ypixel: u16,
}

/// The terminal size of a request: at least one row and one column.
pub open spec fn size_of_request(cols: u32, rows: u32, xpixel: u32, ypixel: u32) -> WindowSize {
    WindowSize {
        ws_row: if rows == 0 {
            1
        } else {
            clamped(rows)
        },
        ws_col: if cols == 0 {
            1
        } else {
            clamped(cols)
        },
        ws_xpixel: clamped(xpixel),
        ws_ypixel: clamped(ypixel),
    }
}

/// The terminal size of a request.
pub fn window_size(cols: u32, rows: u32, xpixel: u32, ypixel: u32) -> (w: WindowSize)
    ensures
        w == size_of_request(cols, rows, xpixel, ypixel),
{
    WindowSize {
        ws_row: to_u16(
            if rows < 1 {
                1
            } else {
                rows
            },
        ),
        ws_col: to_u16(
            if cols < 1 {
                1
            } else {
                cols
            },
        ),
        ws_xpixel: to_u16(xpixel),
        ws_ypixel: to_u16(ypixel),
    }
}

/// A terminal has at least one row and one column, whatever was asked for.
pub proof fn law_window_has_a_cell(cols: u32, rows: u32, xpixel: u32, ypixel: u32)
    ensures
        size_of_request(cols, rows, xpixel, ypixel).ws_row >= 1,
        size_of_request(cols, rows, xpixel, ypixel).ws_col >= 1,
{
}

/// A request for a terminal.
#[derive(Debug)]
pub struct PtyRequest {
    pub term: String,
    pub col_width: u32,
    pub row_height: u32,
    pub pixel_width: u32,
    pub pixel_height: u32,
}

impl Default for PtyRequest {
    fn default() -> (r: PtyRequest)
        ensures
            r.term@ == "xterm-256color"@,
            r.col_width == 80,
            r.row_height == 24,
            r.pixel_width == 0,
            r.pixel_height == 0,
    {
        PtyRequest {
            term: "xterm-256color".to_owned(),
            col_width: 80,
            row_height: 24,
            pixel_width: 0,
            pixel_height: 0,
        }
    }
}

// ---------------------------------------------------------------------------
// Shells
// ---------------------------------------------------------------------------

/// A step that the child process takes between fork and exec.
#[derive(Debug, Clone, Copy, PartialEq, Eq, Structural)]
pub enum PreExecStep {
    /// Become the leader of a new session.
    NewSession,
    /// Take the terminal as controlling terminal.
    ControllingTerminal,
    /// Enter the network namespace behind this descriptor.
    EnterNetworkNamespace(i32),
    /// Change to the sandbox user and group.
    DropPrivileges,
    /// Apply the sandbox restrictions.
    ApplySandbox,
}

/// The steps between fork and exec. The network namespace is entered while there are privileges
/// to do so, and privileges are dropped while the user database can still be read.
pub open spec fn pre_exec_plan(netns_fd: Option<i32>) -> Seq<PreExecStep> {
    seq![PreExecStep::NewSession, PreExecStep::ControllingTerminal] + (match netns_fd {
        Some(fd) => seq![PreExecStep::EnterNetworkNamespace(fd)],
        None => Seq::empty(),
    }) + seq![PreExecStep::DropPrivileges, PreExecStep::ApplySandbox]
}

/// The steps between fork and exec.
pub fn pre_exec_steps(netns_fd: Option<i32>) -> (v: Vec<PreExecStep>)
    ensures
        v@ == pre_exec_plan(netns_fd),
{
    let mut v: Vec<PreExecStep> = Vec::new();
    v.push(PreExecStep::NewSession);
    v.push(PreExecStep::ControllingTerminal);
    if let Some(fd) = netns_fd {
        v.push(PreExecStep::EnterNetworkNamespace(fd));
    }
    v.push(PreExecStep::DropPrivileges);
    v.push(PreExecStep::ApplySandbox);
    assert(v@ =~= pre_exec_plan(netns_fd));
    v
}

/// The namespace is entered before privileges are dropped, and the sandbox is applied after that,
/// as the last thing.
pub proof fn law_pre_exec_order(netns_fd: Option<i32>, i: int, j: int)
    requires
        0 <= i < pre_exec_plan(netns_fd).len(),
        0 <= j < pre_exec_plan(netns_fd).len(),
    ensures
        pre_exec_plan(netns_fd).last() == PreExecStep::ApplySandbox,
        pre_exec_plan(netns_fd).contains(PreExecStep::DropPrivileges),
        netns_fd matches Some(fd) ==> pre_exec_plan(netns_fd).contains(
            PreExecStep::EnterNetworkNamespace(fd),
        ),
        pre_exec_plan(netns_fd)[i] is EnterNetworkNamespace && pre_exec_plan(netns_fd)[j]
            == PreExecStep::DropPrivileges ==> i < j,
        pre_exec_plan(netns_fd)[i] == PreExecStep::DropPrivileges && pre_exec_plan(netns_fd)[j]
            == PreExecStep::ApplySandbox ==> i < j,
{
    let p = pre_exec_plan(netns_fd);
    assert(p[p.len() - 2] == PreExecStep::DropPrivileges);
    match netns_fd {
        Some(fd) => {
            assert(p[2] == PreExecStep::EnterNetworkNamespace(fd));
        },
        None => {},
    }
}

/// A shell to be started on a terminal.
#[derive(Debug)]
pub struct ShellPlan {
    pub size: WindowSize,
    pub program: &'static str,
    pub args: Vec<String>,
    /// Variables to set, in this order.
    pub env: Vec<(String, String)>,
    pub workdir: Option<String>,
    pub pre_exec: Vec<PreExecStep>,
}

/// The terminal type, with a default for an empty one.
pub open spec fn term_or_default(term: Seq<char>) -> Seq<char> {
    if term.len() == 0 {
        "xterm-256color"@
    } else {
        term
    }
}

/// The variables that route cooperative tools through the proxy. Both cases are needed: curl and
/// wget read the upper-case names, gRPC reads the lower-case ones.
pub open spec fn proxy_env(proxy_url: Option<Seq<char>>) -> Seq<(Seq<char>, Seq<char>)> {
    match proxy_url {
        Some(url) => seq![
            ("HTTP_PROXY"@, url),
            ("HTTPS_PROXY"@, url),
            ("ALL_PROXY"@, url),
            ("http_proxy"@, url),
            ("https_proxy"@, url),
            ("grpc_proxy"@, url),
        ],
        None => Seq::empty(),
    }
}

/// The variables of a shell.
pub open spec fn shell_env(
    term: Seq<char>,
    proxy_url: Option<Seq<char>>,
) -> Seq<(Seq<char>, Seq<char>)> {
    seq![
        ("NAVIGATOR_SANDBOX"@, "1"@),
        ("HOME"@, "/sandbox"@),
        ("USER"@, "sandbox"@),
        ("TERM"@, term_or_default(term)),
    ] + proxy_env(proxy_url)
}

/// The arguments of a shell: an interactive one, or one that runs a command.
pub open spec fn shell_args(command: Option<Seq<char>>) -> Seq<Seq<char>> {
    match command {
        Some(c) => seq!["-lc"@, c],
        None => seq!["-i"@],
    }
}

fn shell_env_pairs(term: &str, proxy_url: &Option<String>) -> (v: Vec<(String, String)>)
    ensures
        text::pair_views(v@) == shell_env(term@, text::opt_view(*proxy_url)),
{
    let mut v: Vec<(String, String)> = Vec::new();
    assert(text::pair_views(v@) =~= Seq::empty());
    text::push_pair(&mut v, "NAVIGATOR_SANDBOX", "1");
    text::push_pair(&mut v, "HOME", "/sandbox");
    text::push_pair(&mut v, "USER", "sandbox");
    text::push_pair(
        &mut v,
        "TERM",
        if term.is_empty() {
            "xterm-256color"
        } else {
            term
        },
    );
    if let Some(url) = proxy_url {
        text::push_pair(&mut v, "HTTP_PROXY", url.as_str());
        text::push_pair(&mut v, "HTTPS_PROXY", url.as_str());
        text::push_pair(&mut v, "ALL_PROXY", url.as_str());
        text::push_pair(&mut v, "http_proxy", url.as_str());
        text::push_pair(&mut v, "https_proxy", url.as_str());
        text::push_pair(&mut v, "grpc_proxy", url.as_str());
    }
    assert(text::pair_views(v@) =~= shell_env(term@, text::opt_view(*proxy_url)));
    v
}

// ---------------------------------------------------------------------------
// The session
// ---------------------------------------------------------------------------

/// The state of an SSH session.
#[derive(Debug)]
pub struct SshHandler {
    pub workdir: Option<String>,
    pub netns_fd: Option<i32>,
    pub proxy_url: Option<String>,
    /// The terminal asked for and not yet used.
    pub pty_request: Option<PtyRequest>,
    /// Whether a shell has been started.
    pub shell_started: bool,
}

impl SshHandler {
    /// A session in which nothing has been asked for.
    pub fn new(
        workdir: Option<String>,
        netns_fd: Option<i32>,
        proxy_url: Option<String>,
    ) -> (h: SshHandler)
        ensures
            h.workdir == workdir,
            h.netns_fd == netns_fd,
            h.proxy_url == proxy_url,
            h.pty_request is None,
            !h.shell_started,
    {
        SshHandler { workdir, netns_fd, proxy_url, pty_request: None, shell_started: false }
    }

    /// Notes the terminal that the next shell gets. Its size in pixels is not taken over.
    pub fn pty_request(&mut self, term: &str, col_width: u32, row_height: u32)
        ensures
            final(self).pty_request matches Some(p) && p.term@ == term@ && p.col_width == col_width
                && p.row_height == row_height && p.pixel_width == 0 && p.pixel_height == 0,
            final(self).workdir == old(self).workdir,
            final(self).netns_fd == old(self).netns_fd,
            final(self).proxy_url == old(self).proxy_url,
            final(self).shell_started == old(self).shell_started,
    {
        self.pty_request = Some(
            PtyRequest {
                term: term.to_owned(),
                col_width,
                row_height,
                pixel_width: 0,
                pixel_height: 0,
            },
        );
    }

    /// The size to give the terminal of the running shell, if there is one.
    pub fn window_change_request(
        &self,
        col_width: u32,
        row_height: u32,
        pixel_width: u32,
        pixel_height: u32,
    ) -> (r: Option<WindowSize>)
        ensures
            r == (if self.shell_started {
                Some(size_of_request(col_width, row_height, pixel_width, pixel_height))
            } else {
                None::<WindowSize>
            }),
    {
        if self.shell_started {
            Some(window_size(col_width, row_height, pixel_width, pixel_height))
        } else {
            None
        }
    }

    /// Whether input goes anywhere: to the shell, once there is one.
    pub fn forwards_input(&self) -> (r: bool)
        ensures
            r == self.shell_started,
    {
        self.shell_started
    }

    /// The shell to start for a command, or for interactive use. Uses up the terminal request.
    pub fn start_shell(&mut self, command: Option<String>) -> (plan: ShellPlan)
        ensures
            final(self).pty_request is None,
            final(self).workdir == old(self).workdir,
            final(self).netns_fd == old(self).netns_fd,
            final(self).proxy_url == old(self).proxy_url,
            final(self).shell_started == old(self).shell_started,
            plan.program@ == "/bin/bash"@,
            text::views(plan.args@) == shell_args(text::opt_view(command)),
            command matches Some(c) ==> plan.args@.len() == 2 && plan.args@[0]@ == "-lc"@
                && plan.args@[1]@ == c@,
            command is None ==> plan.args@.len() == 1 && plan.args@[0]@ == "-i"@,
            text::opt_view(plan.workdir) == text::opt_view(old(self).workdir),
            plan.pre_exec@ == pre_exec_plan(old(self).netns_fd),
            match old(self).pty_request {
                Some(p) => {
                    &&& plan.size == size_of_request(
                        p.col_width,
                        p.row_height,
                        p.pixel_width,
                        p.pixel_height,
                    )
                    &&& text::pair_views(plan.env@) == shell_env(p.term@, text::opt_view(old(self).proxy_url))
                },
                None => {
                    &&& plan.size == size_of_request(80, 24, 0, 0)
                    &&& text::pair_views(plan.env@) == shell_env(
                        "xterm-256color"@,
                        text::opt_view(old(self).proxy_url),
                    )
                },
            },
    {
        let pty = match self.pty_request.take() {
            Some(p) => p,
            None => PtyRequest::default(),
        };
        let mut args: Vec<String> = Vec::new();
        assert(text::views(args@) =~= Seq::empty());
        let ghost asked = text::opt_view(command);
        match command {
            Some(c) => {
                args.push("-lc".to_owned());
                args.push(c);
            },
            None => {
                args.push("-i".to_owned());
            },
        }
        assert(text::views(args@) =~= shell_args(asked));
        ShellPlan {
            size: window_size(pty.col_width, pty.row_height, pty.pixel_width, pty.pixel_height),
            program: "/bin/bash",
            args,
            env: shell_env_pairs(pty.term.as_str(), &self.proxy_url),
            workdir: text::copy_option(&self.workdir),
            pre_exec: pre_exec_steps(self.netns_fd),
        }
    }

    /// Notes that the shell runs.
    pub fn started(&mut self)
        ensures
            final(self).shell_started,
            final(self).pty_request == old(self).pty_request,
            final(self).workdir == old(self).workdir,
            final(self).netns_fd == old(self).netns_fd,
            final(self).proxy_url == old(self).proxy_url,
    {
        self.shell_started = true;
    }
}

/// The command in the text of an exec request. `None`: the request is empty.
pub fn command_in(request: &str) -> (r: Option<String>)
    ensures
        r is None <==> text::blank(request@),
        r matches Some(c) ==> c@ == text::trimmed(request@),
{
    let command = text::trim(request);
    proof {
        text::lemma_trimmed_empty(request@);
    }
    if command.as_str().is_empty() {
        None
    } else {
        Some(command)
    }
}

/// The command in the bytes of an exec request.
pub fn exec_request(data: &[u8]) -> (r: Option<String>)
    ensures
        r is None <==> text::blank(text::lossy_text(data@)),
        r matches Some(c) ==> c@ == text::trimmed(text::lossy_text(data@)),
{
    let request = text::utf8_lossy(data);
    command_in(request.as_str())
}

// ---------------------------------------------------------------------------
// The end of a channel
// ---------------------------------------------------------------------------

/// Something to send on the channel of a shell.
#[derive(Debug, Clone, Copy, PartialEq, Eq, Structural)]
pub enum ChannelMessage {
    Eof,
    ExitStatus(u32),
    Close,
}

/// How far the end of a shell has got.
#[derive(Debug)]
pub struct ShellEnd {
    output_done: bool,
    exit_code: Option<u32>,
}

/// The exit code to report: 1 where the process has none, and never a negative one.
pub open spec fn reported_code(status: Option<i32>) -> u32 {
    match status {
        Some(c) => (if c < 0 {
            -(c as int)
        } else {
            c as int
        }) as u32,
        None => 1,
    }
}

/// The exit code to report.
pub fn exit_code_of(status: Option<i32>) -> (code: u32)
    ensures
        code == reported_code(status),
{
    match status {
        Some(c) => if c == i32::MIN {
            0x8000_0000
        } else if c < 0 {
            (-c) as u32
        } else {
            c as u32
        },
        None => 1,
    }
}

/// What is sent when all output has been forwarded.
pub open spec fn output_messages(exit_code: Option<u32>) -> Seq<ChannelMessage> {
    match exit_code {
        Some(code) => seq![
            ChannelMessage::Eof,
            ChannelMessage::ExitStatus(code),
            ChannelMessage::Close,
        ],
        None => seq![ChannelMessage::Eof],
    }
}

/// What is sent when the process has ended: nothing while there may be output to forward.
pub open spec fn exit_messages(output_done: bool, code: u32) -> Seq<ChannelMessage> {
    if output_done {
        seq![ChannelMessage::ExitStatus(code), ChannelMessage::Close]
    } else {
        Seq::empty()
    }
}

impl ShellEnd {
    /// Whether all output has been forwarded.
    pub closed spec fn all_forwarded(self) -> bool {
        self.output_done
    }

    /// The exit code, once the process has ended.
    pub closed spec fn code(self) -> Option<u32> {
        self.exit_code
    }

    /// A running shell.
    pub fn new() -> (e: ShellEnd)
        ensures
            !e.all_forwarded(),
            e.code() is None,
    {
        ShellEnd { output_done: false, exit_code: None }
    }

    /// All output has been forwarded. What to send now.
    pub fn output_finished(&mut self) -> (v: Vec<ChannelMessage>)
        ensures
            final(self).all_forwarded(),
            final(self).code() == old(self).code(),
            v@ == output_messages(old(self).code()),
    {
        self.output_done = true;
        let mut v: Vec<ChannelMessage> = Vec::new();
        v.push(ChannelMessage::Eof);
        if let Some(code) = self.exit_code {
            v.push(ChannelMessage::ExitStatus(code));
            v.push(ChannelMessage::Close);
        }
        assert(v@ =~= output_messages(old(self).exit_code));
        v
    }

    /// The process has ended. What to send now.
    pub fn child_exited(&mut self, status: Option<i32>) -> (v: Vec<ChannelMessage>)
        ensures
            final(self).all_forwarded() == old(self).all_forwarded(),
            final(self).code() == Some(reported_code(status)),
            v@ == exit_messages(old(self).all_forwarded(), reported_code(status)),
    {
        let code = exit_code_of(status);
        self.exit_code = Some(code);
        let mut v: Vec<ChannelMessage> = Vec::new();
        if self.output_done {
            v.push(ChannelMessage::ExitStatus(code));
            v.push(ChannelMessage::Close);
        }
        assert(v@ =~= exit_messages(old(self).output_done, code));
        v
    }
}

/// Whichever of its two last events comes first, a shell sends the end of its output, its exit
/// status and the close of the channel, in this order and nothing else.
pub proof fn law_channel_end_order(code: u32)
    ensures
        output_messages(None) + exit_messages(true, code) == seq![
            ChannelMessage::Eof,
            ChannelMessage::ExitStatus(code),
            ChannelMessage::Close,
        ],
        exit_messages(false, code) + output_messages(Some(code)) == seq![
            ChannelMessage::Eof,
            ChannelMessage::ExitStatus(code),
            ChannelMessage::Close,
        ],
{
    let all = seq![
        ChannelMessage::Eof,
        ChannelMessage::ExitStatus(code),
        ChannelMessage::Close,
    ];
    assert(output_messages(None) + exit_messages(true, code) =~= all);
    assert(exit_messages(false, code) + output_messages(Some(code)) =~= all);
}

// ---------------------------------------------------------------------------
// Laws
// ---------------------------------------------------------------------------

/// A terminal has the size that was asked for, each dimension by itself, as far as 16 bits hold it:
/// a larger one becomes the largest, and no rows or no columns become one.
pub proof fn law_window_has_the_size_asked_for(cols: u32, rows: u32, xpixel: u32, ypixel: u32)
    ensures
        ({
            let size = size_of_request(cols, rows, xpixel, ypixel);
            &&& 1 <= rows <= 65535 ==> size.ws_row == rows
            &&& 1 <= cols <= 65535 ==> size.ws_col == cols
            &&& xpixel <= 65535 ==> size.ws_xpixel == xpixel
            &&& ypixel <= 65535 ==> size.ws_ypixel == ypixel
            &&& rows > 65535 ==> size.ws_row == 65535
            &&& cols > 65535 ==> size.ws_col == 65535
            &&& xpixel > 65535 ==> size.ws_xpixel == 65535
            &&& ypixel > 65535 ==> size.ws_ypixel == 65535
            &&& rows == 0 ==> size.ws_row == 1
            &&& cols == 0 ==> size.ws_col == 1
        }),
        xpixel <= 65535 ==> clamped(xpixel) == xpixel,
        xpixel > 65535 ==> clamped(xpixel) == 65535,
{
}

/// The place of a step in the order between fork and exec.
pub open spec fn pre_exec_rank(step: PreExecStep) -> int {
    match step {
        PreExecStep::NewSession => 0,
        PreExecStep::ControllingTerminal => 1,
        PreExecStep::EnterNetworkNamespace(_) => 2,
        PreExecStep::DropPrivileges => 3,
        PreExecStep::ApplySandbox => 4,
    }
}

/// Between fork and exec every step is taken, once and in its order; a namespace is entered exactly
/// if there is one, and it is that one.
pub proof fn law_pre_exec_takes_every_step(netns_fd: Option<i32>, fd: i32)
    ensures
        ({
            let plan = pre_exec_plan(netns_fd);
            &&& plan.contains(PreExecStep::NewSession)
            &&& plan.contains(PreExecStep::ControllingTerminal)
            &&& plan.contains(PreExecStep::EnterNetworkNamespace(fd)) <==> netns_fd == Some(fd)
            &&& plan.contains(PreExecStep::DropPrivileges)
            &&& plan.contains(PreExecStep::ApplySandbox)
            &&& forall|i: int, j: int|
                0 <= i < j < plan.len() ==> pre_exec_rank(#[trigger] plan[i]) < pre_exec_rank(
                    #[trigger] plan[j],
                )
        }),
{
    let p = pre_exec_plan(netns_fd);
    assert(p[0] == PreExecStep::NewSession);
    assert(p[1] == PreExecStep::ControllingTerminal);
    if netns_fd is Some {
        assert(p[2] == PreExecStep::EnterNetworkNamespace(netns_fd->0));
    }
    assert(p[p.len() - 2] == PreExecStep::DropPrivileges);
    assert(p[p.len() - 1] == PreExecStep::ApplySandbox);
}

/// A shell that runs a command gets the whole command line as one argument, character for
/// character, after the one that says so. One without a command is interactive.
pub proof fn law_command_line_is_handed_over_whole(command: Seq<char>, other: Seq<char>)
    ensures
        shell_args(Some(command)).len() == 2,
        shell_args(Some(command))[0] == "-lc"@,
        shell_args(Some(command))[1] == command,
        shell_args(Some(command)) == shell_args(Some(other)) ==> command == other,
        shell_args(None).len() == 1,
        shell_args(None)[0] == "-i"@,
{
}

/// A shell knows that it is in a sandbox, whose it is and where its home is, and has the terminal
/// type that the client asked for, or the usual one if that is empty.
pub proof fn law_shell_knows_where_it_is(term: Seq<char>, proxy_url: Option<Seq<char>>)
    ensures
        ({
            let env = shell_env(term, proxy_url);
            &&& env.len() >= 4
            &&& env[0] == ("NAVIGATOR_SANDBOX"@, "1"@)
            &&& env[1] == ("HOME"@, "/sandbox"@)
            &&& env[2] == ("USER"@, "sandbox"@)
            &&& env[3].0 == "TERM"@
            &&& term.len() > 0 ==> env[3].1 == term
            &&& term.len() == 0 ==> env[3].1 == "xterm-256color"@
        }),
{
}

/// A shell that is told of a proxy is told under all the names that tools look for, with one and
/// the same URL; one without a proxy is told under none.
pub proof fn law_every_tool_finds_the_proxy(term: Seq<char>, url: Seq<char>)
    ensures
        shell_env(term, None).len() == 4,
        shell_env(term, Some(url)).len() == 10,
        shell_env(term, Some(url)).take(4) == shell_env(term, None),
        forall|i: int| 4 <= i < 10 ==> (#[trigger] shell_env(term, Some(url))[i]).1 == url,
        shell_env(term, Some(url)).contains(("HTTP_PROXY"@, url)),
        shell_env(term, Some(url)).contains(("HTTPS_PROXY"@, url)),
        shell_env(term, Some(url)).contains(("ALL_PROXY"@, url)),
        shell_env(term, Some(url)).contains(("http_proxy"@, url)),
        shell_env(term, Some(url)).contains(("https_proxy"@, url)),
        shell_env(term, Some(url)).contains(("grpc_proxy"@, url)),
{
    let env = shell_env(term, Some(url));
    assert(env.take(4) =~= shell_env(term, None));
    assert(env[4] == ("HTTP_PROXY"@, url));
    assert(env[5] == ("HTTPS_PROXY"@, url));
    assert(env[6] == ("ALL_PROXY"@, url));
    assert(env[7] == ("http_proxy"@, url));
    assert(env[8] == ("https_proxy"@, url));
    assert(env[9] == ("grpc_proxy"@, url));
}

/// The exit code that a client is told is that of the process, without its sign; one that has none
/// counts as failed.
pub proof fn law_exit_code_is_reported(code: i32)
    ensures
        code >= 0 ==> reported_code(Some(code)) == code,
        code < 0 ==> reported_code(Some(code)) == -code,
        reported_code(None) == 1,
{
}

/// The exit status and the close wait for both events, and the end of the output waits for the
/// output alone: a process that ends first sends nothing, and output that ends first sends its end.
pub proof fn law_close_waits_for_both(code: u32, status: u32)
    ensures
        exit_messages(false, code).len() == 0,
        output_messages(None) == seq![ChannelMessage::Eof],
        !output_messages(None).contains(ChannelMessage::ExitStatus(status)),
        exit_messages(true, code).last() == ChannelMessage::Close,
        output_messages(Some(code)).last() == ChannelMessage::Close,
{
}

} // verus!
