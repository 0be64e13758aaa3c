# OpenShell

The decision logic of the OpenShell gateway, its sandbox supervisor and its log viewer, verified
with [Verus](https://github.com/verus-lang/verus).

Nothing in the library talks to a socket, a process or a terminal. Where an operation has to wait
for the outside, it is cut into steps: a step says what to do next, and takes what was found.

| Module | What it decides |
|--------|-----------------|
| `proxy`, `connect` | what a CONNECT request asks for, whether it is allowed, what is answered and logged |
| `ssh`, `session` | the handshake before SSH, the shells of a session, the end of a channel |
| `sandbox` | where a policy comes from, who owns directories, network isolation, the order of a start |
| `runtime`, `container_logs` | waiting for the gateway's container, maintenance commands, log lines |
| `backend`, `json` | what goes out to an inference backend, and what comes back |
| `inference`, `cluster`, `cluster_laws` | the managed inference route: setting it, reading it, resolving it |
| `sandbox_logs`, `log_pane` | log lines on the screen |
| `text`, `number`, `string_map`, `clock` | strings, numbers, maps and the clock |

Functions named `law_...` state what holds over several operations.

`app/` is the I/O around the library: Docker, HTTP, TCP, SSH, processes and the terminal.
