# hyperlight_agents

Agents that run in Hyperlight sandboxes, reachable over MCP, that can create Firecracker
virtual machines and run commands in them.

- `src/` is the verified library (Verus): the registries of agents, requests and machines,
  the framing of tool calls, the agents' event-loop decisions, the HTTP front (routes, LSP
  dialect, JSON answers), the machine agent's process table and connection handling, the
  HTTP proxy rules, log formatting and log-stream splitting, the guest agents' decisions,
  the Firecracker configuration, and the build tool's paths and checks.
- `tests/` exercises the library.
- `app/` holds the programs around it: the host (sandboxes, host functions, HTTP server,
  machine management), the agent inside each machine, and the build tasks
  (`host`, `vm-agent`, `xtask <task>`).
