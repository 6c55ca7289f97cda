# rist_netsim

Verified core of a Linux network-emulation testbench used to exercise RIST
bonding: links between network namespaces, traffic shaping with `tc`/netem,
time-varying impairment schedules, and metrics export.

The library (`src/`) is written in Verus. Every function there carries a
contract that Verus proves; laws that relate several operations are public
proof functions next to the code they are about.

- `bench_cli` – presets and scenario names of the command-line tool.
- `network_sim` – `ip`/`tc` command plans for veth links, shaped test pairs
  and the container test network; the shaping plan (an HTB root qdisc and
  class at the configured rate with netem below it for delay and loss, or
  netem alone when no rate is set), IFB naming, the reading of `tc -s`
  counters and the meaning of failed runs.
- `netns_testbench` – interface-name rules, veth pair and namespace
  bookkeeping, point-to-point addressing, impairment schedule stepping,
  orchestrator port/link bookkeeping and cellular-profile arguments.
- `observability` – Prometheus and CSV rendering of snapshots, traffic
  counters and snapshot totals, bus message filtering, trace-file lines.
- `integration`, `demos` – the decisions of the end-to-end harness (port
  search, the checks before pipelines start in the link namespaces, the
  bonding verdict) and the text of the bonding demo.
- `text` – character-level helpers (search, whitespace, decimal numbers,
  UTF-8 lengths).

`app/` is the program around it: the command line, running commands,
netlink calls, the tasks that run link schedules (sleeping, drawing Markov
transitions, reading trace files), trace recording and replay, cellular
profiles, timestamps and floating-point rendering.
