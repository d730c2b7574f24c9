# yumi

yumi is a CPU scheduling daemon for Android: it watches the foreground app,
the screen, per-core CPU load and frame intervals (the last two through eBPF
probes), and drives the cpufreq limits of each CPU cluster, either with a
load governor or, for games, with a frame-aware controller.

## Layout

- `src/` — the library, written in Verus and verified:
  - `daemon` — the scheduler's event loop as a state machine: for each event,
    the next state and the actions to take, with its invariants;
  - `freq` — cpufreq tables, sysfs frequency encoding, the order of limit
    writes, frequency verification and write de-duplication;
  - `cpu_load` — CPU time accounting on the monitor side, from the
    counters that the scheduler probe keeps;
  - `sched_probe` — a model of the accounting that the `sched_switch` eBPF
    program performs, verified as Rust; the program that runs is the
    prebuilt object `core/bin/bpf_probe.o`, built separately from its own
    source, and nothing here ties that object to the model;
  - `frame` — frame interval tracking from the frame probe's records (the
    record layout, `frame_event`, is likewise a model of what the probe
    submits);
  - `foreground` — which app is in front and when its mode is reported;
  - `screen` — screen state from kernel uevents and backlight nodes;
  - `i18n` — translated log messages (Fluent);
  - `config`, `paths`, `text`, `release` — configuration records and
    decisions, paths, text handling, and version bumps for releases.
- `tests/` — tests of the library.
- `app/` — the daemon around the library: file and device I/O, threads,
  the eBPF loading, the floating-point controllers, and the build tool.
