# Pulse

A terminal system monitor: CPU, memory, disks, networks, processes, GPUs,
fans, containers and remote hosts, with themes, layouts, history views and
alerts.

The crate is split in two.

- `src/` is the library, written in Verus and verified. It holds the
  monitor's state machine (keys, ticks, filter, alert log), the history
  ring buffers, the parsers of the kernel's text interfaces
  (`/proc/meminfo`, `/proc/diskstats`, `/proc/net/tcp*`,
  `/proc/<pid>/status` and `stat`, `/etc/passwd`, hwmon and laptop fan
  files, `nvidia-smi` CSV), the fan, container and connection logic, the
  screen layout and panel placement, and the text formats. Each public
  function states its result in its contract; the laws that relate
  several functions are public proof functions.
- `app/` is the program around it: terminal setup, the event loop,
  collection through `sysinfo` and the file system, rendering with
  `ratatui`, the SSH client and the headless server, plugins, and the
  floating-point readings, which the library does not hold.

`tests/` runs the library on concrete inputs.
