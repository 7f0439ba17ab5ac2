# clerestory

A hardware-adaptive planner for Windows 11 KVM guests on Linux hosts. It reads
what sysfs and procfs report about the host (CPU topology, L3 cache domains,
SMT siblings, NUMA nodes, hugepages, storage and firmware prerequisites),
pins vCPUs to cache domains, and synthesizes a libvirt domain XML and a
standalone QEMU runner script.

Layout:

- `src/` — the library, written and proved with Verus: parsers for the kernel's
  attribute formats, the topology builder, the pinning optimizer, the tuners,
  the XML and script synthesizers, the command planning and the TUI state machine.
  Every public function carries a contract; the `law_*` proof functions state
  properties that span calls.
- `app/` — the command-line program around the library: argument parsing,
  reading the host's files, terminal output, JSON, the interactive views and
  writing files.
- `tests/` — tests of the library on concrete hosts and configurations.
