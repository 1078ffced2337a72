# Thorium reactor

The Thorium reactor is a daemon that runs on a node. It polls the Thorium API for the desired
state of the node, and spawns and shuts down workers to match: directly on the host, or in
virtual machines through libvirt.

- `src/` is the library, written in [Verus](https://github.com/verus-lang/verus). It holds what
  the reactor decides and computes: which workers to spawn, launch, check, shut down and delete,
  the states of a worker in a virtual machine, the commands for the QEMU guest agent and the
  reading of its answers, golden XML definitions, the detection of guest operating systems, the
  paths of a job, the task queue, updates, and the process trees that Volatility 3 writes.
  Each function states what it returns for what it is given, and Verus proves it. Functions that
  read the clock or draw a random number hand what they got to one that is given it.
- `tests/` runs the library on concrete values.
- `app/` is the program around the library: arguments, files, processes, threads, libvirt and
  the API. It needs libvirt's headers, and the client crate `thorium` that comes with the API.

## How the parts meet

The library never reads a file and never waits. Where the reactor alternates between work
outside and decisions, the library says what to do next and takes in what came of it:

| what | in the library | what the program does |
| --- | --- | --- |
| the loop of the daemon | `reactor::Phase` | a phase |
| updating agents and the reactor | `reactor::UpdateStep` | runs the agent, downloads |
| creating a domain | `creation::Creation` | looks for files, runs `qemu-img`, asks libvirt |
| launching an agent | `state::created::Launch` | reads files, sends guest agent commands |
| removing a domain | `state::defined::undefine_next` | asks libvirt |
| detecting a guest's OS | `os_detector::Inspection` | reads from the disk image |
| reconciling with the API | `reconcile::Reconciliation`, `kvm::Kvm` | lists domains, asks agents |

## What is believed without proof

Calls into other crates stand behind small functions whose contracts are believed:
`encoding` (UTF-8, letter case, `base64`), `json` (`serde_json`), `version` (`semver`),
`time` (`chrono`, `rand`), `args` (`gethostname`), `reconcile` (`http`), `bare_metal` (`rustix`),
`proc_reader` (`chrono`, `sigma-rust`), and `text` (`String::push` and `String::push_str`). The
comment above each of them says what is claimed.
