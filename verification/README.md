# lanzaboote

The logic of a Secure Boot stub for Linux and of the tool that installs it,
written and verified with Verus.

## Layout

- `src/` is the verified library.
  - Kernel images: `unified_sections`, `pe`, `measure`.
  - Drop-in files of the boot partition: `dropin_paths`, `companions`,
    `discovery`, `addons`, `cmdline`, `ucs2`, `stub`.
  - The platform: `smbios`, `vmm`, `random_seed`.
  - `.pcrlock` files: `pcrlock`, `lock`, `lock_run`, `gc`, `json`, `cli`.
  - Shared parts: `bytes`, `text`, `path`, `digest`, `status`.
  - The modules whose names end in `_laws` state what holds across functions.
- `app/` is ordinary Rust around it: it talks to the firmware and to the
  operating system.
- `tests/` holds the tests of the library.

## How the library talks to the outside

Where work on the outside and decisions alternate, the library offers a state
machine. Its `request` says what has to be done next, and its `advance` takes
in the outcome. The contracts of both are stated over a model of the state, and
the laws speak of every sequence of outcomes.

Calls into other crates that only compute stand in `src/`, each behind one
function whose contract is believed: parsing of PE binaries (`goblin`), JSON
(`serde_json`), SHA-256 (`sha2`) and UCS-2 strings (`uefi`).
