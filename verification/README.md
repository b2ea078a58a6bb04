# vm_foundry

The verified core of VM Foundry, a terminal UI for managing desktop QEMU/KVM
virtual machines. The library (`src/`) is written in Verus; every function
carries a contract, and Verus proves all of them except those of three
trusted wrappers around outside code: building a `String` from characters
(std `collect`), the display width of a text (`unicode-width`), and
`Path::strip_prefix` (std). Their contracts are taken on trust.

- `text`: character-level specifications and functions: Unicode whitespace,
  trimming, `lines`-style splitting, prefixes, searching, decimal numbers.
- `qemu_system`: decisions about the host taken from what probes returned:
  available emulators, the bridge helper, the host's bridges, which bridges
  `bridge.conf` allows, display backends, the KVM module, bridge classes.
- `create_wizard`: sizes typed with a unit suffix, and the auto-launch default.
- `management`: the management workspace: categories, action rows with their
  values, the overview summary, and moving the selection.
- `layout`, `main_menu`: dialog geometry and the title bar fitted to the terminal.

`app/` holds the program: it runs the probes (processes, files), draws the
screens with ratatui and hands plain values to the library.
