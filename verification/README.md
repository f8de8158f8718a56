# neoarch_installer

The NeoArch installer, as a library whose planning logic is verified with
Verus, and a thin program around it.

- `src/text.rs`: character-level string helpers (prefixes, search, fields,
  trimming, decimal notation, joining), each with an exact specification.
- `src/partitioner.rs`: filesystems, block devices, partition plans, the
  commands that carry out a plan, the disk choice and the simple
  partitioning dialog.
- `src/manual.rs`: reading a hand-made layout back from the tree of mounts
  under `/mnt`.
- `src/installer.rs`: the installation commands and the password steps.
- `src/ui.rs`: the arguments of each `dialog(1)` box and how its answer is
  read.
- `src/flow.rs`: the decisions of the main dialog.
- `src/error.rs`, `src/outside.rs`: the errors, and the foreign types they
  carry.
- `app/`: the program: runs `dialog`, `lsblk`, `findmnt`, the shell and the
  installation commands, and reads the JSON documents.
