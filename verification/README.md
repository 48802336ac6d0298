# inf_server

The decision core of a database server cell, verified with Verus: what a
durable cell, its checkpoints, its control plane and its administrative
commands do with plain values. Devices, threads, clocks and files stay
outside; they perform the operations the library asks for and hand back what
came of them.

- `src/config.rs`, `src/clients.rs`, `src/glob.rs`: the configuration table,
  the client registry, and the patterns both are searched with.
- `src/admin/`: `CONFIG`, `CLIENT`, `HELLO`, `DEBUG`, `COMMAND`, `INFO` and
  `INF.NS`, each as a function from arguments and facts to reply bytes.
- `src/namespace.rs`, `src/control/`: declared namespaces, the catalog writer,
  the shared boards and the boot narration.
- `src/durability.rs`: mutation records, their staging and reservations.
- `src/durable/`, `src/ckpt/`: a durable cell's log, checkpoint and manifest
  state machines; `src/durable/fill.rs` fills an image section by section.
- `src/checkpoint/`: checkpoint images: snapshots, publication and loading.
- `src/data_dir_lock.rs`: the data directory's owner lock.
- `src/text.rs`, `src/varint.rs`, `src/lsn.rs`: text, length prefixes and log
  positions.

Properties that span several functions stand as `law_*` proof functions beside
the types they speak of. `app/` is the process around the library; `tests/`
runs the library on concrete values.
