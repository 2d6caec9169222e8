# starknet_syscalls

The handler of the syscalls that a StarkNet contract makes while it runs on the Cairo virtual
machine, written and proved in Verus.

- `src/business_logic_syscall_handler.rs`: the handler. Each syscall states what it reads from the
  machine's memory, what it returns or why it fails, and what it leaves as it was.
- `src/laws.rs`: what holds beyond a single call: storage gives back what was written, events and
  messages are numbered without a gap, the syscall pointer adds up, allocated data reads back, and
  the check after a run passes exactly if the read-only segments kept their sizes.
- `src/machine.rs`: the virtual machine's memory as a mathematical state, and the calls into
  `cairo_vm` whose contracts are taken on trust. They are the functions named `vm_...`.
- `src/syscall_info.rs`, `src/syscall_request.rs`: the syscalls and the layout of their requests.
- `src/felt.rs`, `src/relocatable.rs`, `src/objects.rs`, `src/config.rs`, `src/resources.rs`,
  `src/state.rs`, `src/errors.rs`: the values that the handler works on.
- `app/`: runs the calls and deployments that the handler prepares.
- `tests/`: runs the handler on real machines.
