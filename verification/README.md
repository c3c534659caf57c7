# ternvale

The verified core of a virtual machine monitor for Apple Silicon: virtio-mmio transport,
split virtqueues, virtio-blk, PL011 serial port, VM configuration, log naming, and the
bookkeeping around Hypervisor.framework.

- `src/` is the library. Verus proves the contract of every function in it, except for a few
  wrappers around calls that it cannot see into: `is_file`, `is_dir` and `parent` (paths on the
  host), `local_stamp` (the clock), and `try_filter` (the log filter parser). Their doc comments say
  what is taken on trust, as do those of the `std` functions with an assumed specification.
  `parent_of` and `filter_refusal` are names for what two of these calls return. What holds across
  functions is stated by the public `law_*` proof functions.
- `tests/` runs the library on concrete inputs.
- `app/` is the host side: files, threads, TOML, `tracing`, and the framework calls. It asks the
  library what to do, does it, and hands back what came of it.

| Module | What it holds |
| --- | --- |
| `memory` | Guest memory as a map from address to byte |
| `virtio::queue` | Descriptor chains, available and used rings |
| `virtio::mmio` | Register file and status handshake |
| `virtio::irq` | Interrupt status line |
| `virtio::blk` | Requests, image geometry, and the I/O side as steps and whole kicks |
| `uart` | PL011 registers, transmitted lines |
| `hv` | Error codes, create order, macOS version, GIC calls, vCPU registers |
| `config` | VM description and its checks |
| `log` | Logger settings, file names, filter directives, records of framework calls |
| `expect`, `boot` | Scripted sessions over a serial transcript |
| `text`, `bytes`, `arith` | Decimal and hexadecimal text, little-endian bytes, powers of two |
