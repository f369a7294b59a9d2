# k4refresh

Refresh policy for the legacy e-ink frame buffer of the Kindle 4, verified with
[Verus](https://github.com/verus-lang/verus), with a C interface and a command
line program around it.

The driver of this device has four update effects and nothing else to choose a
refresh mode by. In fast mode, page turns use the fast effect and every N-th one
the slow effect, which flashes and clears the ghosting; in conservative mode, page
turns use the partial effect. An explicit full refresh is always slow.

## Layout

- `src/` is the library. It makes no call to the device: an operation says what to
  ask of the driver and takes the reply.
  - `fx.rs`: effects, the policy, clipping of rectangles
  - `eink.rs`: the driver's requests and structures
  - `session.rs`: the state, and the course of a refresh or a flash
  - `abi.rs`: the decisions of the C interface
  - `bench.rs`: the benchmark's schedule, test pattern and table
  - `cli.rs`: the command line
  - `text.rs`: lists, white space and decimal numbers
- `app/` makes the calls: `device.rs` (ioctl), `engine.rs` (the process's state),
  `ffi.rs` (the C functions) and `bench.rs`. `main.rs` is the root of the program,
  `lib.rs` that of the shared library.
- `tests/` runs the library.

Each public function states in its contract what it returns or changes. The proof
functions named `law_...` state what holds of several calls together, such as which
page turns of a sequence are slow, that a clipped rectangle is the intersection of
request and screen, or that measurements in a row draw inverse patterns.

Not proved, but taken from the standard library: the text of an error number, which
comes from the operating system, the upper case of a text, and the decoding of bytes
that are no UTF-8.
