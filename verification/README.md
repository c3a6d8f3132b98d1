# melonink

Scanline kernels of a Nintendo DS software renderer — the 2D engine's
backgrounds, sprites, compositing and capture, the 3D engine's texture
sampling, pixel shading, span rasterization and final pass — together with
the decision logic of a headless libretro benchmark harness, written in
Verus. Each kernel's contract states, pixel by pixel, what it returns or
writes; the harness logic (stream hashes, input schedule, option and suite
configuration parsing, the hash-equivalence gate and suite verdict, the RAM
determinism mask, and profile symbolization: reading `nm` and profile lines,
finding the enclosing symbol, the per-name sample tally and the hottest
names) is verified the same way. The texture sampler and the pixel shader
each also have a second, independent reading (`texture_model`,
`renderpixel_model`), proved to agree with the first.

Layout:

- `src/` — the verified library, one module per kernel family or harness
  concern (`lib.rs` lists them).
- `tests/` — tests of the library on concrete inputs.
- `app/` — the program around it: the C ABI entry points the emulator core
  calls (`ffi.rs`), the AVX2 compositor (`simd.rs`), and the `melonbench`
  harness (Win32 loading, libretro callbacks, the sampling profiler, timing,
  reports, and the `suite`, `symbolize` and `ramverify` subcommands).
