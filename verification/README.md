# hikari

The verified core of the Hikari rendering engine, written in Verus.

- `src/` is the library. Every function in it is checked by Verus against
  its `requires`/`ensures` contract: the bit-mask helpers, the index-linked
  list and the frame-aged map built on it, the bounded pipeline cache, typed
  resource storage, bindless index allocation, render-graph validation,
  barrier and render-pass planning, descriptor and pipeline state tracking
  while recording commands, device/format/swapchain selection, frames in
  flight, deferred deletion and system scheduling. Properties that span
  several calls are stated as public proof functions next to the code they
  are about.
- `tests/` runs the library on concrete values.
- `app/` is ordinary Rust around the library: file-system lookups, error
  types with their messages, thread-safe wrappers, state cells, running a
  built schedule and logging validation messages.

Calls into outside crates (`lru`, `fxhash`, parts of `std`) sit behind small
trusted wrappers whose doc comments say what is assumed of them.
