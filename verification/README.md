# particle_sim

A simulation of elongated particles suspended in a fluid under external
magnetic and electric fields, stepped on the GPU with Metal.

- `src/` is the verified library:
  - `numpy`: the `.npy` writer (header text, framing, padding, element bytes);
  - `gpu`: the schedule of GPU work (stage order of a step, kernels, buffer
    bindings, launch sizes,
    buffer and image sizes);
  - `params`: seed choice and the bookkeeping of particle placement;
  - `files`: names of frame images and log directories;
  - `text`: decimal rendering and zero padding.
- `app/` is the program around it: floating-point physics, Metal calls,
  image drawing, file I/O and the main loop.
- `tests/` runs the library on concrete values.

The program reads the compiled shader library from `shaders.metallib` in the
working directory and the simulation configurations from `configs/*.json`.
