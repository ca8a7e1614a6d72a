# raytracer

A ray tracer that renders a JSON scene of spheres, triangles, convex polygons
and point lights, on the CPU or on a GPU through wgpu, to a PNG image or to a
sequence of animation frames.

- `src/` is the verified library: command-line options, backend selection,
  the pixel grid, the sampling schedule, the jitter hash, polygon
  triangulation, which scene items fill the GPU's storage buffers and the
  counts the shader is given, and the assembly of the output image,
  each with its contract and the laws that tie them together.
- `app/` is the program around it: reading and writing files, the
  floating-point geometry and shading of both renderers, the byte layout of
  the GPU structures and the WGSL shader, and the wgpu device.
- `tests/` runs the library on concrete inputs.
