# raytracer

A compute-shader ray tracer built on `wgpu`. The library under `src/` holds the
planning logic, verified with Verus:

- `dispatch`: workgroup counts of a frame, the 256-byte aligned row pitch of the
  texture copy-back and the size of the buffer that receives it;
- `spheres`: when the GPU storage for the sphere list must grow, and to what
  (the next power of two of the sphere count);
- `output`: placing the read-back channels into an RGBA image of the `image` crate.

`app/` is the program around it: GPU setup and passes, the camera and spheres
(floating point), reading the shader and saving the image.
