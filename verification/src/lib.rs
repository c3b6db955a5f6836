//! Verified planning logic of a compute-shader ray tracer: how a frame is
//! split into workgroups, how the rendered texture is laid out when it is
//! copied back from the GPU, how the storage for the sphere list grows, and
//! how the copied-back rows are turned into an RGBA image.

pub mod dispatch;
pub mod output;
pub mod spheres;
