//! The exact, integer-valued core of a Monte Carlo path tracer: the shape of
//! the bounding volume hierarchy, the texture image store with its lookup and
//! file search order, the Perlin lattice hash, random index draws, the
//! stratified-sampling grid and the text encodings of rendered images. The
//! floating-point geometry, materials and estimator are built on top of it.
pub mod bvh;
pub mod image;
pub mod perlin;
pub mod ppm;
pub mod random;
pub mod sampling;
pub mod swaps;
pub mod texture;
