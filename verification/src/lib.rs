//! Verified core of a particle-suspension simulation: the `.npy` output
//! format, the GPU stage schedule, particle-placement bookkeeping and the
//! names of the files a run writes.

pub mod text;
pub mod numpy;
pub mod gpu;
pub mod params;
pub mod files;
