//! Decisions of a progressive path tracer: which hit along a ray is the
//! nearest, what the integrator does with a ray at each depth, and how a
//! session folds successive frames into a running average.
/// The integrator's step: dark at the depth floor, background on a miss,
/// a bounce on a hit.
pub mod integrator;
/// Choice of the nearest hit among the candidates along one ray.
pub mod resolve;
/// Frame counting, accumulation plans, camera movement and pointer clicks.
pub mod session;
