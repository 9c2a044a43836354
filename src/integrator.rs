use vstd::prelude::*;

verus! {

/// Secondary rays drawn at every bounce, and camera rays drawn per pixel.
pub const SAMPLES_PER_BOUNCE: usize = 2;

/// Recursion depth given to every camera ray.
pub const BOUNCES: usize = 5;

/// Selects the sky-gradient background instead of the constant dark one.
pub const DAY: bool = false;

/// What the integrator does with a ray at a given remaining depth.
#[derive(Clone, Copy, Debug, PartialEq, Eq, Structural)]
pub enum TraceStep {
    /// The depth is used up: the ray carries zero radiance.
    Dark,
    /// The ray hits nothing: it carries the background radiance.
    Background,
    /// The ray hits `object`: emit its light and gather `samples` secondary
    /// rays, each traced with `next_depth`.
    Bounce { object: usize, samples: usize, next_depth: usize },
}

/// The decision the integrator makes for a ray, given its remaining depth and
/// the index of the nearest object it hits, if any.
pub open spec fn step_of(depth: nat, nearest: Option<usize>) -> TraceStep {
    if depth == 0 {
        TraceStep::Dark
    } else {
        match nearest {
            None => TraceStep::Background,
            Some(i) => TraceStep::Bounce {
                object: i,
                samples: SAMPLES_PER_BOUNCE,
                next_depth: (depth - 1) as usize,
            },
        }
    }
}

/// Decides how a ray is integrated. With no depth left the ray is dark,
/// whatever the scene holds; a ray that hits nothing sees the background;
/// a ray that hits an object bounces with one level less.
pub fn trace_step(depth: usize, nearest: Option<usize>) -> (r: TraceStep)
    ensures
        r == step_of(depth as nat, nearest),
        depth == 0 ==> r == TraceStep::Dark,
        depth > 0 && nearest is None ==> r == TraceStep::Background,
{
    if depth == 0 {
        return TraceStep::Dark;
    }
    match nearest {
        None => TraceStep::Background,
        Some(i) => TraceStep::Bounce { object: i, samples: SAMPLES_PER_BOUNCE, next_depth: depth - 1 },
    }
}

/// A ray with no depth left is dark whatever the scene holds, and a ray with
/// depth left that hits nothing sees the background.
pub proof fn lemma_floor_and_miss(depth: nat, nearest: Option<usize>)
    ensures
        depth == 0 ==> step_of(depth, nearest) == TraceStep::Dark,
        depth > 0 ==> (step_of(depth, nearest) == TraceStep::Background <==> nearest is None),
{
}

/// Number of paths that reach the depth floor from a ray at `depth` when
/// every ray it spawns hits an object.
pub open spec fn leaf_paths(depth: nat) -> nat
    decreases depth,
{
    match step_of(depth, Some(0)) {
        TraceStep::Bounce { samples, next_depth, .. } => if next_depth < depth {
            samples as nat * leaf_paths(next_depth as nat)
        } else {
            0
        },
        _ => 1,
    }
}

/// `SAMPLES_PER_BOUNCE` raised to `n`.
pub open spec fn samples_pow(n: nat) -> nat
    decreases n,
{
    if n == 0 {
        1
    } else {
        SAMPLES_PER_BOUNCE as nat * samples_pow((n - 1) as nat)
    }
}

/// Every bounce multiplies the paths by the samples it draws: a ray traced
/// with `depth` levels ends in `SAMPLES_PER_BOUNCE ^ depth` paths when every
/// ray hits.
pub proof fn lemma_leaf_paths(depth: nat)
    requires
        depth <= usize::MAX,
    ensures
        leaf_paths(depth) == samples_pow(depth),
    decreases depth,
{
    if depth > 0 {
        lemma_leaf_paths((depth - 1) as nat);
        assert(step_of(depth, Some(0)) == TraceStep::Bounce {
            object: 0,
            samples: SAMPLES_PER_BOUNCE,
            next_depth: (depth - 1) as usize,
        });
    }
}

/// A camera ray traced with the full depth ends in 32 paths when every ray
/// hits.
pub proof fn lemma_branching_factor()
    ensures
        leaf_paths(BOUNCES as nat) == 32,
{
    lemma_leaf_paths(BOUNCES as nat);
    reveal_with_fuel(samples_pow, 6);
}

} // verus!
