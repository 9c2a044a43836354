use vstd::prelude::*;

verus! {

/// The state that lives across frames: the surface size and the number of
/// frames accumulated since the camera or the scene last changed.
#[derive(Clone, Copy, Debug, PartialEq, Eq, Structural)]
pub struct Session {
    pub width: usize,
    pub height: usize,
    pub frames_since_movement: u64,
}

/// What a frame does to every accumulator cell: whether the cell is zeroed
/// first, and the divisor of the incremental mean
/// `cell += (estimate - cell) / divisor`.
#[derive(Clone, Copy, Debug, PartialEq, Eq, Structural)]
pub struct FramePlan {
    pub clear: bool,
    pub divisor: u64,
}

/// The plan of a frame that follows `frames` accumulated frames.
pub open spec fn plan_of(frames: nat) -> FramePlan {
    FramePlan { clear: frames == 0, divisor: (frames + 1) as u64 }
}

impl Session {
    /// The accumulator buffer of this size can be allocated.
    pub open spec fn wf(&self) -> bool {
        self.width * self.height <= usize::MAX
    }

    /// A session on a surface of the given size, with nothing accumulated.
    pub fn new(width: usize, height: usize) -> (r: Session)
        requires
            width * height <= usize::MAX,
        ensures
            r.wf(),
            r.width == width,
            r.height == height,
            r.frames_since_movement == 0,
    {
        Session { width, height, frames_since_movement: 0 }
    }

    /// Number of cells in the row-major accumulator buffer.
    pub fn pixel_count(&self) -> (r: usize)
        requires
            self.wf(),
        ensures
            r == self.width * self.height,
    {
        self.width * self.height
    }

    /// The surface was resized: the accumulated history no longer applies.
    pub fn resize(&mut self, width: usize, height: usize)
        requires
            width * height <= usize::MAX,
        ensures
            final(self).wf(),
            final(self).width == width,
            final(self).height == height,
            final(self).frames_since_movement == 0,
    {
        self.width = width;
        self.height = height;
        self.frames_since_movement = 0;
    }

    /// The camera moved or the scene gained an object: the accumulated
    /// history no longer applies.
    pub fn invalidate(&mut self)
        ensures
            final(self).width == old(self).width,
            final(self).height == old(self).height,
            final(self).frames_since_movement == 0,
    {
        self.frames_since_movement = 0;
    }

    /// How this frame folds its estimates into the accumulator: a frame right
    /// after a change zeroes every cell and writes its estimate whole; the
    /// `n`-th frame after a change weighs its estimate by `1 / n`.
    pub fn frame_plan(&self) -> (r: FramePlan)
        requires
            self.frames_since_movement < u64::MAX,
        ensures
            r == plan_of(self.frames_since_movement as nat),
            r.clear == (self.frames_since_movement == 0),
            r.divisor == self.frames_since_movement + 1,
    {
        FramePlan {
            clear: self.frames_since_movement == 0,
            divisor: self.frames_since_movement + 1,
        }
    }

    /// A frame was accumulated, whether or not it cleared the buffer.
    pub fn finish_frame(&mut self)
        requires
            old(self).frames_since_movement < u64::MAX,
        ensures
            final(self).width == old(self).width,
            final(self).height == old(self).height,
            final(self).frames_since_movement == old(self).frames_since_movement + 1,
    {
        self.frames_since_movement = self.frames_since_movement + 1;
    }
}

/// An axis of the camera's basis.
#[derive(Clone, Copy, Debug, PartialEq, Eq, Structural)]
pub enum Axis {
    Forward,
    Right,
    Up,
}

/// One translation of the camera by the elapsed time along an axis, towards
/// the axis (`positive`) or away from it.
#[derive(Clone, Copy, Debug, PartialEq, Eq, Structural)]
pub struct CameraStep {
    pub axis: Axis,
    pub positive: bool,
}

/// The movement keys held down during a frame.
#[derive(Clone, Copy, Debug, PartialEq, Eq, Structural)]
pub struct MovementKeys {
    pub forward: bool,
    pub back: bool,
    pub left: bool,
    pub right: bool,
    pub down: bool,
    pub up: bool,
}

/// One translation if its key is held, none otherwise.
pub open spec fn step_if(held: bool, axis: Axis, positive: bool) -> Seq<CameraStep> {
    if held {
        seq![CameraStep { axis, positive }]
    } else {
        Seq::empty()
    }
}

/// The translations that the held keys ask for, in the order in which they
/// are applied: forward, back, left, right, down, up.
pub open spec fn steps_of(keys: MovementKeys) -> Seq<CameraStep> {
    step_if(keys.forward, Axis::Forward, true)
        + step_if(keys.back, Axis::Forward, false)
        + step_if(keys.left, Axis::Right, false)
        + step_if(keys.right, Axis::Right, true)
        + step_if(keys.down, Axis::Up, false)
        + step_if(keys.up, Axis::Up, true)
}

/// At least one movement key is held.
pub open spec fn any_held(keys: MovementKeys) -> bool {
    keys.forward || keys.back || keys.left || keys.right || keys.down || keys.up
}

fn push_if(steps: &mut Vec<CameraStep>, held: bool, axis: Axis, positive: bool)
    ensures
        final(steps)@ == old(steps)@ + step_if(held, axis, positive),
{
    if held {
        steps.push(CameraStep { axis, positive });
    }
    proof {
        if !held {
            assert(old(steps)@ + Seq::<CameraStep>::empty() =~= old(steps)@);
        }
    }
}

/// The translations that the held keys ask for, in their fixed order.
pub fn movement_steps(keys: &MovementKeys) -> (r: Vec<CameraStep>)
    ensures
        r@ == steps_of(*keys),
        r@.len() == 0 <==> !any_held(*keys),
{
    let mut steps: Vec<CameraStep> = Vec::new();
    push_if(&mut steps, keys.forward, Axis::Forward, true);
    push_if(&mut steps, keys.back, Axis::Forward, false);
    push_if(&mut steps, keys.left, Axis::Right, false);
    push_if(&mut steps, keys.right, Axis::Right, true);
    push_if(&mut steps, keys.down, Axis::Up, false);
    push_if(&mut steps, keys.up, Axis::Up, true);
    assert(Seq::<CameraStep>::empty() + step_if(keys.forward, Axis::Forward, true)
        =~= step_if(keys.forward, Axis::Forward, true));
    steps
}

/// The pixel under a pointer at `(x, y)`, counted from the top-left corner,
/// as a column and a row counted from the bottom; nothing outside the surface.
pub open spec fn pixel_under(x: int, y: int, width: nat, height: nat) -> Option<(nat, nat)> {
    if 0 <= x < width && 0 <= y < height {
        Some((x as nat, (height - 1 - y) as nat))
    } else {
        None
    }
}

impl Session {
    /// Applies the held movement keys: returns the translations to make, and
    /// drops the accumulated history when there is any.
    pub fn steer(&mut self, keys: &MovementKeys) -> (r: Vec<CameraStep>)
        ensures
            r@ == steps_of(*keys),
            final(self).width == old(self).width,
            final(self).height == old(self).height,
            final(self).frames_since_movement == if any_held(*keys) {
                0
            } else {
                old(self).frames_since_movement
            },
    {
        let steps = movement_steps(keys);
        if steps.len() > 0 {
            self.invalidate();
        }
        steps
    }

    /// The pixel that a pointer at `(x, y)` (from the top-left corner) falls
    /// on, with its row counted from the bottom as the image is; `None` when
    /// the pointer is outside the surface.
    pub fn click_pixel(&self, x: isize, y: isize) -> (r: Option<(usize, usize)>)
        ensures
            r matches Some(p) ==> pixel_under(x as int, y as int, self.width as nat, self.height as nat)
                == Some((p.0 as nat, p.1 as nat)),
            r is None ==> pixel_under(x as int, y as int, self.width as nat, self.height as nat) is None,
    {
        if x < 0 || y < 0 {
            return None;
        }
        let (ux, uy) = (x as usize, y as usize);
        if ux >= self.width || uy >= self.height {
            return None;
        }
        Some((ux, self.height - 1 - uy))
    }
}

/// A frame that follows a change zeroes each cell before it blends and
/// divides its estimate by one: the cell takes that estimate whole, and does
/// so again on every frame for which the count is still zero.
pub proof fn lemma_frame_after_change_writes_estimate()
    ensures
        plan_of(0).clear,
        plan_of(0).divisor == 1,
{
}

/// Counting from a change, the frame that follows `n` accumulated frames
/// divides its estimate by `n + 1`, and only the first of them zeroes the
/// cells: the weights of an incremental mean over the frames since the change.
pub proof fn lemma_running_mean_weights(n: nat)
    requires
        n < u64::MAX,
    ensures
        plan_of(n).divisor == n + 1,
        plan_of(n).clear == (n == 0),
{
}

/// Sum of the first `n` estimates.
pub open spec fn sum_first(estimates: Seq<int>, n: nat) -> int
    decreases n,
{
    if n == 0 {
        0
    } else {
        sum_first(estimates, (n - 1) as nat) + estimates[n - 1]
    }
}

/// Frame `k` after a change, computed exactly: it starts from `cells[k]`, or
/// from zero when its plan clears, and `cells[k + 1]` is that start moved
/// towards `estimates[k]` by one `divisor`-th of the gap.
pub open spec fn blended(estimates: Seq<int>, cells: Seq<int>, k: nat) -> bool {
    let plan = plan_of(k);
    let start = if plan.clear { 0 } else { cells[k as int] };
    plan.divisor * cells[(k + 1) as int] == plan.divisor * start + (estimates[k as int] - start)
}

/// The running average is the mean: when `n` frames after a change are
/// blended exactly by their plans, `n` times the cell is the sum of their
/// estimates.
pub proof fn lemma_running_mean(estimates: Seq<int>, cells: Seq<int>, n: nat)
    requires
        n < u64::MAX,
        estimates.len() >= n,
        cells.len() > n,
        forall|k: nat| k < n ==> #[trigger] blended(estimates, cells, k),
    ensures
        n * cells[n as int] == sum_first(estimates, n),
    decreases n,
{
    if n > 0 {
        let k = (n - 1) as nat;
        lemma_running_mean(estimates, cells, k);
        assert(blended(estimates, cells, k));
        assert(plan_of(k).divisor == n);
        assert(sum_first(estimates, n) == sum_first(estimates, k) + estimates[k as int]);
        if k == 0 {
            assert(plan_of(k).clear);
            assert(1 * cells[1] == estimates[0]);
            assert(sum_first(estimates, 0) == 0);
        } else {
            assert(!plan_of(k).clear);
            assert(n * cells[n as int] == n * cells[k as int] + (estimates[k as int] - cells[k as int]));
            let (cn, ck, ek) = (cells[n as int], cells[k as int], estimates[k as int]);
            assert(n * cn == k * ck + ek) by (nonlinear_arith)
                requires
                    n == k + 1,
                    n * cn == n * ck + (ek - ck),
            ;
        }
    } else {
        assert(sum_first(estimates, 0) == 0);
        assert(0 * cells[0] == 0);
    }
}

} // verus!
