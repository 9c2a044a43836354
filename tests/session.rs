use raytracer::session::{movement_steps, Axis, CameraStep, FramePlan, MovementKeys, Session};

fn no_keys() -> MovementKeys {
    MovementKeys { forward: false, back: false, left: false, right: false, down: false, up: false }
}

#[test]
fn new_session_starts_a_fresh_average() {
    let s = Session::new(640, 480);
    assert_eq!(s.width, 640);
    assert_eq!(s.height, 480);
    assert_eq!(s.frames_since_movement, 0);
    assert_eq!(s.pixel_count(), 307200);
}

#[test]
fn first_frame_clears_and_writes_whole() {
    let mut s = Session::new(2, 2);
    for _ in 0..3 {
        assert_eq!(s.frame_plan(), FramePlan { clear: true, divisor: 1 });
        s.finish_frame();
        s.invalidate();
    }
    assert_eq!(s.frames_since_movement, 0);
}

#[test]
fn divisors_count_the_frames() {
    let mut s = Session::new(3, 1);
    for n in 0..10u64 {
        let plan = s.frame_plan();
        assert_eq!(plan.divisor, n + 1);
        assert_eq!(plan.clear, n == 0);
        s.finish_frame();
    }
    assert_eq!(s.frames_since_movement, 10);
}

#[test]
fn incremental_mean_of_estimates() {
    let estimates = [0.5f32, 1.5, 4.0, 2.0];
    let mut s = Session::new(1, 1);
    let mut cell = 9.0f32;
    for e in estimates {
        let plan = s.frame_plan();
        if plan.clear {
            cell = 0.0;
        }
        cell += (e - cell) / plan.divisor as f32;
        s.finish_frame();
    }
    assert!((cell - 2.0).abs() < 1e-6);
}

#[test]
fn changes_reset_the_count() {
    let mut s = Session::new(4, 4);
    s.finish_frame();
    s.finish_frame();
    assert_eq!(s.frame_plan(), FramePlan { clear: false, divisor: 3 });
    s.invalidate();
    assert_eq!(s.frames_since_movement, 0);
    assert_eq!((s.width, s.height), (4, 4));
    s.finish_frame();
    s.resize(8, 2);
    assert_eq!((s.width, s.height, s.frames_since_movement), (8, 2, 0));
    assert_eq!(s.pixel_count(), 16);
}

#[test]
fn keys_move_in_fixed_order() {
    let keys = MovementKeys { forward: true, back: true, left: false, right: true, down: true, up: false };
    assert_eq!(
        movement_steps(&keys),
        vec![
            CameraStep { axis: Axis::Forward, positive: true },
            CameraStep { axis: Axis::Forward, positive: false },
            CameraStep { axis: Axis::Right, positive: true },
            CameraStep { axis: Axis::Up, positive: false },
        ]
    );
    let keys = MovementKeys { left: true, up: true, ..no_keys() };
    assert_eq!(
        movement_steps(&keys),
        vec![
            CameraStep { axis: Axis::Right, positive: false },
            CameraStep { axis: Axis::Up, positive: true },
        ]
    );
}

#[test]
fn steering_resets_only_when_a_key_is_held() {
    let mut s = Session::new(2, 2);
    s.finish_frame();
    assert!(s.steer(&no_keys()).is_empty());
    assert_eq!(s.frames_since_movement, 1);
    let steps = s.steer(&MovementKeys { back: true, ..no_keys() });
    assert_eq!(steps, vec![CameraStep { axis: Axis::Forward, positive: false }]);
    assert_eq!(s.frames_since_movement, 0);
}

#[test]
fn clicks_map_to_bottom_up_rows() {
    let s = Session::new(640, 480);
    assert_eq!(s.click_pixel(0, 0), Some((0, 479)));
    assert_eq!(s.click_pixel(639, 479), Some((639, 0)));
    assert_eq!(s.click_pixel(100, 200), Some((100, 279)));
}

#[test]
fn clicks_outside_the_surface_are_ignored() {
    let s = Session::new(640, 480);
    assert_eq!(s.click_pixel(-1, 10), None);
    assert_eq!(s.click_pixel(10, -1), None);
    assert_eq!(s.click_pixel(640, 10), None);
    assert_eq!(s.click_pixel(10, 480), None);
}

#[test]
fn frames_at_count_zero_hold_the_estimate() {
    let mut s = Session::new(1, 1);
    let mut cell = 0.0f32;
    for estimate in [0.3f32, 0.3, 0.3] {
        s.invalidate();
        let plan = s.frame_plan();
        if plan.clear {
            cell = 0.0;
        }
        cell += (estimate - cell) / plan.divisor as f32;
        assert_eq!(cell, estimate);
        s.finish_frame();
    }
}
