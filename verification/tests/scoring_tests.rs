use quiz_core::scoring::{compute_points, Difficulty};

#[test]
fn base_points_by_difficulty() {
    assert_eq!(compute_points(Difficulty::Beginner, true, 20, 30), 5);
    assert_eq!(compute_points(Difficulty::Intermediate, true, 20, 30), 10);
    assert_eq!(compute_points(Difficulty::Advanced, true, 20, 30), 20);
    assert_eq!(compute_points(Difficulty::Expert, true, 20, 30), 30);
}

#[test]
fn fast_answer_bonus() {
    assert_eq!(compute_points(Difficulty::Beginner, true, 10, 30), 15);
    assert_eq!(compute_points(Difficulty::Expert, true, 0, 30), 40);
}

#[test]
fn bonus_boundary_is_strict_half_truncated() {
    // half of 30 is 15: taking exactly 15 seconds is not fast
    assert_eq!(compute_points(Difficulty::Beginner, true, 15, 30), 5);
    assert_eq!(compute_points(Difficulty::Beginner, true, 14, 30), 15);
    // half of 31 truncates to 15
    assert_eq!(compute_points(Difficulty::Beginner, true, 15, 31), 5);
    assert_eq!(compute_points(Difficulty::Beginner, true, 14, 31), 15);
}

#[test]
fn incorrect_answers_score_zero_regardless_of_timing() {
    for t in [0u64, 1, 10, 15, 29, 30, 1000] {
        assert_eq!(compute_points(Difficulty::Beginner, false, t, 30), 0);
        assert_eq!(compute_points(Difficulty::Expert, false, t, 30), 0);
    }
}

#[test]
fn compute_points_is_deterministic() {
    for d in [
        Difficulty::Beginner,
        Difficulty::Intermediate,
        Difficulty::Advanced,
        Difficulty::Expert,
    ] {
        for correct in [true, false] {
            for t in [0u64, 7, 15, 40] {
                let a = compute_points(d, correct, t, 30);
                let b = compute_points(d, correct, t, 30);
                assert_eq!(a, b);
            }
        }
    }
}

#[test]
fn zero_timer_never_gives_bonus() {
    assert_eq!(compute_points(Difficulty::Beginner, true, 0, 0), 5);
}
