use std::cell::Cell;

use kine_rs::trajectory::recorder::bracket_frames;
use kine_rs::trajectory::rrt::{reconstruct_path, shortcut_path, RrtNode, SimpleRng};

#[test]
fn test_simple_rng_determinism() {
    let mut rng1 = SimpleRng::new(12345);
    let mut rng2 = SimpleRng::new(12345);

    for _ in 0..100 {
        assert_eq!(rng1.next_u64(), rng2.next_u64());
        // A uniform sample in [0, 1) is drawn from the top 53 bits of the next output.
        let f1 = (rng1.next_u64() >> 11) as f64 * (1.0 / 9007199254740992.0);
        let f2 = (rng2.next_u64() >> 11) as f64 * (1.0 / 9007199254740992.0);
        assert_eq!(f1, f2);
        assert!((0.0..1.0).contains(&f1));
    }
}

#[test]
fn rng_first_output_matches_xorshift64_star() {
    let mut rng = SimpleRng::new(1);
    // 1 -> 1 ^ (1 << 25) = 0x2000001 -> ^ (>> 27: 0) ; then * multiplier.
    let state: u64 = 1 ^ (1 << 25);
    assert_eq!(rng.next_u64(), state.wrapping_mul(0x2545F4914F6CDD1D));
}

#[test]
fn rng_zero_seed_uses_default_seed() {
    let mut zero = SimpleRng::new(0);
    let mut default_seed = SimpleRng::new(0x853c49e6748fea9b);
    for _ in 0..10 {
        let v = zero.next_u64();
        assert_eq!(v, default_seed.next_u64());
        assert_ne!(v, 0);
    }
}

#[test]
fn test_rrt_path_shortcutting() {
    // A deliberately zig-zag path; every straight edge is accepted.
    let path: Vec<Vec<i32>> = vec![vec![0, 0], vec![2, 1], vec![1, 3], vec![3, 2], vec![5, 5]];
    let mut rng = SimpleRng::new(42);
    let smoothed = shortcut_path(path.clone(), 40, &mut rng, |_a: &Vec<i32>, _b: &Vec<i32>| true);
    assert!(smoothed.len() <= path.len(), "Shortcutting should reduce or keep waypoint count");
    assert_eq!(smoothed[0], path[0]);
    assert_eq!(*smoothed.last().unwrap(), *path.last().unwrap());
    assert_eq!(smoothed.len(), 2);
}

#[test]
fn shortcutting_keeps_rejected_paths_and_short_paths() {
    let path = vec![1, 2, 3, 4, 5, 6];
    let mut rng = SimpleRng::new(7);
    let kept = shortcut_path(path.clone(), 50, &mut rng, |_a: &i32, _b: &i32| false);
    assert_eq!(kept, path);

    let short = vec![10, 20];
    let mut rng = SimpleRng::new(7);
    let mut untouched = SimpleRng::new(7);
    assert_eq!(shortcut_path(short.clone(), 50, &mut rng, |_a: &i32, _b: &i32| true), short);
    assert_eq!(rng.next_u64(), untouched.next_u64());
}

#[test]
fn shortcutting_only_joins_accepted_pairs() {
    // Only edges between waypoints whose values differ by at most 2 are accepted.
    let path = vec![0, 1, 2, 3, 4, 5, 6, 7, 8];
    let mut rng = SimpleRng::new(99);
    let out = shortcut_path(path.clone(), 200, &mut rng, |a: &i32, b: &i32| (b - a).abs() <= 2);
    assert_eq!(out[0], 0);
    assert_eq!(*out.last().unwrap(), 8);
    for w in out.windows(2) {
        assert!(w[0] < w[1]);
        assert!(w[1] - w[0] <= 2);
    }
}

#[test]
fn reconstructs_branch_from_root() {
    let tree = vec![
        RrtNode { q: 'a', parent_idx: None },
        RrtNode { q: 'b', parent_idx: Some(0) },
        RrtNode { q: 'c', parent_idx: Some(0) },
        RrtNode { q: 'd', parent_idx: Some(2) },
        RrtNode { q: 'e', parent_idx: Some(3) },
    ];
    assert_eq!(reconstruct_path(&tree, 4), vec!['a', 'c', 'd', 'e']);
    assert_eq!(reconstruct_path(&tree, 1), vec!['a', 'b']);
    assert_eq!(reconstruct_path(&tree, 0), vec!['a']);
}

#[test]
fn shortcutting_draws_two_numbers_per_attempt() {
    let path = vec![1, 2, 3, 4, 5, 6];
    let mut rng = SimpleRng::new(1234);
    let out = shortcut_path(path.clone(), 50, &mut rng, |_a: &i32, _b: &i32| false);
    assert_eq!(out, path);
    let mut reference = SimpleRng::new(1234);
    for _ in 0..100 {
        reference.next_u64();
    }
    assert_eq!(rng.next_u64(), reference.next_u64());
}

#[test]
fn single_shortcut_attempt_joins_the_drawn_pair() {
    for seed in 1..40u64 {
        let path: Vec<u32> = (0..10).collect();
        let mut rng = SimpleRng::new(seed);
        let out = shortcut_path(path.clone(), 1, &mut rng, |_a: &u32, _b: &u32| true);

        let mut draws = SimpleRng::new(seed);
        let i = (draws.next_u64() as usize) % 9;
        let j = (draws.next_u64() as usize) % 10;
        let (a, b) = if i < j { (i, j) } else { (j, i) };
        let expected: Vec<u32> = if b <= a + 1 {
            path.clone()
        } else {
            path[..=a].iter().chain(path[b..].iter()).copied().collect()
        };
        assert_eq!(out, expected, "seed {}", seed);
    }
}

#[test]
fn bracket_frames_finds_neighbouring_frames() {
    let times = [0.0, 1.0, 2.0, 3.0, 4.0];
    assert_eq!(bracket_frames(times.len(), |i| times[i] <= 1.5), (1, 2));
    assert_eq!(bracket_frames(times.len(), |i| times[i] <= 2.0), (2, 3));
    assert_eq!(bracket_frames(times.len(), |i| times[i] <= 3.9), (3, 4));
    assert_eq!(bracket_frames(times.len(), |i| times[i] <= 0.1), (0, 1));
}

#[test]
fn bracket_frames_asks_only_about_inner_frames() {
    let asked = Cell::new(0usize);
    let r = bracket_frames(2, |_i| {
        asked.set(asked.get() + 1);
        true
    });
    assert_eq!(r, (0, 1));
    assert_eq!(asked.get(), 0);

    let asked_ends = Cell::new(false);
    let r = bracket_frames(9, |i| {
        if i == 0 || i == 8 {
            asked_ends.set(true);
        }
        i <= 5
    });
    assert_eq!(r, (5, 6));
    assert!(!asked_ends.get());
}
