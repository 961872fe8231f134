use kas_layout::layout::{SizeRules, StretchPolicy};

fn rules(min: u32, ideal: u32, stretch: StretchPolicy) -> SizeRules {
    SizeRules::variable(min, ideal).with_stretch(stretch)
}

fn solve(rules: &[SizeRules], target: u32, gap: u32) -> Vec<u32> {
    let mut out = vec![0u32; rules.len()];
    SizeRules::solve_seq(&mut out, rules, target, gap);
    out
}

fn sum(sizes: &[u32]) -> u64 {
    sizes.iter().map(|s| *s as u64).sum()
}

#[test]
fn row_of_three_grows_in_proportion_to_headroom() {
    let r = [
        rules(10, 50, StretchPolicy::Fixed),
        rules(10, 20, StretchPolicy::Fixed),
        rules(10, 30, StretchPolicy::Fixed),
    ];
    // 40 pixels of slack over headrooms (40, 10, 20): quotas 22, 5 and 11,
    // and the two pixels left over go to the first two children.
    assert_eq!(solve(&r, 70, 0), vec![33, 16, 21]);
}

#[test]
fn sizes_and_gaps_fill_the_target() {
    let r = [
        rules(10, 50, StretchPolicy::Low),
        rules(7, 20, StretchPolicy::Fixed),
        rules(3, 30, StretchPolicy::High),
        rules(0, 0, StretchPolicy::Fixed),
    ];
    for gap in [0u32, 1, 5] {
        let least = 20 + 3 * gap;
        for target in least..least + 200 {
            let sizes = solve(&r, target, gap);
            assert_eq!(sum(&sizes) + 3 * gap as u64, target as u64, "target {target} gap {gap}");
        }
    }
}

#[test]
fn no_size_below_its_minimum_when_the_minimums_fit() {
    let r = [
        rules(10, 50, StretchPolicy::Low),
        rules(7, 20, StretchPolicy::Fixed),
        rules(3, 30, StretchPolicy::Filler),
    ];
    for target in 24..200 {
        let sizes = solve(&r, target, 2);
        assert!(sizes[0] >= 10 && sizes[1] >= 7 && sizes[2] >= 3, "target {target}");
    }
}

#[test]
fn ideal_target_gives_ideal_sizes() {
    let r = [
        rules(10, 50, StretchPolicy::Low),
        rules(7, 20, StretchPolicy::Fixed),
        rules(3, 30, StretchPolicy::Filler),
        rules(4, 4, StretchPolicy::High),
    ];
    assert_eq!(solve(&r, 104 + 3 * 6, 6), vec![50, 20, 30, 4]);
}

#[test]
fn raising_an_ideal_never_lowers_that_size() {
    let tiers = [StretchPolicy::Fixed, StretchPolicy::Low, StretchPolicy::Filler];
    for tier in tiers {
        for target in 0..90u32 {
            let mut last = 0;
            for ideal in 5..60u32 {
                let r = [
                    rules(8, 12, StretchPolicy::Low),
                    rules(5, ideal, tier),
                    rules(2, 9, StretchPolicy::Fixed),
                ];
                let size = solve(&r, target, 1)[1];
                assert!(size >= last, "target {target} ideal {ideal}");
                last = size;
            }
        }
    }
}

#[test]
fn too_small_a_target_shrinks_every_child() {
    let r = [
        rules(10, 50, StretchPolicy::Low),
        rules(20, 20, StretchPolicy::Fixed),
        rules(30, 30, StretchPolicy::Filler),
    ];
    for target in 0..64u32 {
        let sizes = solve(&r, target, 2);
        let room = target.saturating_sub(4);
        assert!(sizes[0] <= 10 && sizes[1] <= 20 && sizes[2] <= 30);
        assert_eq!(sum(&sizes), room as u64, "target {target}");
    }
}

#[test]
fn shrinking_takes_the_odd_pixels_from_the_first_children() {
    let r = [
        rules(10, 10, StretchPolicy::Fixed),
        rules(10, 10, StretchPolicy::Fixed),
        rules(10, 10, StretchPolicy::Fixed),
    ];
    // 5 pixels are missing: one from each, and the two left over from the
    // first two.
    assert_eq!(solve(&r, 25, 0), vec![8, 8, 9]);
    // 4 pixels are left: the minimums of 10, 20 and 30 lose 56 in all, in
    // parts of 9, 18 and 28 and one more from the first.
    let r = [
        rules(10, 10, StretchPolicy::Fixed),
        rules(20, 25, StretchPolicy::Fixed),
        rules(30, 30, StretchPolicy::Fixed),
    ];
    assert_eq!(solve(&r, 4, 0), vec![0, 2, 2]);
}

#[test]
fn equal_children_get_the_same_result_every_time() {
    let r = [
        rules(0, 10, StretchPolicy::Low),
        rules(0, 10, StretchPolicy::Low),
        rules(0, 10, StretchPolicy::Low),
    ];
    let first = solve(&r, 20, 0);
    assert_eq!(first, vec![7, 7, 6]);
    for _ in 0..10 {
        assert_eq!(solve(&r, 20, 0), first);
    }
}

#[test]
fn space_beyond_the_ideals_goes_to_the_highest_tier() {
    let r = [
        rules(10, 20, StretchPolicy::Low),
        rules(10, 20, StretchPolicy::Filler),
        rules(10, 20, StretchPolicy::High),
        rules(10, 20, StretchPolicy::Filler),
    ];
    assert_eq!(solve(&r, 80 + 11, 0), vec![20, 26, 20, 25]);
    let r = [
        rules(10, 20, StretchPolicy::Low),
        rules(10, 20, StretchPolicy::Fixed),
        rules(10, 20, StretchPolicy::Low),
    ];
    assert_eq!(solve(&r, 60 + 7, 0), vec![24, 20, 23]);
}

#[test]
fn fixed_children_never_grow_past_their_ideal() {
    let r = [rules(10, 20, StretchPolicy::Fixed), rules(5, 5, StretchPolicy::Fixed)];
    assert_eq!(solve(&r, 100, 0), vec![20, 5]);
    assert_eq!(solve(&[SizeRules::fixed(10)], 20, 0), vec![10]);
}

#[test]
fn gaps_come_off_the_target_first() {
    let r = [
        rules(0, 10, StretchPolicy::Fixed),
        rules(0, 10, StretchPolicy::Fixed),
        rules(0, 10, StretchPolicy::Fixed),
    ];
    assert_eq!(solve(&r, 36, 3), vec![10, 10, 10]);
    assert_eq!(solve(&r, 26, 3), vec![7, 7, 6]);
    assert_eq!(solve(&r, 12, 3), vec![2, 2, 2]);
    // the gaps alone exceed the target: nothing is left for the children
    assert_eq!(solve(&r, 5, 3), vec![0, 0, 0]);
}

#[test]
fn no_children_no_sizes() {
    assert_eq!(solve(&[], 50, 3), Vec::<u32>::new());
}

#[test]
fn single_child_takes_what_it_may() {
    assert_eq!(solve(&[rules(10, 20, StretchPolicy::Low)], 5, 0), vec![5]);
    assert_eq!(solve(&[rules(10, 20, StretchPolicy::Low)], 15, 0), vec![15]);
    assert_eq!(solve(&[rules(10, 20, StretchPolicy::Low)], 50, 0), vec![50]);
    assert_eq!(solve(&[rules(10, 20, StretchPolicy::Fixed)], 50, 0), vec![20]);
}

#[test]
fn large_sizes_do_not_overflow() {
    let r = [
        rules(u32::MAX, u32::MAX, StretchPolicy::Fixed),
        rules(u32::MAX, u32::MAX, StretchPolicy::Fixed),
        rules(u32::MAX - 1, u32::MAX, StretchPolicy::Filler),
    ];
    let sizes = solve(&r, u32::MAX, 0);
    assert_eq!(sum(&sizes), u32::MAX as u64);
    assert!(sizes.iter().all(|s| *s <= u32::MAX));
    let sizes = solve(&r, u32::MAX, u32::MAX);
    assert_eq!(sizes, vec![0, 0, 0]);
}
