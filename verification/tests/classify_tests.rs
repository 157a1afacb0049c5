use tiling_gallery::{classify, Category};

// The rule, written out with a remainder.
fn expected(r: usize, s: usize, n: usize) -> Category {
    let gap = (s + n - r) % n;
    if gap == 1 || gap == n - 1 {
        Category::Adjacent
    } else {
        Category::NonAdjacent
    }
}

#[test]
fn neighbours_are_adjacent() {
    assert_eq!(classify(0, 1, 5), Category::Adjacent);
    assert_eq!(classify(0, 4, 5), Category::Adjacent);
    assert_eq!(classify(0, 2, 5), Category::NonAdjacent);
}

#[test]
fn all_pairs_of_five_families() {
    let adjacent = [(0, 1), (1, 2), (2, 3), (3, 4), (0, 4)];
    for r in 0..5usize {
        for s in (r + 1)..5usize {
            let want = if adjacent.contains(&(r, s)) {
                Category::Adjacent
            } else {
                Category::NonAdjacent
            };
            assert_eq!(classify(r, s, 5), want, "pair ({}, {})", r, s);
            assert_eq!(classify(r, s, 5), expected(r, s, 5));
        }
    }
}

#[test]
fn all_pairs_of_four_families() {
    let adjacent = [(0, 1), (1, 2), (2, 3), (0, 3)];
    for r in 0..4usize {
        for s in (r + 1)..4usize {
            let want = if adjacent.contains(&(r, s)) {
                Category::Adjacent
            } else {
                Category::NonAdjacent
            };
            assert_eq!(classify(r, s, 4), want, "pair ({}, {})", r, s);
            assert_eq!(classify(r, s, 4), expected(r, s, 4));
        }
    }
}

#[test]
fn the_gap_is_cyclic_in_both_directions() {
    for n in 2..9usize {
        for r in 0..n {
            for s in 0..n {
                assert_eq!(classify(r, s, n), expected(r, s, n));
                assert_eq!(classify(r, s, n), classify(s, r, n));
            }
        }
    }
}

#[test]
fn two_families_are_adjacent() {
    assert_eq!(classify(0, 1, 2), Category::Adjacent);
}

#[test]
fn classification_is_the_same_when_asked_again() {
    for _ in 0..3 {
        assert_eq!(classify(1, 3, 7), Category::NonAdjacent);
        assert_eq!(classify(0, 6, 7), Category::Adjacent);
    }
}
