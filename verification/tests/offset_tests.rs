use tiling_gallery::offset::{OFFSET_BITS, OFFSET_SCALE};
use tiling_gallery::{offsets_from_words, random_offsets, Offset};

#[test]
fn the_scale_is_two_to_the_53() {
    assert_eq!(OFFSET_BITS, 53);
    assert_eq!(OFFSET_SCALE, 1u64 << 53);
}

#[test]
fn an_offset_keeps_the_upper_bits_of_the_word() {
    assert_eq!(Offset::from_word(0).numerator, 0);
    assert_eq!(Offset::from_word(2047).numerator, 0);
    assert_eq!(Offset::from_word(2048).numerator, 1);
    assert_eq!(Offset::from_word(1 << 63).numerator, 1 << 52);
    assert_eq!(Offset::from_word(u64::MAX).numerator, (1 << 53) - 1);
}

#[test]
fn one_half_is_the_word_with_the_top_bit() {
    let half = Offset::from_word(1 << 63);
    assert_eq!(half.numerator as f64 / OFFSET_SCALE as f64, 0.5);
}

#[test]
fn the_largest_offset_is_below_one() {
    let largest = Offset::from_word(u64::MAX);
    let value = largest.numerator as f64 / OFFSET_SCALE as f64;
    assert!(value < 1.0);
    assert_eq!(value, 1.0 - f64::EPSILON / 2.0);
}

#[test]
fn offsets_from_words_keeps_the_order() {
    let words = vec![0, 4096, u64::MAX, 1 << 62];
    let offsets = offsets_from_words(&words);
    let numerators: Vec<u64> = offsets.iter().map(|offset| offset.numerator).collect();
    assert_eq!(numerators, vec![0, 2, (1 << 53) - 1, 1 << 51]);
}

#[test]
fn no_words_give_no_offsets() {
    assert!(offsets_from_words(&Vec::new()).is_empty());
}

#[test]
fn random_offsets_gives_one_offset_per_family_below_one() {
    for dimension in [0usize, 1, 2, 5, 12, 200] {
        let offsets = random_offsets(dimension);
        assert_eq!(offsets.len(), dimension);
        assert!(offsets.iter().all(|offset| offset.numerator < OFFSET_SCALE));
    }
}

#[test]
fn random_offsets_are_not_all_the_same() {
    let offsets = random_offsets(64);
    assert!(offsets.iter().any(|offset| *offset != offsets[0]));
}
