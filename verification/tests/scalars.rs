use wotoha::ordering::{at_rank, last_greatest, sort_totally};
use wotoha::scalar::{
    at_most, byte_fraction, greater, in_unit, is_finite, is_nan, less, lesser, same, total_less,
};
use wotoha::text::{
    decimal, ends_with, hex, is_blank, is_white_space, parse_u64, starts_with, to_ascii_lowercase,
};
use wotoha::time::Duration;

fn samples() -> Vec<f32> {
    vec![
        f32::NEG_INFINITY,
        f32::MIN,
        -1.5,
        -1.0,
        -f32::MIN_POSITIVE,
        -0.0,
        0.0,
        f32::MIN_POSITIVE,
        0.2,
        0.35,
        1.0,
        1.5,
        f32::MAX,
        f32::INFINITY,
        f32::NAN,
        -f32::NAN,
    ]
}

#[test]
fn order_of_bits_is_the_order_of_numbers() {
    for left in samples() {
        for right in samples() {
            let (a, b) = (left.to_bits(), right.to_bits());
            assert_eq!(less(a, b), left < right, "{left} < {right}");
            assert_eq!(at_most(a, b), left <= right, "{left} <= {right}");
            assert_eq!(same(a, b), left == right, "{left} == {right}");
            assert_eq!(total_less(a, b), left.total_cmp(&right).is_lt());
            let minimum = f32::from_bits(lesser(a, b));
            let maximum = f32::from_bits(greater(a, b));
            if left.is_nan() && right.is_nan() {
                assert!(minimum.is_nan() && maximum.is_nan());
            } else {
                assert_eq!(minimum, left.min(right));
                assert_eq!(maximum, left.max(right));
            }
        }
        assert_eq!(is_finite(left.to_bits()), left.is_finite());
        assert_eq!(is_nan(left.to_bits()), left.is_nan());
        assert_eq!(in_unit(left.to_bits()), (0.0..=1.0).contains(&left));
    }
}

#[test]
fn byte_fractions_are_the_rounded_quotients() {
    for value in 0..=255_u8 {
        assert_eq!(
            byte_fraction(value),
            (f32::from(value) / 255.0).to_bits(),
            "{value}"
        );
    }
}

#[test]
fn sorting_follows_the_total_order() {
    let values: Vec<u32> = samples().iter().rev().map(|value| value.to_bits()).collect();
    let mut expected = samples();
    expected.sort_by(f32::total_cmp);
    let expected: Vec<u32> = expected.iter().map(|value| value.to_bits()).collect();
    assert_eq!(sort_totally(&values), expected);
    assert_eq!(at_rank(&values, 3), expected[3]);
    assert_eq!(at_rank(&values, 99), 0);
    let peaks: Vec<u32> = [0.5_f32, 2.0, 1.0, 2.0]
        .iter()
        .map(|value| value.to_bits())
        .collect();
    assert_eq!(last_greatest(&peaks), Some(3));
    assert_eq!(last_greatest(&Vec::new()), None);
}

#[test]
fn white_space_is_that_of_the_standard_library() {
    for code in 0..=0x10_FFFF_u32 {
        if let Some(ch) = char::from_u32(code) {
            assert_eq!(is_white_space(ch), ch.is_whitespace(), "{code:x}");
        }
    }
}

#[test]
fn numbers_are_read_back_as_written() {
    for value in [0, 7, 10, 4_294_967_296, u64::MAX] {
        let text = decimal(value);
        assert_eq!(text, value.to_string());
        assert_eq!(parse_u64(&text), Some(value));
    }
    for text in ["", "+", "-1", "1 ", "18446744073709551616", "x"] {
        assert_eq!(parse_u64(text), text.parse::<u64>().ok(), "{text:?}");
    }
    assert_eq!(parse_u64("+12"), "+12".parse::<u64>().ok());
}

#[test]
fn texts_are_compared_and_written() {
    assert_eq!(hex(&[0, 15, 16, 255]), "000f10ff");
    assert!(starts_with("bytes 0-1", "bytes "));
    assert!(!starts_with("byte", "bytes "));
    assert!(ends_with("youtube.com", ".com"));
    assert!(is_blank(" \t\u{3000}\n"));
    assert!(!is_blank(" a "));
    assert_eq!(to_ascii_lowercase("AbÄ-Z"), "abÄ-z");
}

#[test]
fn spans_saturate_like_the_standard_library() {
    let cases = [
        std::time::Duration::ZERO,
        std::time::Duration::from_nanos(1),
        std::time::Duration::from_millis(1_500),
        std::time::Duration::MAX,
    ];
    let own = |value: std::time::Duration| {
        Duration::from_parts(value.as_secs(), value.subsec_nanos()).unwrap()
    };
    for left in cases {
        for right in cases {
            assert_eq!(
                own(left).saturating_add(own(right)),
                own(left.saturating_add(right))
            );
            assert_eq!(
                own(left).saturating_sub(own(right)),
                own(left.saturating_sub(right))
            );
            assert_eq!(own(left).abs_diff(own(right)), own(left.abs_diff(right)));
            assert_eq!(own(left).min(own(right)), own(left.min(right)));
            assert_eq!(own(left).max(own(right)), own(left.max(right)));
        }
        assert_eq!(own(left).divide(2), own(left / 2));
        assert_eq!(own(left).as_millis(), left.as_millis());
    }
    assert_eq!(Duration::max_value(), own(std::time::Duration::MAX));
}
