use dio_align::capability::supports_dio_align;
use dio_align::text::{chars_of, parse_u32_range, trim_range, white_space};
use dio_align::Strategy;

#[test]
fn kernel_six_one_and_later_report_alignment() {
    assert!(supports_dio_align("6.1.0-13-amd64"));
    assert!(supports_dio_align("6.1"));
    assert!(supports_dio_align("6.18.44-fc-v165"));
    assert!(supports_dio_align("7.0.0"));
    assert!(supports_dio_align("10.2"));
}

#[test]
fn kernels_before_six_one_do_not_report_alignment() {
    assert!(!supports_dio_align("6.0.19"));
    assert!(!supports_dio_align("5.15.0-91-generic"));
    assert!(!supports_dio_align("4.19.0"));
    assert!(!supports_dio_align("0.0"));
}

#[test]
fn release_needs_two_segments() {
    assert!(!supports_dio_align("7"));
    assert!(!supports_dio_align(""));
    assert!(!supports_dio_align("7-6.1"));
    assert!(supports_dio_align("7."));
}

#[test]
fn segment_that_is_no_number_counts_as_zero() {
    assert!(!supports_dio_align("six.1"));
    assert!(!supports_dio_align("6.x"));
    assert!(!supports_dio_align("6.1rc"));
    assert!(!supports_dio_align(".9"));
    assert!(!supports_dio_align("6.1\n"));
    assert!(supports_dio_align("6.1.0\n"));
    assert!(supports_dio_align("+6.+1"));
    assert!(!supports_dio_align("99999999999.1"));
    assert!(supports_dio_align("7.x"));
}

#[test]
fn only_the_part_before_the_first_dash_counts() {
    assert!(!supports_dio_align("5.9-6.1"));
    assert!(supports_dio_align("6.2-5.0"));
    assert!(!supports_dio_align("6-1.1"));
}

#[test]
fn linux_strategy_follows_the_release() {
    assert_eq!(Strategy::for_linux("6.1.0"), Strategy::DioAlign);
    assert_eq!(Strategy::for_linux("6.0.9"), Strategy::Legacy);
    assert_eq!(Strategy::for_linux("garbage"), Strategy::Legacy);
}

#[test]
fn white_space_is_the_unicode_property() {
    for c in ['\t', '\n', '\x0b', '\x0c', '\r', ' ', '\u{85}', '\u{a0}', '\u{1680}', '\u{2000}',
        '\u{200a}', '\u{2028}', '\u{2029}', '\u{202f}', '\u{205f}', '\u{3000}']
    {
        assert!(white_space(c));
    }
    for c in ['0', 'a', '\0', '\x08', '\x0e', '\x1f', '\u{200b}', '\u{feff}', '\u{180e}', '\u{2060}'] {
        assert!(!white_space(c));
    }
    for code in 0u32..0x3100 {
        if let Some(c) = char::from_u32(code) {
            assert_eq!(white_space(c), c.is_whitespace());
        }
    }
}

#[test]
fn ranges_of_a_text_are_trimmed_and_read() {
    let s = chars_of("ab  42 \tcd");
    assert_eq!(s.len(), 10);
    assert_eq!(trim_range(&s, 2, 8), (4, 6));
    assert_eq!(parse_u32_range(&s, 4, 6), Some(42));
    assert_eq!(parse_u32_range(&s, 4, 7), None);
    assert_eq!(parse_u32_range(&s, 4, 4), None);
    assert_eq!(trim_range(&s, 2, 4), (4, 4));
    assert_eq!(trim_range(&s, 0, 10), (0, 10));
}
