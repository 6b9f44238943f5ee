use brewster::bytes::{
    bytes_equal, bytes_start_with, find_any_byte, find_bytes, find_other_byte, i16_from_bits,
    i16_to_bits, i32_from_bits, i32_to_bits, i8_from_bits, i8_to_bits, push_bytes, push_u16_be,
    push_u16_le, push_u32_be, push_u32_le, read_u16_be, read_u16_le, read_u32_be, read_u32_le,
    utf8_chars,
};
use brewster::dns::{
    bytes_eq_ascii_ignore_case, labels_are, push_announcement_header, push_name, push_record,
    read_name, read_record, CLASS_IN, TYPE_A, TYPE_TXT,
};
use brewster::text::{
    append_chars, append_decimal, append_digit, append_digits, append_fixed, bool_str,
    char_is_space, chars_equal, chars_same_letters, chars_start_with, find_any_char, find_chars,
    parse_unsigned, split_chars, to_chars, to_string, trim_chars, trim_start_chars,
};

fn chars(s: &str) -> Vec<char> {
    s.chars().collect()
}

#[test]
fn numbers_are_written_in_decimal() {
    let mut out = String::new();
    append_decimal(&mut out, 0);
    append_digit(&mut out, 7);
    append_decimal(&mut out, u64::MAX);
    assert_eq!(out, "0718446744073709551615");
    let mut padded = String::from("t");
    append_digits(&mut padded, 42, 5);
    assert_eq!(padded, "t00042");
    let mut fixed = String::new();
    append_fixed(&mut fixed, true, 1234, 2);
    append_fixed(&mut fixed, false, 5, 3);
    assert_eq!(fixed, "-12.340.005");
    assert_eq!(bool_str(true), "true");
    assert_eq!(bool_str(false), "false");
}

#[test]
fn written_numbers_are_read_back() {
    for n in [0u64, 9, 10, 65535, 4294967295, u64::MAX] {
        let mut out = String::new();
        append_decimal(&mut out, n);
        assert_eq!(parse_unsigned(&chars(&out), u64::MAX), Some(n));
    }
}

#[test]
fn numbers_are_read_as_the_standard_library_reads_them() {
    for text in ["", "+", "-1", "+7", "007", "1 ", "12a", "255", "256", "٣"] {
        assert_eq!(
            parse_unsigned(&chars(text), 255),
            text.parse::<u8>().ok().map(u64::from),
            "{text:?}",
        );
    }
    assert_eq!(parse_unsigned(&chars("18446744073709551615"), u64::MAX), Some(u64::MAX));
    assert_eq!(parse_unsigned(&chars("18446744073709551616"), u64::MAX), None);
}

#[test]
fn text_is_cut_up_as_the_standard_library_does() {
    for text in ["", " a b ", "\t\u{a0}x\u{3000}", "   ", "plain"] {
        assert_eq!(to_string(trim_chars(&chars(text))), text.trim());
        assert_eq!(to_string(trim_start_chars(&chars(text))), text.trim_start());
    }
    for text in ["", ",", "a,b,,c", "abc"] {
        let parts: Vec<String> = split_chars(&chars(text), ',').iter().map(|p| to_string(p)).collect();
        let expected: Vec<String> = text.split(',').map(String::from).collect();
        assert_eq!(parts, expected);
    }
    for c in ['\u{9}', '\u{d}', ' ', '\u{85}', '\u{2028}', 'a', '\u{200b}'] {
        assert_eq!(char_is_space(c), c.is_whitespace());
    }
    assert_eq!(to_chars("häß"), chars("häß"));
    let mut out = String::from("a");
    append_chars(&mut out, &['ö', '!']);
    assert_eq!(out, "aö!");
}

#[test]
fn text_is_searched() {
    assert_eq!(find_chars(&chars("hello"), &chars("l")), Some(2));
    assert_eq!(find_chars(&chars("hello"), &[]), Some(0));
    assert_eq!(find_chars(&chars("hello"), &chars("lx")), None);
    assert!(chars_start_with(&chars("hello"), &chars("he")));
    assert!(!chars_start_with(&chars("h"), &chars("he")));
    assert_eq!(find_any_char(&chars("a=b&c"), &['&', '=']), 1);
    assert_eq!(find_any_char(&chars("abc"), &['&']), 3);
    assert!(chars_equal(&chars("ab"), &chars("ab")));
    assert!(!chars_equal(&chars("ab"), &chars("aB")));
    assert!(chars_same_letters(&chars("ab"), &chars("aB")));
    assert!(!chars_same_letters(&chars("ab"), &chars("abc")));
}

#[test]
fn words_are_laid_out_in_either_order() {
    let mut out = Vec::new();
    push_u16_le(&mut out, 0x1234);
    push_u16_be(&mut out, 0x1234);
    push_u32_le(&mut out, 0x89abcdef);
    push_u32_be(&mut out, 0x89abcdef);
    push_bytes(&mut out, &[1, 2]);
    assert_eq!(
        out,
        [0x34, 0x12, 0x12, 0x34, 0xef, 0xcd, 0xab, 0x89, 0x89, 0xab, 0xcd, 0xef, 1, 2],
    );
    assert_eq!(read_u16_le(&out, 0), 0x1234);
    assert_eq!(read_u16_be(&out, 2), 0x1234);
    assert_eq!(read_u32_le(&out, 4), 0x89abcdef);
    assert_eq!(read_u32_be(&out, 8), 0x89abcdef);
}

#[test]
fn signed_words_keep_their_bits() {
    for v in [i16::MIN, -1, 0, 1, i16::MAX] {
        assert_eq!(i16_to_bits(v), v as u16);
        assert_eq!(i16_from_bits(v as u16), v);
    }
    for v in [i8::MIN, -2, 0, i8::MAX] {
        assert_eq!(i8_to_bits(v), v as u8);
        assert_eq!(i8_from_bits(v as u8), v);
    }
    for v in [i32::MIN, -200, 0, i32::MAX] {
        assert_eq!(i32_to_bits(v), v as u32);
        assert_eq!(i32_from_bits(v as u32), v);
    }
}

#[test]
fn bytes_are_searched() {
    assert!(bytes_equal(b"abc", b"abc"));
    assert!(!bytes_equal(b"abc", b"ab"));
    assert!(bytes_start_with(b"GET /", b"GET "));
    assert_eq!(find_bytes(b"a\r\n\r\nb", b"\r\n\r\n"), Some(1));
    assert_eq!(find_bytes(b"ab", b"c"), None);
    assert_eq!(find_any_byte(b"a b?c", b"?c"), 3);
    assert_eq!(find_any_byte(b"ab", b"?"), 2);
    assert_eq!(find_other_byte(b"  x", b" "), 2);
    assert_eq!(find_other_byte(b"  ", b" "), 2);
}

#[test]
fn only_utf8_is_read_as_text() {
    assert_eq!(utf8_chars("grün".as_bytes()), Some(chars("grün")));
    assert_eq!(utf8_chars(&[]), Some(vec![]));
    assert_eq!(utf8_chars(&[0x61, 0xff]), None);
    assert_eq!(utf8_chars(&[0xc3]), None);
}

#[test]
fn a_written_name_is_read_back() {
    let mut out = vec![9, 9];
    push_name(&mut out, &[b"brewster", b"local"]);
    assert_eq!(&out[2..], b"\x08brewster\x05local\0");
    let (labels, end) = read_name(&out, 2).unwrap();
    assert_eq!(labels, vec![b"brewster".to_vec(), b"local".to_vec()]);
    assert_eq!(end, out.len());
    assert!(labels_are(&labels, 0, &[b"BREWSTER", b"Local"]));
    assert!(labels_are(&labels, 1, &[b"local"]));
    assert!(!labels_are(&labels, 0, &[b"local"]));
}

#[test]
fn a_compressed_name_is_followed() {
    let mut out = Vec::new();
    push_name(&mut out, &[b"local"]);
    let at = out.len();
    out.extend_from_slice(b"\x04host\xc0\x00rest");
    let (labels, end) = read_name(&out, at).unwrap();
    assert_eq!(labels, vec![b"host".to_vec(), b"local".to_vec()]);
    assert_eq!(end, at + 7);
    assert!(read_name(&[0xc0, 0x00], 0).is_none());
    assert!(read_name(&[0x40, 0x00], 0).is_none());
    assert!(read_name(&[3, b'a'], 0).is_none());
    assert!(read_name(&[], 0).is_none());
}

#[test]
fn a_written_record_is_read_back() {
    let mut out = Vec::new();
    push_announcement_header(&mut out, 1, 2);
    assert_eq!(out, [0, 0, 0x84, 0, 0, 0, 0, 1, 0, 0, 0, 2]);
    push_record(&mut out, &[b"a", b"local"], TYPE_A, CLASS_IN, 120, &[10, 0, 0, 7]);
    let record = read_record(&out, 12).unwrap();
    assert_eq!(record.labels, vec![b"a".to_vec(), b"local".to_vec()]);
    assert_eq!(record.rtype, TYPE_A);
    assert_eq!(record.data_len, 4);
    assert_eq!(&out[record.data_at..record.data_at + 4], &[10, 0, 0, 7]);
    let short = out.len() - 1;
    assert!(read_record(&out[..short], 12).is_none());
    assert_ne!(record.rtype, TYPE_TXT);
}

#[test]
fn letter_case_is_ignored_in_names() {
    assert!(bytes_eq_ascii_ignore_case(b"_Brewster", b"_bREWSTER"));
    assert!(!bytes_eq_ascii_ignore_case(b"a", b"ab"));
    assert!(!bytes_eq_ascii_ignore_case(b"[", b"{"));
}
