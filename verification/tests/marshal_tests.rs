use mirust::marshal::{
    buffer_content16, buffer_content8, finish_two_pass16, finish_two_pass8, pstr_to_string,
    pwstr_to_string, string_to_pstr, string_to_pwstr, two_pass_output_size,
};
use mirust::text::encode_utf16_units;

#[test]
fn read_wide_null_or_empty_is_empty_text() {
    assert_eq!(pwstr_to_string(None, 64), "");
    assert_eq!(pwstr_to_string(Some(&[0x41, 0x42]), 0), "");
    assert_eq!(pwstr_to_string(Some(&[0x41, 0x42]), 1), "");
}

#[test]
fn read_wide_stops_at_terminator() {
    let buf: [u16; 5] = [0x41, 0x42, 0, 0x43, 0x44];
    assert_eq!(pwstr_to_string(Some(&buf), 10), "AB");
}

#[test]
fn read_wide_without_terminator_takes_full_buffer() {
    let buf: [u16; 3] = [0x41, 0x42, 0x43];
    assert_eq!(pwstr_to_string(Some(&buf), 6), "ABC");
}

#[test]
fn read_wide_byte_capacity_rounds_down() {
    let buf: [u16; 3] = [0x41, 0x42, 0x43];
    // 5 bytes hold only two whole units.
    assert_eq!(pwstr_to_string(Some(&buf), 5), "AB");
}

#[test]
fn read_narrow_null_is_empty_text() {
    let converted: [u16; 2] = [0x41, 0];
    assert_eq!(pstr_to_string(None, &converted), "");
}

#[test]
fn read_narrow_decodes_converted_units() {
    let raw: [u8; 3] = [0x41, 0x42, 0];
    let converted: [u16; 3] = [0x41, 0x42, 0];
    assert_eq!(pstr_to_string(Some(&raw), &converted), "AB");
}

#[test]
fn write_wide_copies_and_terminates() {
    let mut buf: Vec<u16> = vec![0xEEEE; 5];
    string_to_pwstr("AB", &mut buf, 10);
    assert_eq!(buf, vec![0x41, 0x42, 0, 0xEEEE, 0xEEEE]);
}

#[test]
fn write_wide_truncates_to_capacity() {
    // Capacity of 3 units: two payload units, then the terminator in the
    // last writable slot; nothing beyond the capacity is touched.
    let mut buf: Vec<u16> = vec![0xEEEE; 3];
    string_to_pwstr("ABCDE", &mut buf, 6);
    assert_eq!(buf, vec![0x41, 0x42, 0]);
}

#[test]
fn write_wide_zero_capacity_is_untouched() {
    // One byte holds no whole unit: nothing is written, nothing panics.
    let mut buf: Vec<u16> = Vec::new();
    string_to_pwstr("AB", &mut buf, 1);
    assert_eq!(buf, Vec::<u16>::new());
    let mut buf: Vec<u16> = Vec::new();
    string_to_pwstr("AB", &mut buf, 0);
    assert_eq!(buf, Vec::<u16>::new());
}

#[test]
fn write_narrow_zero_capacity_is_untouched() {
    let mut buf: Vec<u8> = Vec::new();
    string_to_pstr(&[0x41, 0x42, 0], &mut buf, 0);
    assert_eq!(buf, Vec::<u8>::new());
}

#[test]
fn write_wide_empty_text_writes_lone_terminator() {
    let mut buf: Vec<u16> = vec![0xEEEE; 2];
    string_to_pwstr("", &mut buf, 4);
    assert_eq!(buf, vec![0, 0xEEEE]);
}

#[test]
fn write_then_read_wide_round_trips() {
    let text = "plain and \u{20AC}\u{1F600}";
    let mut buf: Vec<u16> = vec![0xEEEE; 32];
    string_to_pwstr(text, &mut buf, 64);
    assert_eq!(pwstr_to_string(Some(&buf), 64), text);
}

#[test]
fn write_narrow_copies_and_terminates() {
    let mut buf: Vec<u8> = vec![0xEE; 6];
    string_to_pstr(&[0x41, 0x42, 0], &mut buf, 6);
    assert_eq!(buf, vec![0x41, 0x42, 0, 0, 0xEE, 0xEE]);
}

#[test]
fn write_narrow_truncates_to_capacity() {
    let mut buf: Vec<u8> = vec![0xEE; 3];
    string_to_pstr(&[0x41, 0x42, 0x43, 0x44, 0], &mut buf, 3);
    assert_eq!(buf, vec![0x41, 0x42, 0]);
}

#[test]
fn content_scan_narrow() {
    assert_eq!(buffer_content8(&[0x41, 0x42, 0, 0x43], 4), vec![0x41, 0x42]);
    assert_eq!(buffer_content8(&[0x41, 0x42, 0x43], 2), vec![0x41, 0x42]);
    assert_eq!(buffer_content8(&[], 8), Vec::<u8>::new());
    assert_eq!(buffer_content8(&[0], 1), Vec::<u8>::new());
}

#[test]
fn content_scan_wide() {
    assert_eq!(buffer_content16(&[0x41, 0, 0x42]), vec![0x41]);
    assert_eq!(buffer_content16(&[0x41, 0x42]), vec![0x41, 0x42]);
}

#[test]
fn two_pass_sizing() {
    assert_eq!(two_pass_output_size(-1), None);
    assert_eq!(two_pass_output_size(0), None);
    assert_eq!(two_pass_output_size(3), Some(4));
}

#[test]
fn two_pass_finish_is_fail_soft() {
    // A failed second pass, or a nonsensical written count, yields the
    // single-terminator empty result.
    assert_eq!(finish_two_pass16(vec![0x41, 0x42, 0], 0), vec![0]);
    assert_eq!(finish_two_pass16(vec![0x41, 0x42, 0], -2), vec![0]);
    assert_eq!(finish_two_pass16(vec![0x41, 0x42, 0], 3), vec![0]);
    assert_eq!(finish_two_pass8(vec![0x41, 0x42, 0], 0), vec![0]);
    assert_eq!(finish_two_pass8(vec![0x41, 0x42, 0], 9), vec![0]);
}

#[test]
fn two_pass_finish_terminates_and_truncates() {
    assert_eq!(finish_two_pass16(vec![0x41, 0x42, 0x77], 2), vec![0x41, 0x42, 0]);
    assert_eq!(finish_two_pass8(vec![0x41, 0x42, 0x77, 0x78], 2), vec![0x41, 0x42, 0]);
}

#[test]
fn encoded_text_through_wide_write() {
    // The write takes the UTF-16 encoding of the text, so what lands in the
    // buffer is the encoding itself, terminated.
    let text = "\u{1F600}";
    let units = encode_utf16_units(text);
    let mut buf: Vec<u16> = vec![0xEEEE; 4];
    string_to_pwstr(text, &mut buf, 8);
    assert_eq!(&buf[..2], &units[..]);
    assert_eq!(buf[2], 0);
}
