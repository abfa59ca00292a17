use mirust::text::{decode_utf16_units, encode_utf16_units};

#[test]
fn encode_basic_plane() {
    assert_eq!(encode_utf16_units("Ab"), vec![0x41, 0x62]);
    assert_eq!(encode_utf16_units(""), Vec::<u16>::new());
}

#[test]
fn encode_surrogate_pair() {
    // U+1F600 encodes as the pair D83D DE00.
    assert_eq!(encode_utf16_units("\u{1F600}"), vec![0xD83D, 0xDE00]);
    // U+20AC is still one unit.
    assert_eq!(encode_utf16_units("\u{20AC}"), vec![0x20AC]);
}

#[test]
fn decode_basic_plane() {
    assert_eq!(decode_utf16_units(&[0x41, 0x62]), "Ab");
    assert_eq!(decode_utf16_units(&[]), "");
}

#[test]
fn decode_surrogate_pair() {
    assert_eq!(decode_utf16_units(&[0xD83D, 0xDE00]), "\u{1F600}");
}

#[test]
fn decode_replaces_ill_formed_units() {
    // A lone lead surrogate, a lone trail surrogate, and a lead followed by
    // a non-trail each decode to one replacement marker.
    assert_eq!(decode_utf16_units(&[0xD83D]), "\u{FFFD}");
    assert_eq!(decode_utf16_units(&[0xDE00, 0x41]), "\u{FFFD}A");
    assert_eq!(decode_utf16_units(&[0xD83D, 0x41]), "\u{FFFD}A");
}

#[test]
fn decode_encode_round_trip() {
    let text = "mIRC \u{20AC}\u{1F600} plugin";
    assert_eq!(decode_utf16_units(&encode_utf16_units(text)), text);
}
