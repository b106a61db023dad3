use ygopro::utf16::{str_to_utf16_buffer, u8_utf16_buffer_to_str};

const F: u16 = 0xcccc;

fn le_bytes(units: &[u16]) -> Vec<u8> {
    units.iter().flat_map(|u| u.to_le_bytes()).collect()
}

#[test]
fn writes_ascii_with_terminator() {
    let mut v = [F; 5];
    str_to_utf16_buffer("abc", &mut v);
    assert_eq!(v, [97, 98, 99, 0, F]);
}

#[test]
fn exact_fit_has_no_terminator() {
    let mut v = [F; 5];
    str_to_utf16_buffer("abcde", &mut v);
    assert_eq!(v, [97, 98, 99, 100, 101]);
}

#[test]
fn long_text_is_cut_at_buffer_length_in_bytes() {
    let mut v = [F; 5];
    str_to_utf16_buffer("abcdefg", &mut v);
    assert_eq!(v, [97, 98, 99, 100, 101]);
}

#[test]
fn empty_text_writes_terminator_only() {
    let mut v = [F; 3];
    str_to_utf16_buffer("", &mut v);
    assert_eq!(v, [0, F, F]);
}

#[test]
fn two_byte_character() {
    let mut v = [F; 4];
    str_to_utf16_buffer("é", &mut v);
    assert_eq!(v, [0xe9, 0, F, F]);
}

#[test]
fn cut_counts_utf8_bytes_not_units() {
    // "éé" is 4 bytes of UTF-8 and 2 units; a 2-unit buffer takes 2 bytes.
    let mut v = [F; 2];
    str_to_utf16_buffer("éé", &mut v);
    assert_eq!(v, [0xe9, 0]);
}

#[test]
fn supplementary_character_becomes_surrogate_pair() {
    let mut v = [F; 4];
    str_to_utf16_buffer("😀", &mut v);
    assert_eq!(v, [0xD83D, 0xDE00, 0, F]);
}

#[test]
fn reads_text_before_nul() {
    let bytes = le_bytes(&[104, 105, 0, 120]);
    assert_eq!(u8_utf16_buffer_to_str(&bytes), "hi");
}

#[test]
fn reads_whole_buffer_without_nul() {
    let bytes = le_bytes(&[104, 105]);
    assert_eq!(u8_utf16_buffer_to_str(&bytes), "hi");
}

#[test]
fn odd_last_byte_is_left_out() {
    let mut bytes = le_bytes(&[104, 105]);
    bytes.push(120);
    assert_eq!(u8_utf16_buffer_to_str(&bytes), "hi");
}

#[test]
fn surrogate_pair_is_decoded() {
    let bytes = le_bytes(&[0xD83D, 0xDE00, 33]);
    assert_eq!(u8_utf16_buffer_to_str(&bytes), "😀!");
}

#[test]
fn lone_surrogates_become_replacement_characters() {
    let bytes = le_bytes(&[0xDE00, 97, 0xD83D, 98, 0xD83D]);
    assert_eq!(u8_utf16_buffer_to_str(&bytes), "\u{FFFD}a\u{FFFD}b\u{FFFD}");
}

#[test]
fn filler_units_after_text_are_read_without_terminator() {
    let bytes = le_bytes(&[97, F]);
    assert_eq!(u8_utf16_buffer_to_str(&bytes), "a\u{cccc}");
}

#[test]
fn empty_buffer_reads_empty_text() {
    assert_eq!(u8_utf16_buffer_to_str(&[]), "");
}

#[test]
fn written_text_reads_back() {
    for s in ["", "sktt1faker", "TM999#ccc", "日本語の名前", "a😀b", "abcdefghijklmnopqrstuvwxyz"] {
        let mut v = [F; 20];
        str_to_utf16_buffer(s, &mut v);
        let back = u8_utf16_buffer_to_str(&le_bytes(&v));
        let mut cut = 20.min(s.len());
        while !s.is_char_boundary(cut) {
            cut -= 1;
        }
        assert_eq!(back, &s[..cut]);
    }
}

#[test]
fn bytes_after_nul_unit_do_not_matter() {
    let v = le_bytes(&[104, 105, 0]);
    for w in [vec![], vec![1], vec![0x3d, 0xd8, 0x00, 0xde], vec![65, 0, 66]] {
        let joined = [v.clone(), w].concat();
        assert_eq!(u8_utf16_buffer_to_str(&joined), u8_utf16_buffer_to_str(&v));
    }
}
