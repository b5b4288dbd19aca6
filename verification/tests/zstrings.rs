//! The compressed-text codec and the dictionary.

use rusty_z::memory_view::MemoryView;
use rusty_z::zstring::{Alphabet, ZString, ZWord};

fn image() -> Vec<u8> {
    vec![0u8; 0x1000]
}

/// ZString decode: the single word 0x9AC6 (high bit set, Z-characters
/// 6, 22, 6) decodes under alphabet A0 to three characters, and the high
/// bit alone ends the string.
#[test]
fn zstring_decode() {
    let mut mem = image();
    mem[0x200] = 0x9A;
    mem[0x201] = 0xC6;
    let view = MemoryView { pointer: 0x200 };
    let abbrev = MemoryView { pointer: 0x500 };
    let z = ZString::create(0, &view, &abbrev, &mem).unwrap();
    let text: String = z.chars.iter().collect();
    assert_eq!(text, "aqa");
    assert_eq!(z.encoded_length, 2);
    assert_eq!(z.bytes, vec![6, 22, 6]);
}

/// A word without the high bit continues into the next word; the first
/// high-bit word is the sole terminator.
#[test]
fn zstring_decode_two_words() {
    let mut mem = image();
    // 0x1AC6: a q a ; 0x9AC6: a q a with the end bit.
    mem[0x200] = 0x1A;
    mem[0x201] = 0xC6;
    mem[0x202] = 0x9A;
    mem[0x203] = 0xC6;
    let view = MemoryView { pointer: 0x200 };
    let abbrev = MemoryView { pointer: 0x500 };
    let z = ZString::create(0, &view, &abbrev, &mem).unwrap();
    let text: String = z.chars.iter().collect();
    assert_eq!(text, "aqaaqa");
    assert_eq!(z.encoded_length, 4);
}

/// Shifts reach the upper-case and punctuation alphabets for one character.
#[test]
fn zstring_shift_decoding() {
    let mut mem = image();
    // Z-characters: 4 (shift to A1), 6 ('A'), 6 ('a') ->
    // word0 = 4<<10 | 6<<5 | 6, end bit set.
    let w = (4u16 << 10) | (6 << 5) | 6;
    mem[0x200] = ((w >> 8) as u8) | 0x80;
    mem[0x201] = w as u8;
    let view = MemoryView { pointer: 0x200 };
    let abbrev = MemoryView { pointer: 0x500 };
    let z = ZString::create(0, &view, &abbrev, &mem).unwrap();
    let text: String = z.chars.iter().collect();
    assert_eq!(text, "Aa");
}

/// Abbreviations substitute the Z-string named in the abbreviations table.
#[test]
fn zstring_abbreviation_expansion() {
    let mut mem = image();
    // Abbreviation shift 1 with index 1 names entry 32 * (1 - 1) + 1 = 1,
    // whose packed address 0x150 unpacks to 0x2A0, holding "aqa".
    mem[0x500 + 2] = 0x01;
    mem[0x500 + 3] = 0x50;
    mem[0x2A0] = 0x9A;
    mem[0x2A1] = 0xC6;
    // Main string: z-chars 1 (abbreviation shift), 1 (index), 6 ('a').
    let w = (1u16 << 10) | (1 << 5) | 6;
    mem[0x200] = ((w >> 8) as u8) | 0x80;
    mem[0x201] = w as u8;
    let view = MemoryView { pointer: 0x200 };
    let abbrev = MemoryView { pointer: 0x500 };
    let z = ZString::create(0, &view, &abbrev, &mem).unwrap();
    let text: String = z.chars.iter().collect();
    assert_eq!(text, "aqaa");
}

/// ZSCII: ASCII passes through, 13 is a newline, 0 and unknown codes print
/// nothing, and the named Latin letters sit at 155 and up.
#[test]
fn zscii_table() {
    assert_eq!(ZString::decode_zscii(65), Some('A'));
    assert_eq!(ZString::decode_zscii(13), Some('\n'));
    assert_eq!(ZString::decode_zscii(0), None);
    assert_eq!(ZString::decode_zscii(5), None);
    assert_eq!(ZString::decode_zscii(155), Some('ä'));
    assert_eq!(ZString::decode_zscii(223), Some('¿'));
    assert_eq!(ZString::decode_zscii(300), None);
}

/// The letter maps: lowercase in A0, uppercase in A1, digits and
/// punctuation in A2, space at 0.
#[test]
fn zchar_letter_maps() {
    assert_eq!(ZString::decode_char(6, &Alphabet::A0), 'a');
    assert_eq!(ZString::decode_char(31, &Alphabet::A0), 'z');
    assert_eq!(ZString::decode_char(6, &Alphabet::A1), 'A');
    assert_eq!(ZString::decode_char(7, &Alphabet::A2), '\n');
    assert_eq!(ZString::decode_char(8, &Alphabet::A2), '0');
    assert_eq!(ZString::decode_char(31, &Alphabet::A2), ')');
    assert_eq!(ZString::decode_char(0, &Alphabet::A0), ' ');
}

/// Encoding a word packs exactly six Z-characters into two words with the
/// end bit on the second.
#[test]
fn encode_word_hello() {
    let word: Vec<char> = "hello".chars().collect();
    match ZString::encode_word(&word, 3) {
        ZWord::V3 { decoded, encoded } => {
            assert_eq!(decoded, [13, 10, 17, 17, 20, 5]);
            assert_eq!(encoded[0], (13 << 10) | (10 << 5) | 17);
            assert_eq!(encoded[1], 0x8000 | (17 << 10) | (20 << 5) | 5);
        }
        _ => panic!("expected the two-word form"),
    }
}

/// A long word is truncated at six Z-characters; a short one is padded
/// with shift characters.
#[test]
fn encode_word_truncates_and_pads() {
    let long: Vec<char> = "abcdefgh".chars().collect();
    match ZString::encode_word(&long, 3) {
        ZWord::V3 { decoded, .. } => assert_eq!(decoded, [6, 7, 8, 9, 10, 11]),
        _ => panic!("expected the two-word form"),
    }
    let short: Vec<char> = "ab".chars().collect();
    match ZString::encode_word(&short, 3) {
        ZWord::V3 { decoded, .. } => assert_eq!(decoded, [6, 7, 5, 5, 5, 5]),
        _ => panic!("expected the two-word form"),
    }
    let upper: Vec<char> = "Ab".chars().collect();
    match ZString::encode_word(&upper, 3) {
        ZWord::V3 { decoded, .. } => assert_eq!(decoded, [4, 6, 7, 5, 5, 5]),
        _ => panic!("expected the two-word form"),
    }
}

/// The encoded 4-byte forms compare in dictionary order: encoding sorts
/// words the way their Z-characters sort.
#[test]
fn encoded_forms_order_like_words() {
    let key = |s: &str| -> u32 {
        let chars: Vec<char> = s.chars().collect();
        match ZString::encode_word(&chars, 3) {
            ZWord::V3 { encoded, .. } => ((encoded[0] as u32) << 16) | encoded[1] as u32,
            _ => panic!("expected the two-word form"),
        }
    };
    assert!(key("apple") < key("apply"));
    assert!(key("apple") < key("banana"));
    assert!(key("zebra") > key("zeal"));
    assert_eq!(key("same"), key("same"));
    // Truncation makes over-long words compare by their first six
    // Z-characters.
    assert_eq!(key("abcdefxx"), key("abcdefyy"));
}

/// Abbreviation fetch through the public lookup helper.
#[test]
fn find_abbreviation_reads_table() {
    let mut mem = image();
    mem[0x500 + 2] = 0x01;
    mem[0x500 + 3] = 0x50;
    mem[0x2A0] = 0x9A;
    mem[0x2A1] = 0xC6;
    let abbrev = MemoryView { pointer: 0x500 };
    let z = ZString::find_abbreviation(1, 1, &abbrev, &mem).unwrap();
    let text: String = z.chars.iter().collect();
    assert_eq!(text, "aqa");
}

/// An unterminated Z-string that runs off the image is a fatal address
/// error.
#[test]
fn unterminated_zstring_is_fatal() {
    let mem = image(); // all zero: no end bit anywhere
    let view = MemoryView { pointer: 0xFFE };
    let abbrev = MemoryView { pointer: 0x500 };
    assert!(ZString::create(0, &view, &abbrev, &mem).is_err());
}
