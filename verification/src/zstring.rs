//! The compressed-text ("ZString") codec.
//!
//! A Z-string is a sequence of 16-bit words, each packing three 5-bit
//! Z-characters; the high bit of a word marks the end of the string.
//! Decoding runs a small state machine over the Z-characters: an alphabet
//! latch, a two-character "big character" (ZSCII) builder, and a
//! two-character abbreviation builder.  Encoding turns a word of text into
//! exactly six Z-characters (truncated or padded with shift characters) and
//! packs them into the two-word, four-byte dictionary form.

use vstd::prelude::*;

use crate::FatalError;
use crate::memory_view::{MemoryView, image_sized, word_at};

verus! {

/// The three Z-character alphabets: lowercase, uppercase, and
/// punctuation/digits.
#[derive(Clone, Copy, Debug, PartialEq, Eq, Structural)]
pub enum Alphabet {
    A0,
    A1,
    A2,
}

/// The alphabet reached from `a` by shift character `shift` (4 or 5).
pub open spec fn spec_next_alphabet(a: Alphabet, shift: u8) -> Alphabet {
    match (a, shift) {
        (Alphabet::A0, 4) => Alphabet::A1,
        (Alphabet::A0, _) => Alphabet::A2,
        (Alphabet::A1, 4) => Alphabet::A2,
        (Alphabet::A1, _) => Alphabet::A0,
        (Alphabet::A2, 4) => Alphabet::A0,
        (Alphabet::A2, _) => Alphabet::A1,
    }
}

impl Alphabet {
    /// Follows one shift character (4 or 5) to the next alphabet.
    pub fn next_alphabet(&self, shift_char: u8) -> (r: Alphabet)
        requires
            shift_char == 4 || shift_char == 5,
        ensures
            r == spec_next_alphabet(*self, shift_char),
    {
        match (*self, shift_char) {
            (Alphabet::A0, 4) => Alphabet::A1,
            (Alphabet::A0, _) => Alphabet::A2,
            (Alphabet::A1, 4) => Alphabet::A2,
            (Alphabet::A1, _) => Alphabet::A0,
            (Alphabet::A2, 4) => Alphabet::A0,
            (Alphabet::A2, _) => Alphabet::A1,
        }
    }
}

/// The letter for Z-character `ch` (6 to 31) in alphabet `a`, with Z-character
/// 0 as a space.  The A2 tables start at 7; position 6 of A2 is the
/// big-character escape and never reaches this map.
pub open spec fn spec_decode_char(ch: u8, a: Alphabet) -> char {
    if ch == 0 {
        ' '
    } else {
        match a {
            Alphabet::A0 => (((ch - 6) + 97) as u8) as char,
            Alphabet::A1 => (((ch - 6) + 65) as u8) as char,
            Alphabet::A2 => {
                if ch == 7 {
                    '\n'
                } else if 8 <= ch <= 17 {
                    (((ch - 8) + 48) as u8) as char
                } else if ch == 18 {
                    '.'
                } else if ch == 19 {
                    ','
                } else if ch == 20 {
                    '!'
                } else if ch == 21 {
                    '?'
                } else if ch == 22 {
                    '_'
                } else if ch == 23 {
                    '#'
                } else if ch == 24 {
                    '\''
                } else if ch == 25 {
                    '"'
                } else if ch == 26 {
                    '/'
                } else if ch == 27 {
                    '\\'
                } else if ch == 28 {
                    '-'
                } else if ch == 29 {
                    ':'
                } else if ch == 30 {
                    '('
                } else {
                    ')'
                }
            },
        }
    }
}

/// The ZSCII table: ASCII 32-126 pass through, 13 is a newline, 155-223 are
/// named Latin letters, everything else is ignored.
pub open spec fn spec_decode_zscii(ch: u16) -> Option<char> {
    if ch == 13 {
        Some('\n')
    } else if 32 <= ch <= 126 {
        Some((ch as u8) as char)
    } else if 155 <= ch <= 223 {
        Some(spec_zscii_extended(ch))
    } else {
        None
    }
}

/// The extended Latin-1 letters at ZSCII 155 to 223.
pub open spec fn spec_zscii_extended(ch: u16) -> char {
    if ch == 155 { 'ä' } else if ch == 156 { 'ö' } else if ch == 157 { 'ü' }
    else if ch == 158 { 'Ä' } else if ch == 159 { 'Ö' } else if ch == 160 { 'Ü' }
    else if ch == 161 { 'ß' } else if ch == 162 { '»' } else if ch == 163 { '«' }
    else if ch == 164 { 'ë' } else if ch == 165 { 'ï' } else if ch == 166 { 'ÿ' }
    else if ch == 167 { 'Ë' } else if ch == 168 { 'Ï' } else if ch == 169 { 'á' }
    else if ch == 170 { 'é' } else if ch == 171 { 'í' } else if ch == 172 { 'ó' }
    else if ch == 173 { 'ú' } else if ch == 174 { 'ý' } else if ch == 175 { 'Á' }
    else if ch == 176 { 'É' } else if ch == 177 { 'Í' } else if ch == 178 { 'Ó' }
    else if ch == 179 { 'Ú' } else if ch == 180 { 'Ý' } else if ch == 181 { 'à' }
    else if ch == 182 { 'è' } else if ch == 183 { 'ì' } else if ch == 184 { 'ò' }
    else if ch == 185 { 'ù' } else if ch == 186 { 'À' } else if ch == 187 { 'È' }
    else if ch == 188 { 'Ì' } else if ch == 189 { 'Ò' } else if ch == 190 { 'Ù' }
    else if ch == 191 { 'â' } else if ch == 192 { 'ê' } else if ch == 193 { 'î' }
    else if ch == 194 { 'ô' } else if ch == 195 { 'û' } else if ch == 196 { 'Â' }
    else if ch == 197 { 'Ê' } else if ch == 198 { 'Î' } else if ch == 199 { 'Ô' }
    else if ch == 200 { 'Û' } else if ch == 201 { 'å' } else if ch == 202 { 'Å' }
    else if ch == 203 { 'ø' } else if ch == 204 { 'Ø' } else if ch == 205 { 'ã' }
    else if ch == 206 { 'ñ' } else if ch == 207 { 'õ' } else if ch == 208 { 'Ã' }
    else if ch == 209 { 'Ñ' } else if ch == 210 { 'Õ' } else if ch == 211 { 'æ' }
    else if ch == 212 { 'Æ' } else if ch == 213 { 'ç' } else if ch == 214 { 'Ç' }
    else if ch == 215 { 'þ' } else if ch == 216 { 'ð' } else if ch == 217 { 'Þ' }
    else if ch == 218 { 'Ð' } else if ch == 219 { '£' } else if ch == 220 { 'œ' }
    else if ch == 221 { 'Œ' } else if ch == 222 { '¡' } else { '¿' }
}

/// The words of the Z-string starting at `a`: words up to and including the
/// first word with its high bit set; reading stops early at the image edge.
pub open spec fn zstring_words(mem: Seq<u8>, a: int) -> Seq<u16>
    decreases mem.len() - a,
{
    if !(0 <= a && a + 1 < mem.len()) {
        Seq::empty()
    } else {
        let w = word_at(mem, a) as u16;
        if w >= 0x8000 {
            seq![w]
        } else {
            seq![w] + zstring_words(mem, a + 2)
        }
    }
}

/// The Z-string starting at `a` terminates before the image edge.
pub open spec fn zstring_words_ok(mem: Seq<u8>, a: int) -> bool
    decreases mem.len() - a,
{
    if !(0 <= a && a + 1 < mem.len()) {
        false
    } else if word_at(mem, a) >= 0x8000 {
        true
    } else {
        zstring_words_ok(mem, a + 2)
    }
}

/// Z-character `k` (0, 1 or 2) of the word `w`: bits 14-10, 9-5 and 4-0.
pub open spec fn zchar_of_word(w: u16, k: int) -> u8 {
    if k == 0 {
        ((w / 1024) % 32) as u8
    } else if k == 1 {
        ((w / 32) % 32) as u8
    } else {
        (w % 32) as u8
    }
}

/// The Z-characters of a word sequence, three per word, in order.
pub open spec fn zchars_of_words(ws: Seq<u16>) -> Seq<u8> {
    Seq::new((3 * ws.len()) as nat, |k: int| zchar_of_word(ws[k / 3], k % 3))
}

/// The decoder state machine, from position `i` of `zchars` with alphabet
/// `alph`, big-character state `big` (`Some(None)` after the escape,
/// `Some(Some(u))` holding the upper half) and abbreviation state `abbrev`
/// (holding the shift 1-3).  Abbreviation expansions are read from `mem` at
/// the table `abbrev_ptr`; with `allow_abbrev` false they expand to nothing,
/// so abbreviations never recurse.
pub open spec fn spec_decode(
    zchars: Seq<u8>,
    i: int,
    alph: Alphabet,
    big: Option<Option<u8>>,
    abbrev: Option<u8>,
    mem: Seq<u8>,
    abbrev_ptr: int,
    allow_abbrev: bool,
) -> Seq<char>
    decreases (if allow_abbrev { 1int } else { 0int }), zchars.len() - i,
{
    if !(0 <= i < zchars.len()) {
        Seq::empty()
    } else {
        let ch = zchars[i];
        if let Some(pending) = big {
            match pending {
                None => spec_decode(
                    zchars,
                    i + 1,
                    alph,
                    Some(Some(ch)),
                    abbrev,
                    mem,
                    abbrev_ptr,
                    allow_abbrev,
                ),
                Some(upper) => {
                    let code = ((upper % 32) * 32 + (ch % 32)) as u16;
                    (match spec_decode_zscii(code) {
                        Some(c) => seq![c],
                        None => Seq::empty(),
                    }) + spec_decode(
                        zchars,
                        i + 1,
                        Alphabet::A0,
                        None,
                        abbrev,
                        mem,
                        abbrev_ptr,
                        allow_abbrev,
                    )
                },
            }
        } else if let Some(z) = abbrev {
            (if allow_abbrev {
                spec_abbreviation(mem, abbrev_ptr, z, ch)
            } else {
                Seq::empty()
            }) + spec_decode(zchars, i + 1, Alphabet::A0, None, None, mem, abbrev_ptr, allow_abbrev)
        } else if ch == 0 {
            seq![' '] + spec_decode(
                zchars,
                i + 1,
                Alphabet::A0,
                None,
                None,
                mem,
                abbrev_ptr,
                allow_abbrev,
            )
        } else if 1 <= ch <= 3 {
            spec_decode(zchars, i + 1, alph, None, Some(ch), mem, abbrev_ptr, allow_abbrev)
        } else if ch == 4 || ch == 5 {
            spec_decode(
                zchars,
                i + 1,
                spec_next_alphabet(alph, ch),
                None,
                None,
                mem,
                abbrev_ptr,
                allow_abbrev,
            )
        } else if ch == 6 && alph == Alphabet::A2 {
            spec_decode(zchars, i + 1, alph, Some(None), None, mem, abbrev_ptr, allow_abbrev)
        } else {
            seq![spec_decode_char(ch, alph)] + spec_decode(
                zchars,
                i + 1,
                Alphabet::A0,
                None,
                None,
                mem,
                abbrev_ptr,
                allow_abbrev,
            )
        }
    }
}

/// The expansion of abbreviation `32 * (z - 1) + index`: the Z-string at the
/// packed address in the abbreviations table, decoded with abbreviations
/// disabled.
pub open spec fn spec_abbreviation(mem: Seq<u8>, abbrev_ptr: int, z: u8, index: u8) -> Seq<char>
    decreases 0int,
        zchars_of_words(
            zstring_words(mem, word_at(mem, abbrev_ptr + 2 * (32 * (z - 1) + index)) * 2),
        ).len() + 1,
{
    let entry = abbrev_ptr + 2 * (32 * (z - 1) + index);
    if !(0 <= entry && entry + 1 < mem.len()) {
        Seq::empty()
    } else {
        let address = word_at(mem, entry) * 2;
        let zchars = zchars_of_words(zstring_words(mem, address));
        spec_decode(zchars, 0, Alphabet::A0, None, None, mem, abbrev_ptr, false)
    }
}

/// Whether decoding `zchars` from `i` succeeds: every abbreviation it
/// triggers names a table entry inside the image whose Z-string terminates
/// inside the image.
pub open spec fn spec_decode_ok(
    zchars: Seq<u8>,
    i: int,
    alph: Alphabet,
    big: Option<Option<u8>>,
    abbrev: Option<u8>,
    mem: Seq<u8>,
    abbrev_ptr: int,
    allow_abbrev: bool,
) -> bool
    decreases zchars.len() - i,
{
    if !(0 <= i < zchars.len()) {
        true
    } else {
        let ch = zchars[i];
        if let Some(pending) = big {
            match pending {
                None => spec_decode_ok(
                    zchars,
                    i + 1,
                    alph,
                    Some(Some(ch)),
                    abbrev,
                    mem,
                    abbrev_ptr,
                    allow_abbrev,
                ),
                Some(upper) => spec_decode_ok(
                    zchars,
                    i + 1,
                    Alphabet::A0,
                    None,
                    abbrev,
                    mem,
                    abbrev_ptr,
                    allow_abbrev,
                ),
            }
        } else if let Some(z) = abbrev {
            let entry = abbrev_ptr + 2 * (32 * (z - 1) + ch);
            (!allow_abbrev || (0 <= entry && entry + 1 < mem.len() && zstring_words_ok(
                mem,
                word_at(mem, entry) * 2,
            ))) && spec_decode_ok(
                zchars,
                i + 1,
                Alphabet::A0,
                None,
                None,
                mem,
                abbrev_ptr,
                allow_abbrev,
            )
        } else if ch == 0 || (6 <= ch && !(ch == 6 && alph == Alphabet::A2)) {
            spec_decode_ok(zchars, i + 1, Alphabet::A0, None, None, mem, abbrev_ptr, allow_abbrev)
        } else if 1 <= ch <= 3 {
            spec_decode_ok(zchars, i + 1, alph, None, Some(ch), mem, abbrev_ptr, allow_abbrev)
        } else if ch == 4 || ch == 5 {
            spec_decode_ok(
                zchars,
                i + 1,
                spec_next_alphabet(alph, ch),
                None,
                None,
                mem,
                abbrev_ptr,
                allow_abbrev,
            )
        } else {
            spec_decode_ok(zchars, i + 1, alph, Some(None), None, mem, abbrev_ptr, allow_abbrev)
        }
    }
}

/// With abbreviations disabled the decoder never touches the image, so it
/// cannot fail.
pub proof fn lemma_decode_ok_no_abbrev(
    zchars: Seq<u8>,
    i: int,
    alph: Alphabet,
    big: Option<Option<u8>>,
    abbrev: Option<u8>,
    mem: Seq<u8>,
    abbrev_ptr: int,
)
    ensures
        spec_decode_ok(zchars, i, alph, big, abbrev, mem, abbrev_ptr, false),
    decreases zchars.len() - i,
{
    if 0 <= i < zchars.len() {
        let ch = zchars[i];
        if let Some(pending) = big {
            match pending {
                None => lemma_decode_ok_no_abbrev(
                    zchars,
                    i + 1,
                    alph,
                    Some(Some(ch)),
                    abbrev,
                    mem,
                    abbrev_ptr,
                ),
                Some(upper) => lemma_decode_ok_no_abbrev(
                    zchars,
                    i + 1,
                    Alphabet::A0,
                    None,
                    abbrev,
                    mem,
                    abbrev_ptr,
                ),
            }
        } else if let Some(z) = abbrev {
            lemma_decode_ok_no_abbrev(zchars, i + 1, Alphabet::A0, None, None, mem, abbrev_ptr);
        } else if ch == 0 || (6 <= ch && !(ch == 6 && alph == Alphabet::A2)) {
            lemma_decode_ok_no_abbrev(zchars, i + 1, Alphabet::A0, None, None, mem, abbrev_ptr);
        } else if 1 <= ch <= 3 {
            lemma_decode_ok_no_abbrev(zchars, i + 1, alph, None, Some(ch), mem, abbrev_ptr);
        } else if ch == 4 || ch == 5 {
            lemma_decode_ok_no_abbrev(
                zchars,
                i + 1,
                spec_next_alphabet(alph, ch),
                None,
                None,
                mem,
                abbrev_ptr,
            );
        } else {
            lemma_decode_ok_no_abbrev(zchars, i + 1, alph, Some(None), None, mem, abbrev_ptr);
        }
    }
}

/// A decoded Z-string: its raw Z-characters, its text, and how many bytes of
/// the image its words occupied.
pub struct ZString {
    /// The unpacked 5-bit Z-characters, three per encoded word.
    pub bytes: Vec<u8>,
    /// The decoded text.
    pub chars: Vec<char>,
    /// The length of the encoded form in bytes (twice the word count).
    pub encoded_length: u32,
}

/// An encoded dictionary word.  Versions 1-3 use the 6-Z-character, two-word
/// form; the 9-character, three-word form belongs to versions 4 and up, which
/// are out of scope here.
pub enum ZWord {
    V3 { decoded: [u8; 6], encoded: [u16; 2] },
    V4 { decoded: [u8; 9], encoded: [u16; 3] },
}

/// The 1-or-2 Z-character encoding of one text character: lowercase letters
/// map straight into A0, uppercase pairs with a shift 4, digits and
/// punctuation pair with a shift 5, anything else encodes to nothing.
pub open spec fn spec_encode_char(c: char) -> Seq<u8> {
    let u = c as u32;
    if 97 <= u <= 122 {
        seq![((u - 97) + 6) as u8]
    } else if 65 <= u <= 90 {
        seq![4u8, ((u - 65) + 6) as u8]
    } else if 48 <= u <= 57 {
        seq![5u8, ((u - 48) + 8) as u8]
    } else if c == '\n' {
        seq![5u8, 7u8]
    } else if c == '.' {
        seq![5u8, 18u8]
    } else if c == ',' {
        seq![5u8, 19u8]
    } else if c == '!' {
        seq![5u8, 20u8]
    } else if c == '?' {
        seq![5u8, 21u8]
    } else if c == '_' {
        seq![5u8, 22u8]
    } else if c == '#' {
        seq![5u8, 23u8]
    } else if c == '\'' {
        seq![5u8, 24u8]
    } else if c == '"' {
        seq![5u8, 25u8]
    } else if c == '/' {
        seq![5u8, 26u8]
    } else if c == '\\' {
        seq![5u8, 27u8]
    } else if c == '-' {
        seq![5u8, 28u8]
    } else if c == ':' {
        seq![5u8, 29u8]
    } else if c == '(' {
        seq![5u8, 30u8]
    } else if c == ')' {
        seq![5u8, 31u8]
    } else {
        Seq::empty()
    }
}

/// The Z-characters of a whole text, character encodings concatenated.
pub open spec fn zchars_of_str(s: Seq<char>) -> Seq<u8>
    decreases s.len(),
{
    if s.len() == 0 {
        Seq::empty()
    } else {
        spec_encode_char(s[0]) + zchars_of_str(s.drop_first())
    }
}

/// Exactly six Z-characters for the dictionary form: the text's Z-characters
/// truncated at six, or padded with shift characters (5, which are benign).
pub open spec fn dict_zchars(s: Seq<char>) -> Seq<u8> {
    let z = zchars_of_str(s);
    if z.len() >= 6 {
        z.take(6)
    } else {
        z + Seq::new((6 - z.len()) as nat, |k: int| 5u8)
    }
}

/// Three 5-bit Z-characters packed into one word: `a` in bits 14-10, `b` in
/// bits 9-5, `c` in bits 4-0.
pub open spec fn pack_zchars(a: u8, b: u8, c: u8) -> u16 {
    ((a % 32) * 1024 + (b % 32) * 32 + (c % 32)) as u16
}

/// The two-word encoded dictionary form of six Z-characters: the second word
/// carries the end-of-string bit.
pub open spec fn dict_words(d: Seq<u8>) -> Seq<u16> {
    seq![
        pack_zchars(d[0], d[1], d[2]),
        (pack_zchars(d[3], d[4], d[5]) + 0x8000) as u16,
    ]
}

/// Appending a character extends the text's Z-characters by that character's
/// encoding.
pub proof fn lemma_zchars_of_str_push(s: Seq<char>, c: char)
    ensures
        zchars_of_str(s.push(c)) == zchars_of_str(s) + spec_encode_char(c),
    decreases s.len(),
{
    if s.len() == 0 {
        assert(s.push(c).drop_first() =~= Seq::<char>::empty());
        assert(s.push(c)[0] == c);
        assert(zchars_of_str(Seq::<char>::empty()) =~= Seq::<u8>::empty());
        assert(zchars_of_str(s.push(c)) =~= spec_encode_char(c) + Seq::<u8>::empty());
        assert(zchars_of_str(s.push(c)) =~= zchars_of_str(s) + spec_encode_char(c));
    } else {
        lemma_zchars_of_str_push(s.drop_first(), c);
        assert(s.push(c).drop_first() =~= s.drop_first().push(c));
        assert(s.push(c)[0] == s[0]);
        assert(zchars_of_str(s.push(c)) =~= zchars_of_str(s) + spec_encode_char(c));
    }
}

/// Every Z-character an encoding produces is below 32.
pub proof fn lemma_encode_char_bounds(c: char)
    ensures
        forall|j: int|
            0 <= j < spec_encode_char(c).len() ==> 0 <= #[trigger] spec_encode_char(c)[j] < 32,
{
}

impl ZString {
    /// Turns the 1-or-2 Z-character encoding of `c` into a vector.
    fn encode_one_char(c: char) -> (r: Vec<u8>)
        ensures
            r@ == spec_encode_char(c),
    {
        let u = c as u32;
        if u >= 97 && u <= 122 {
            vec![((u - 97) + 6) as u8]
        } else if u >= 65 && u <= 90 {
            vec![4u8, ((u - 65) + 6) as u8]
        } else if u >= 48 && u <= 57 {
            vec![5u8, ((u - 48) + 8) as u8]
        } else if c == '\n' {
            vec![5u8, 7u8]
        } else if c == '.' {
            vec![5u8, 18u8]
        } else if c == ',' {
            vec![5u8, 19u8]
        } else if c == '!' {
            vec![5u8, 20u8]
        } else if c == '?' {
            vec![5u8, 21u8]
        } else if c == '_' {
            vec![5u8, 22u8]
        } else if c == '#' {
            vec![5u8, 23u8]
        } else if c == '\'' {
            vec![5u8, 24u8]
        } else if c == '"' {
            vec![5u8, 25u8]
        } else if c == '/' {
            vec![5u8, 26u8]
        } else if c == '\\' {
            vec![5u8, 27u8]
        } else if c == '-' {
            vec![5u8, 28u8]
        } else if c == ':' {
            vec![5u8, 29u8]
        } else if c == '(' {
            vec![5u8, 30u8]
        } else if c == ')' {
            vec![5u8, 31u8]
        } else {
            let r: Vec<u8> = Vec::new();
            assert(r@ =~= spec_encode_char(c));
            r
        }
    }

    /// Encodes `word` into its 6-Z-character, two-word dictionary form
    /// (versions 1-3).
    pub fn encode_word(word: &Vec<char>, version: u8) -> (r: ZWord)
        requires
            1 <= version <= 3,
        ensures
            r matches ZWord::V3 { decoded, encoded } && decoded@ == dict_zchars(word@)
                && encoded@ == dict_words(dict_zchars(word@)),
    {
        let mut cache: Vec<u8> = Vec::new();
        let mut i: usize = 0;
        proof {
            assert(word@.take(0) =~= Seq::<char>::empty());
        }
        while i < word.len() && cache.len() < 6
            invariant
                i <= word@.len(),
                cache@.len() <= 6,
                ({
                    let z = zchars_of_str(word@.take(i as int));
                    cache@ == if z.len() >= 6 {
                        z.take(6)
                    } else {
                        z
                    }
                }),
                forall|k: int| 0 <= k < cache@.len() ==> 0 <= #[trigger] cache@[k] < 32,
            decreases word@.len() - i,
        {
            let ghost zpre = zchars_of_str(word@.take(i as int));
            proof {
                assert(zpre.len() < 6 ==> cache@ == zpre);
            }
            let pair = Self::encode_one_char(word[i]);
            proof {
                lemma_encode_char_bounds(word@[i as int]);
                assert(word@.take(i + 1) =~= word@.take(i as int).push(word@[i as int]));
                lemma_zchars_of_str_push(word@.take(i as int), word@[i as int]);
            }
            let ghost znext = zchars_of_str(word@.take(i + 1));
            if pair.len() >= 1 && cache.len() < 6 {
                let v = pair[0];
                cache.push(v);
            }
            if pair.len() >= 2 && cache.len() < 6 {
                let v = pair[1];
                cache.push(v);
            }
            proof {
                let z6 = if znext.len() >= 6 {
                    znext.take(6)
                } else {
                    znext
                };
                assert(znext == zpre + pair@);
                assert(pair@.len() <= 2);
                assert(cache@ =~= z6);
            }
            i = i + 1;
        }
        proof {
            let zfull = zchars_of_str(word@);
            let d = dict_zchars(word@);
            if i < word@.len() {
                assert(cache@.len() == 6);
                lemma_zchars_prefix_monotone(word@, i as int);
                assert(cache@ =~= d.take(cache@.len() as int));
            } else {
                assert(word@.take(i as int) =~= word@);
                if zfull.len() >= 6 {
                    assert(cache@ =~= d.take(cache@.len() as int));
                } else {
                    assert(cache@ == zfull);
                    assert(d == zfull + Seq::new((6 - zfull.len()) as nat, |k: int| 5u8));
                    assert(cache@ =~= d.take(cache@.len() as int));
                }
            }
        }
        while cache.len() < 6
            invariant
                cache@.len() <= 6,
                cache@ == dict_zchars(word@).take(cache@.len() as int),
                cache@.len() == 6 || cache@.len() >= zchars_of_str(word@).len(),
                forall|k: int| 0 <= k < cache@.len() ==> 0 <= #[trigger] cache@[k] < 32,
            decreases 6 - cache@.len(),
        {
            proof {
                let d = dict_zchars(word@);
                let z = zchars_of_str(word@);
                assert(z.len() <= cache@.len() < 6);
                assert(d == z + Seq::new((6 - z.len()) as nat, |k: int| 5u8));
                assert(d.len() == 6);
                assert(d[cache@.len() as int] == 5);
            }
            cache.push(5);
            proof {
                assert(cache@ =~= dict_zchars(word@).take(cache@.len() as int));
            }
        }
        proof {
            assert(cache@ =~= dict_zchars(word@));
        }
        let w0: u16 = (cache[0] as u16 % 32) * 1024 + (cache[1] as u16 % 32) * 32 + (cache[2]
            as u16 % 32);
        let w1: u16 = (cache[3] as u16 % 32) * 1024 + (cache[4] as u16 % 32) * 32 + (cache[5]
            as u16 % 32) + 0x8000;
        proof {
            assert(w0 == pack_zchars(cache@[0], cache@[1], cache@[2]));
            assert(w1 == (pack_zchars(cache@[3], cache@[4], cache@[5]) + 0x8000) as u16);
        }
        ZWord::V3 {
            decoded: [cache[0], cache[1], cache[2], cache[3], cache[4], cache[5]],
            encoded: [w0, w1],
        }
    }
}

/// The Z-characters of a longer text prefix never shrink below six once six
/// are reached; more precisely, the first six Z-characters of any prefix that
/// already has six are the first six of the whole text.
pub proof fn lemma_zchars_prefix_monotone(s: Seq<char>, i: int)
    requires
        0 <= i <= s.len(),
        zchars_of_str(s.take(i)).len() >= 6,
    ensures
        zchars_of_str(s).len() >= 6,
        zchars_of_str(s.take(i)).take(6) == zchars_of_str(s).take(6),
    decreases s.len() - i,
{
    if i < s.len() {
        lemma_zchars_of_str_push(s.take(i), s[i]);
        assert(s.take(i + 1) =~= s.take(i).push(s[i]));
        assert(zchars_of_str(s.take(i + 1)).take(6) =~= zchars_of_str(s.take(i)).take(6));
        lemma_zchars_prefix_monotone(s, i + 1);
    } else {
        assert(s.take(i) =~= s);
    }
}

impl ZString {
    /// The letter for Z-character `ch` in alphabet `alphabet`; Z-character 0
    /// is a space.  Z-characters 1-5, and 6 in A2, are structural and are
    /// handled by the decoder before this map.
    pub fn decode_char(ch: u8, alphabet: &Alphabet) -> (r: char)
        requires
            ch == 0 || (6 <= ch <= 31 && !(ch == 6 && *alphabet == Alphabet::A2)),
        ensures
            r == spec_decode_char(ch, *alphabet),
    {
        if ch == 0 {
            ' '
        } else {
            match *alphabet {
                Alphabet::A0 => ((ch - 6) + 97) as char,
                Alphabet::A1 => ((ch - 6) + 65) as char,
                Alphabet::A2 => {
                    if ch == 7 {
                        '\n'
                    } else if ch >= 8 && ch <= 17 {
                        ((ch - 8) + 48) as char
                    } else if ch == 18 {
                        '.'
                    } else if ch == 19 {
                        ','
                    } else if ch == 20 {
                        '!'
                    } else if ch == 21 {
                        '?'
                    } else if ch == 22 {
                        '_'
                    } else if ch == 23 {
                        '#'
                    } else if ch == 24 {
                        '\''
                    } else if ch == 25 {
                        '"'
                    } else if ch == 26 {
                        '/'
                    } else if ch == 27 {
                        '\\'
                    } else if ch == 28 {
                        '-'
                    } else if ch == 29 {
                        ':'
                    } else if ch == 30 {
                        '('
                    } else {
                        ')'
                    }
                },
            }
        }
    }

    /// Decodes a ZSCII code: ASCII 32-126 pass through, 13 is a newline,
    /// 155-223 are the named Latin letters, everything else is ignored.
    pub fn decode_zscii(ch: u16) -> (r: Option<char>)
        ensures
            r == spec_decode_zscii(ch),
    {
        if ch == 13 {
            Some('\n')
        } else if 32 <= ch && ch <= 126 {
            Some((ch as u8) as char)
        } else if 155 <= ch && ch <= 223 {
            Some(Self::zscii_extended(ch))
        } else {
            None
        }
    }

    /// The extended Latin-1 letters at ZSCII 155 to 223.
    fn zscii_extended(ch: u16) -> (r: char)
        requires
            155 <= ch <= 223,
        ensures
            r == spec_zscii_extended(ch),
    {
        if ch == 155 { 'ä' } else if ch == 156 { 'ö' } else if ch == 157 { 'ü' }
        else if ch == 158 { 'Ä' } else if ch == 159 { 'Ö' } else if ch == 160 { 'Ü' }
        else if ch == 161 { 'ß' } else if ch == 162 { '»' } else if ch == 163 { '«' }
        else if ch == 164 { 'ë' } else if ch == 165 { 'ï' } else if ch == 166 { 'ÿ' }
        else if ch == 167 { 'Ë' } else if ch == 168 { 'Ï' } else if ch == 169 { 'á' }
        else if ch == 170 { 'é' } else if ch == 171 { 'í' } else if ch == 172 { 'ó' }
        else if ch == 173 { 'ú' } else if ch == 174 { 'ý' } else if ch == 175 { 'Á' }
        else if ch == 176 { 'É' } else if ch == 177 { 'Í' } else if ch == 178 { 'Ó' }
        else if ch == 179 { 'Ú' } else if ch == 180 { 'Ý' } else if ch == 181 { 'à' }
        else if ch == 182 { 'è' } else if ch == 183 { 'ì' } else if ch == 184 { 'ò' }
        else if ch == 185 { 'ù' } else if ch == 186 { 'À' } else if ch == 187 { 'È' }
        else if ch == 188 { 'Ì' } else if ch == 189 { 'Ò' } else if ch == 190 { 'Ù' }
        else if ch == 191 { 'â' } else if ch == 192 { 'ê' } else if ch == 193 { 'î' }
        else if ch == 194 { 'ô' } else if ch == 195 { 'û' } else if ch == 196 { 'Â' }
        else if ch == 197 { 'Ê' } else if ch == 198 { 'Î' } else if ch == 199 { 'Ô' }
        else if ch == 200 { 'Û' } else if ch == 201 { 'å' } else if ch == 202 { 'Å' }
        else if ch == 203 { 'ø' } else if ch == 204 { 'Ø' } else if ch == 205 { 'ã' }
        else if ch == 206 { 'ñ' } else if ch == 207 { 'õ' } else if ch == 208 { 'Ã' }
        else if ch == 209 { 'Ñ' } else if ch == 210 { 'Õ' } else if ch == 211 { 'æ' }
        else if ch == 212 { 'Æ' } else if ch == 213 { 'ç' } else if ch == 214 { 'Ç' }
        else if ch == 215 { 'þ' } else if ch == 216 { 'ð' } else if ch == 217 { 'Þ' }
        else if ch == 218 { 'Ð' } else if ch == 219 { '£' } else if ch == 220 { 'œ' }
        else if ch == 221 { 'Œ' } else if ch == 222 { '¡' } else { '¿' }
    }

    /// Reads the words of the Z-string at `start`, up to and including the
    /// word with the high bit set; `BadAddress` when none arrives before the
    /// image edge.
    fn read_zstring_words(mem: &Vec<u8>, start: u32) -> (r: Result<Vec<u16>, FatalError>)
        requires
            image_sized(mem@),
        ensures
            r is Ok <==> zstring_words_ok(mem@, start as int),
            r matches Ok(ws) ==> ws@ == zstring_words(mem@, start as int) && ws@.len() <= 0x10001,
            r matches Err(e) ==> e == FatalError::BadAddress,
    {
        let view = MemoryView { pointer: 0 };
        let mut ws: Vec<u16> = Vec::new();
        let mut a: u32 = start;
        loop
            invariant
                image_sized(mem@),
                start <= a,
                a == start + 2 * ws@.len(),
                ws@ + zstring_words(mem@, a as int) =~= zstring_words(mem@, start as int),
                zstring_words_ok(mem@, a as int) == zstring_words_ok(mem@, start as int),
                a <= vstd::math::max(start as int, mem@.len() as int) as u32,
            decreases mem@.len() - a,
        {
            if a as usize >= mem.len() || a as usize + 1 >= mem.len() {
                return Err(FatalError::BadAddress);
            }
            let w = view.read_u16_at(mem, a);
            ws.push(w);
            if w >= 0x8000 {
                proof {
                    assert(zstring_words(mem@, a as int) =~= seq![w]);
                    assert(ws@ =~= zstring_words(mem@, start as int));
                }
                return Ok(ws);
            }
            a = a + 2;
        }
    }

    /// Unpacks three Z-characters from each word.
    fn zchars_from_words(ws: &Vec<u16>) -> (r: Vec<u8>)
        ensures
            r@ == zchars_of_words(ws@),
            forall|k: int| 0 <= k < r@.len() ==> #[trigger] r@[k] < 32,
    {
        let mut out: Vec<u8> = Vec::new();
        let mut i: usize = 0;
        while i < ws.len()
            invariant
                i <= ws@.len(),
                out@.len() == 3 * i,
                forall|k: int|
                    0 <= k < out@.len() ==> #[trigger] out@[k] == zchar_of_word(
                        ws@[k / 3],
                        k % 3,
                    ),
                forall|k: int| 0 <= k < out@.len() ==> #[trigger] out@[k] < 32,
            decreases ws@.len() - i,
        {
            let w = ws[i];
            out.push(((w / 1024) % 32) as u8);
            out.push(((w / 32) % 32) as u8);
            out.push((w % 32) as u8);
            i = i + 1;
        }
        proof {
            assert(out@ =~= zchars_of_words(ws@));
        }
        out
    }

    /// Runs the decoder state machine over `zchars`, appending the text to
    /// `destination`.  With `allow_abbrev` false, abbreviation references
    /// expand to nothing, so abbreviations never recurse.
    fn decode_zchars(
        zchars: &Vec<u8>,
        destination: &mut Vec<char>,
        abbreviations_view: &MemoryView,
        mem: &Vec<u8>,
        allow_abbrev: bool,
    ) -> (r: Result<(), FatalError>)
        requires
            image_sized(mem@),
            forall|k: int| 0 <= k < zchars@.len() ==> #[trigger] zchars@[k] < 32,
        ensures
            r is Ok <==> spec_decode_ok(
                zchars@,
                0,
                Alphabet::A0,
                None,
                None,
                mem@,
                abbreviations_view.pointer as int,
                allow_abbrev,
            ),
            r matches Ok(_) ==> final(destination)@ == old(destination)@ + spec_decode(
                zchars@,
                0,
                Alphabet::A0,
                None,
                None,
                mem@,
                abbreviations_view.pointer as int,
                allow_abbrev,
            ),
            r matches Err(e) ==> e == FatalError::BadAddress,
        decreases (if allow_abbrev { 1int } else { 0int }),
    {
        let view = MemoryView { pointer: 0 };
        let ghost p = abbreviations_view.pointer as int;
        let mut i: usize = 0;
        let mut alph = Alphabet::A0;
        let mut big: Option<Option<u8>> = None;
        let mut abbrev: Option<u8> = None;
        while i < zchars.len()
            invariant
                image_sized(mem@),
                p == abbreviations_view.pointer as int,
                i <= zchars@.len(),
                forall|k: int| 0 <= k < zchars@.len() ==> #[trigger] zchars@[k] < 32,
                abbrev matches Some(z) ==> 1 <= z <= 3,
                old(destination)@ + spec_decode(
                    zchars@,
                    0,
                    Alphabet::A0,
                    None,
                    None,
                    mem@,
                    p,
                    allow_abbrev,
                ) =~= destination@ + spec_decode(
                    zchars@,
                    i as int,
                    alph,
                    big,
                    abbrev,
                    mem@,
                    p,
                    allow_abbrev,
                ),
                spec_decode_ok(zchars@, 0, Alphabet::A0, None, None, mem@, p, allow_abbrev)
                    == spec_decode_ok(zchars@, i as int, alph, big, abbrev, mem@, p, allow_abbrev),
            decreases zchars@.len() - i,
        {
            let ch = zchars[i];
            let ghost (oi, oalph, obig, oabbrev) = (i as int, alph, big, abbrev);
            match big {
                Some(pending) => {
                    match pending {
                        None => {
                            big = Some(Some(ch));
                        },
                        Some(upper) => {
                            let code = ((upper as u16) % 32) * 32 + ((ch as u16) % 32);
                            match Self::decode_zscii(code) {
                                Some(c) => {
                                    destination.push(c);
                                },
                                None => {},
                            }
                            big = None;
                            alph = Alphabet::A0;
                        },
                    }
                },
                None => {
                    match abbrev {
                        Some(z) => {
                            if allow_abbrev {
                                let entry64: u64 = abbreviations_view.pointer as u64 + 2 * (32
                                    * (z as u64 - 1) + ch as u64);
                                if entry64 >= mem.len() as u64 || entry64 + 1 >= mem.len() as u64 {
                                    proof {
                                        assert(!spec_decode_ok(
                                            zchars@,
                                            oi,
                                            oalph,
                                            obig,
                                            oabbrev,
                                            mem@,
                                            p,
                                            allow_abbrev,
                                        ));
                                    }
                                    return Err(FatalError::BadAddress);
                                }
                                let entry = entry64 as u32;
                                let packed = view.read_u16_at(mem, entry);
                                let address = packed as u32 * 2;
                                let ws = match Self::read_zstring_words(mem, address) {
                                    Ok(ws) => ws,
                                    Err(e) => {
                                        proof {
                                            assert(!spec_decode_ok(
                                                zchars@,
                                                oi,
                                                oalph,
                                                obig,
                                                oabbrev,
                                                mem@,
                                                p,
                                                allow_abbrev,
                                            ));
                                        }
                                        return Err(e);
                                    },
                                };
                                let azchars = Self::zchars_from_words(&ws);
                                proof {
                                    lemma_decode_ok_no_abbrev(
                                        azchars@,
                                        0,
                                        Alphabet::A0,
                                        None,
                                        None,
                                        mem@,
                                        p,
                                    );
                                }
                                match Self::decode_zchars(
                                    &azchars,
                                    destination,
                                    abbreviations_view,
                                    mem,
                                    false,
                                ) {
                                    Ok(_) => {},
                                    Err(e) => {
                                        return Err(e);
                                    },
                                }
                                proof {
                                    assert(azchars@ == zchars_of_words(
                                        zstring_words(mem@, address as int),
                                    ));
                                    assert(spec_abbreviation(mem@, p, z, ch) == spec_decode(
                                        azchars@,
                                        0,
                                        Alphabet::A0,
                                        None,
                                        None,
                                        mem@,
                                        p,
                                        false,
                                    ));
                                }
                            }
                            abbrev = None;
                            alph = Alphabet::A0;
                        },
                        None => {
                            if ch == 0 {
                                destination.push(' ');
                                alph = Alphabet::A0;
                            } else if ch <= 3 {
                                abbrev = Some(ch);
                            } else if ch == 4 || ch == 5 {
                                alph = alph.next_alphabet(ch);
                            } else if ch == 6 && matches!(alph, Alphabet::A2) {
                                big = Some(None);
                            } else {
                                destination.push(Self::decode_char(ch, &alph));
                                alph = Alphabet::A0;
                            }
                        },
                    }
                },
            }
            i = i + 1;
            proof {
                assert(old(destination)@ + spec_decode(
                    zchars@,
                    0,
                    Alphabet::A0,
                    None,
                    None,
                    mem@,
                    p,
                    allow_abbrev,
                ) =~= destination@ + spec_decode(
                    zchars@,
                    i as int,
                    alph,
                    big,
                    abbrev,
                    mem@,
                    p,
                    allow_abbrev,
                ));
            }
        }
        proof {
            assert(destination@ =~= old(destination)@ + spec_decode(
                zchars@,
                0,
                Alphabet::A0,
                None,
                None,
                mem@,
                p,
                allow_abbrev,
            ));
        }
        Ok(())
    }

    /// Decodes a prepared Z-character sequence into `destination`, expanding
    /// abbreviations through the abbreviations table.
    pub fn decode_into_string(
        zchars: &Vec<u8>,
        destination: &mut Vec<char>,
        abbreviations_view: &MemoryView,
        mem: &Vec<u8>,
    ) -> (r: Result<(), FatalError>)
        requires
            image_sized(mem@),
            forall|k: int| 0 <= k < zchars@.len() ==> #[trigger] zchars@[k] < 32,
        ensures
            r is Ok <==> spec_decode_ok(
                zchars@,
                0,
                Alphabet::A0,
                None,
                None,
                mem@,
                abbreviations_view.pointer as int,
                true,
            ),
            r matches Ok(_) ==> final(destination)@ == old(destination)@ + spec_decode(
                zchars@,
                0,
                Alphabet::A0,
                None,
                None,
                mem@,
                abbreviations_view.pointer as int,
                true,
            ),
            r matches Err(e) ==> e == FatalError::BadAddress,
    {
        Self::decode_zchars(zchars, destination, abbreviations_view, mem, true)
    }

    /// Reads and decodes the Z-string at `offset` past the base of `view`.
    pub fn create(offset: u32, view: &MemoryView, abbreviations_view: &MemoryView, mem: &Vec<u8>)
        -> (r: Result<ZString, FatalError>)
        requires
            image_sized(mem@),
            view.pointer + offset <= u32::MAX,
        ensures
            r matches Ok(z) ==> ({
                let ws = zstring_words(mem@, view.pointer + offset);
                &&& zstring_words_ok(mem@, view.pointer + offset)
                &&& z.bytes@ == zchars_of_words(ws)
                &&& z.chars@ == spec_decode(
                    zchars_of_words(ws),
                    0,
                    Alphabet::A0,
                    None,
                    None,
                    mem@,
                    abbreviations_view.pointer as int,
                    true,
                )
                &&& z.encoded_length == 2 * ws.len()
            }),
            r is Ok <==> (zstring_words_ok(mem@, view.pointer + offset) && spec_decode_ok(
                zchars_of_words(zstring_words(mem@, view.pointer + offset)),
                0,
                Alphabet::A0,
                None,
                None,
                mem@,
                abbreviations_view.pointer as int,
                true,
            )),
            r matches Err(e) ==> e == FatalError::BadAddress,
    {
        let start = view.pointer + offset;
        let ws = Self::read_zstring_words(mem, start)?;
        let bytes = Self::zchars_from_words(&ws);
        let mut chars: Vec<char> = Vec::new();
        Self::decode_zchars(&bytes, &mut chars, abbreviations_view, mem, true)?;
        let encoded_length = (ws.len() as u32) * 2;
        Ok(ZString { bytes, chars, encoded_length })
    }

    /// Fetches and decodes abbreviation `32 * (z - 1) + index` from the
    /// abbreviations table at `view`; the expansion itself is decoded with
    /// abbreviations disabled.
    pub fn find_abbreviation(index: u8, z: u8, view: &MemoryView, mem: &Vec<u8>) -> (r: Result<
        ZString,
        FatalError,
    >)
        requires
            image_sized(mem@),
            1 <= z <= 3,
            index < 32,
        ensures
            r is Ok <==> ({
                let entry = view.pointer + 2 * (32 * (z - 1) + index);
                &&& entry + 1 < mem@.len()
                &&& zstring_words_ok(mem@, word_at(mem@, entry) * 2)
            }),
            r matches Ok(s) ==> s.chars@ == spec_abbreviation(mem@, view.pointer as int, z, index),
            r matches Err(e) ==> e == FatalError::BadAddress,
    {
        let entry64: u64 = view.pointer as u64 + 2 * (32 * (z as u64 - 1) + index as u64);
        if entry64 >= mem.len() as u64 || entry64 + 1 >= mem.len() as u64 {
            return Err(FatalError::BadAddress);
        }
        let plain = MemoryView { pointer: 0 };
        let packed = plain.read_u16_at(mem, entry64 as u32);
        let address = packed as u32 * 2;
        let ws = Self::read_zstring_words(mem, address)?;
        let bytes = Self::zchars_from_words(&ws);
        let mut chars: Vec<char> = Vec::new();
        proof {
            lemma_decode_ok_no_abbrev(bytes@, 0, Alphabet::A0, None, None, mem@,
                view.pointer as int);
        }
        Self::decode_zchars(&bytes, &mut chars, view, mem, false)?;
        let encoded_length = (ws.len() as u32) * 2;
        proof {
            assert(chars@ == spec_abbreviation(mem@, view.pointer as int, z, index));
        }
        Ok(ZString { bytes, chars, encoded_length })
    }
}

/// The 4-byte dictionary form read as one big-endian number, as the
/// dictionary lookup compares entries.
pub open spec fn dict_key(d: Seq<u8>) -> int {
    dict_words(d)[0] * 0x10000 + dict_words(d)[1]
}

/// Lexicographic order on two six-Z-character dictionary forms.
pub open spec fn zlex_lt(a: Seq<u8>, b: Seq<u8>) -> bool {
    ||| a[0] < b[0]
    ||| (a[0] == b[0] && a[1] < b[1])
    ||| (a[0] == b[0] && a[1] == b[1] && a[2] < b[2])
    ||| (a[0] == b[0] && a[1] == b[1] && a[2] == b[2] && a[3] < b[3])
    ||| (a[0] == b[0] && a[1] == b[1] && a[2] == b[2] && a[3] == b[3] && a[4] < b[4])
    ||| (a[0] == b[0] && a[1] == b[1] && a[2] == b[2] && a[3] == b[3] && a[4] == b[4] && a[5]
        < b[5])
}

/// Every Z-character of a text's encoding is below 32.
pub proof fn lemma_zchars_of_str_bounds(s: Seq<char>)
    ensures
        forall|k: int|
            0 <= k < zchars_of_str(s).len() ==> 0 <= #[trigger] zchars_of_str(s)[k] < 32,
    decreases s.len(),
{
    if s.len() > 0 {
        lemma_encode_char_bounds(s[0]);
        lemma_zchars_of_str_bounds(s.drop_first());
        let e = spec_encode_char(s[0]);
        let rest = zchars_of_str(s.drop_first());
        assert forall|k: int| 0 <= k < zchars_of_str(s).len() implies 0 <= #[trigger] zchars_of_str(
            s,
        )[k] < 32 by {
            if k < e.len() {
                assert(zchars_of_str(s)[k] == e[k]);
            } else {
                assert(zchars_of_str(s)[k] == rest[k - e.len()]);
            }
        }
    }
}

/// Every Z-character of a six-character dictionary form is below 32.
pub proof fn lemma_dict_zchars_bounds(s: Seq<char>)
    ensures
        dict_zchars(s).len() == 6,
        forall|k: int| 0 <= k < 6 ==> 0 <= #[trigger] dict_zchars(s)[k] < 32,
{
    lemma_zchars_of_str_bounds(s);
}

/// Dictionary-order law for the codec round trip: encoding a word to its
/// six-Z-character form (truncated or padded) and comparing the packed
/// 4-byte forms as big-endian numbers, as the dictionary lookup does, orders
/// words exactly as the lexicographic order of their Z-characters - the
/// canonical dictionary ordering - and two forms compare equal exactly when
/// they are the same six Z-characters.  Together with integer trichotomy
/// this makes the comparison a total order.
#[verifier::rlimit(60)]
pub proof fn lemma_dict_order(s1: Seq<char>, s2: Seq<char>)
    ensures
        dict_key(dict_zchars(s1)) < dict_key(dict_zchars(s2)) <==> zlex_lt(
            dict_zchars(s1),
            dict_zchars(s2),
        ),
        dict_key(dict_zchars(s1)) == dict_key(dict_zchars(s2)) <==> dict_zchars(s1) =~= dict_zchars(
            s2,
        ),
{
    lemma_dict_zchars_bounds(s1);
    lemma_dict_zchars_bounds(s2);
    let d1 = dict_zchars(s1);
    let d2 = dict_zchars(s2);
    assert(forall|k: int| 0 <= k < 6 ==> #[trigger] (d1[k] % 32) == d1[k]);
    assert(forall|k: int| 0 <= k < 6 ==> #[trigger] (d2[k] % 32) == d2[k]);
    let p1 = d1[0] * 1024 + d1[1] * 32 + d1[2];
    let q1 = d1[3] * 1024 + d1[4] * 32 + d1[5];
    let p2 = d2[0] * 1024 + d2[1] * 32 + d2[2];
    let q2 = d2[3] * 1024 + d2[4] * 32 + d2[5];
    assert(dict_key(d1) == p1 * 0x10000 + q1 + 0x8000);
    assert(dict_key(d2) == p2 * 0x10000 + q2 + 0x8000);
    assert(0 <= q1 < 0x8000 && 0 <= q2 < 0x8000);
    assert(0 <= p1 < 0x8000 && 0 <= p2 < 0x8000);
    assert(p1 < p2 ==> p1 * 0x10000 + 0x10000 <= p2 * 0x10000);
    assert(p2 < p1 ==> p2 * 0x10000 + 0x10000 <= p1 * 0x10000);
    assert(p1 < p2 ==> dict_key(d1) < dict_key(d2));
    assert(p2 < p1 ==> dict_key(d2) < dict_key(d1));
    assert(p1 == p2 ==> (dict_key(d1) < dict_key(d2) <==> q1 < q2));
    assert(p1 < p2 <==> (d1[0] < d2[0] || (d1[0] == d2[0] && d1[1] < d2[1]) || (d1[0] == d2[0]
        && d1[1] == d2[1] && d1[2] < d2[2])));
    assert(q1 < q2 <==> (d1[3] < d2[3] || (d1[3] == d2[3] && d1[4] < d2[4]) || (d1[3] == d2[3]
        && d1[4] == d2[4] && d1[5] < d2[5])));
    assert(p1 == p2 <==> (d1[0] == d2[0] && d1[1] == d2[1] && d1[2] == d2[2]));
    assert(q1 == q2 <==> (d1[3] == d2[3] && d1[4] == d2[4] && d1[5] == d2[5]));
}

/// A terminated Z-string's word count is bounded by the image bytes past
/// its start.
pub proof fn lemma_zstring_words_len(mem: Seq<u8>, a: int)
    ensures
        zstring_words_ok(mem, a) ==> 2 * zstring_words(mem, a).len() <= mem.len() - a + 1,
    decreases mem.len() - a,
{
    if 0 <= a && a + 1 < mem.len() {
        if word_at(mem, a) < 0x8000 {
            lemma_zstring_words_len(mem, a + 2);
        }
    }
}

} // verus!
