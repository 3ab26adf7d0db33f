//! Seven-segment glyph patterns and the colon-aware text scan.

use vstd::prelude::*;
use vstd::string::*;

verus! {

/// Flag bit of a segment byte that lights the colon (or decimal point).
pub const COLON_FLAG: u8 = 0x80;

/// Why a text could not be turned into segment bytes.
#[derive(Clone, Copy, Debug, PartialEq, Eq)]
pub enum EncodeError {
    /// The character has no glyph and is not a colon that follows one.
    InvalidChar(char),
    /// The byte has no glyph and is not a colon that follows one.
    InvalidByte(u8),
}

/// The segment pattern of a byte, for the ASCII codes of the glyphs `0`-`9`
/// (0x30-0x39), `A`, `b`, `C`, `d`, `E` and the space.
pub open spec fn byte_pattern(b: u8) -> Option<u8> {
    match b {
        0x30 => Some(0b0111111u8),
        0x31 => Some(0b0000110u8),
        0x32 => Some(0b1011011u8),
        0x33 => Some(0b1001111u8),
        0x34 => Some(0b1100110u8),
        0x35 => Some(0b1101101u8),
        0x36 => Some(0b1111101u8),
        0x37 => Some(0b0000111u8),
        0x38 => Some(0b1111111u8),
        0x39 => Some(0b1101111u8),
        0x41 => Some(0b1110111u8),
        0x62 => Some(0b1111100u8),
        0x43 => Some(0b0111001u8),
        0x64 => Some(0b1011110u8),
        0x45 => Some(0b1111001u8),
        0x20 => Some(0b0000000u8),
        _ => None,
    }
}

/// The segment pattern of a character, for the same glyphs.
pub open spec fn char_pattern(c: char) -> Option<u8> {
    match c {
        '0' => Some(0b0111111u8),
        '1' => Some(0b0000110u8),
        '2' => Some(0b1011011u8),
        '3' => Some(0b1001111u8),
        '4' => Some(0b1100110u8),
        '5' => Some(0b1101101u8),
        '6' => Some(0b1111101u8),
        '7' => Some(0b0000111u8),
        '8' => Some(0b1111111u8),
        '9' => Some(0b1101111u8),
        'A' => Some(0b1110111u8),
        'b' => Some(0b1111100u8),
        'C' => Some(0b0111001u8),
        'd' => Some(0b1011110u8),
        'E' => Some(0b1111001u8),
        ' ' => Some(0b0000000u8),
        _ => None,
    }
}

/// Looks up the segment pattern of a byte; `None` for a byte without a glyph.
pub fn byte_to_segments(b: u8) -> (res: Option<u8>)
    ensures
        res == byte_pattern(b),
{
    match b {
        0x30 => Some(0b0111111),
        0x31 => Some(0b0000110),
        0x32 => Some(0b1011011),
        0x33 => Some(0b1001111),
        0x34 => Some(0b1100110),
        0x35 => Some(0b1101101),
        0x36 => Some(0b1111101),
        0x37 => Some(0b0000111),
        0x38 => Some(0b1111111),
        0x39 => Some(0b1101111),
        0x41 => Some(0b1110111),
        0x62 => Some(0b1111100),
        0x43 => Some(0b0111001),
        0x64 => Some(0b1011110),
        0x45 => Some(0b1111001),
        0x20 => Some(0b0000000),
        _ => None,
    }
}

/// Looks up the segment pattern of a character; `None` for a character
/// without a glyph.
pub fn char_to_segments(c: char) -> (res: Option<u8>)
    ensures
        res == char_pattern(c),
{
    match c {
        '0' => Some(0b0111111),
        '1' => Some(0b0000110),
        '2' => Some(0b1011011),
        '3' => Some(0b1001111),
        '4' => Some(0b1100110),
        '5' => Some(0b1101101),
        '6' => Some(0b1111101),
        '7' => Some(0b0000111),
        '8' => Some(0b1111111),
        '9' => Some(0b1101111),
        'A' => Some(0b1110111),
        'b' => Some(0b1111100),
        'C' => Some(0b0111001),
        'd' => Some(0b1011110),
        'E' => Some(0b1111001),
        ' ' => Some(0b0000000),
        _ => None,
    }
}

/// Every character with a glyph is a single byte, and the byte has the same
/// pattern.
pub proof fn lemma_char_pattern_is_byte_pattern(c: char)
    requires
        char_pattern(c) is Some,
    ensures
        (c as int) < 128,
        byte_pattern(c as u8) == char_pattern(c),
{
}

/// Every byte with a glyph is the single-byte form of a character with the
/// same pattern.
pub proof fn lemma_byte_pattern_is_char_pattern(b: u8)
    requires
        byte_pattern(b) is Some,
    ensures
        b < 128,
        char_pattern(b as char) == byte_pattern(b),
{
}

/// What one element of a text is to the scan.
pub enum Symbol {
    /// An element with a glyph, and the glyph's pattern.
    Glyph(u8),
    /// The colon.
    Colon,
    /// Anything else.
    Unsupported,
}

/// The symbol that a character stands for.
pub open spec fn char_symbol(c: char) -> Symbol {
    if c == ':' {
        Symbol::Colon
    } else {
        match char_pattern(c) {
            Some(p) => Symbol::Glyph(p),
            None => Symbol::Unsupported,
        }
    }
}

/// The byte of the colon.
pub const COLON_BYTE: u8 = 0x3A;

/// The symbol that a byte stands for.
pub open spec fn byte_symbol(b: u8) -> Symbol {
    if b == COLON_BYTE {
        Symbol::Colon
    } else {
        match byte_pattern(b) {
            Some(p) => Symbol::Glyph(p),
            None => Symbol::Unsupported,
        }
    }
}

/// The symbols of a text given as characters.
pub open spec fn char_symbols(text: Seq<char>) -> Seq<Symbol> {
    Seq::new(text.len(), |i: int| char_symbol(text[i]))
}

/// The symbols of a text given as bytes.
pub open spec fn byte_symbols(text: Seq<u8>) -> Seq<Symbol> {
    Seq::new(text.len(), |i: int| byte_symbol(text[i]))
}

/// The scan from position `i` on, with `done` the segment bytes of what lies
/// before `i`. A glyph yields its pattern, with the colon flag set where a
/// colon follows directly; that colon is passed over. Any other element at
/// `i` ends the scan with its position.
pub open spec fn scan_from(symbols: Seq<Symbol>, i: int, done: Seq<u8>) -> Result<Seq<u8>, int>
    decreases symbols.len() - i,
{
    if i < 0 || i >= symbols.len() {
        Ok(done)
    } else {
        match symbols[i] {
            Symbol::Glyph(p) => if i + 1 < symbols.len() && symbols[i + 1] is Colon {
                scan_from(symbols, i + 2, done.push(p | COLON_FLAG))
            } else {
                scan_from(symbols, i + 1, done.push(p))
            },
            _ => Err(i),
        }
    }
}

/// The segment bytes of a text, or the position of its first element that
/// cannot be encoded.
pub open spec fn scan(symbols: Seq<Symbol>) -> Result<Seq<u8>, int> {
    scan_from(symbols, 0, Seq::empty())
}

/// Encodes a string as segment bytes, one per glyph. A colon directly after a
/// glyph sets that glyph's colon flag and yields no byte of its own. The
/// first character that is neither a glyph nor such a colon is returned as
/// the error.
pub fn string_to_segments(string: &str) -> (res: Result<Vec<u8>, EncodeError>)
    ensures
        match scan(char_symbols(string@)) {
            Ok(segments) => res is Ok && res->Ok_0@ == segments,
            Err(at) => 0 <= at < string@.len() && res == Err::<Vec<u8>, EncodeError>(
                EncodeError::InvalidChar(string@[at]),
            ),
        },
{
    let n = string.unicode_len();
    let ghost symbols = char_symbols(string@);
    let mut segments: Vec<u8> = Vec::new();
    let mut i: usize = 0;
    while i < n
        invariant
            i <= n,
            n == string@.len(),
            symbols == char_symbols(string@),
            scan(symbols) == scan_from(symbols, i as int, segments@),
        decreases n - i,
    {
        let c = string.get_char(i);
        match char_to_segments(c) {
            Some(s) => {
                if i + 1 < n && string.get_char(i + 1) == ':' {
                    segments.push(s | COLON_FLAG);
                    i += 2;
                } else {
                    segments.push(s);
                    i += 1;
                }
            },
            None => {
                return Err(EncodeError::InvalidChar(c));
            },
        }
    }
    Ok(segments)
}

/// Encodes a byte string as segment bytes, by the same rule as
/// [`string_to_segments`]. The first byte that is neither a glyph nor a colon
/// directly after one is returned as the error.
pub fn bytestring_to_segments(string: &[u8]) -> (res: Result<Vec<u8>, EncodeError>)
    ensures
        match scan(byte_symbols(string@)) {
            Ok(segments) => res is Ok && res->Ok_0@ == segments,
            Err(at) => 0 <= at < string@.len() && res == Err::<Vec<u8>, EncodeError>(
                EncodeError::InvalidByte(string@[at]),
            ),
        },
{
    let n = string.len();
    let ghost symbols = byte_symbols(string@);
    let mut segments: Vec<u8> = Vec::new();
    let mut i: usize = 0;
    while i < n
        invariant
            i <= n,
            n == string@.len(),
            symbols == byte_symbols(string@),
            scan(symbols) == scan_from(symbols, i as int, segments@),
        decreases n - i,
    {
        let b = string[i];
        match byte_to_segments(b) {
            Some(s) => {
                if i + 1 < n && string[i + 1] == COLON_BYTE {
                    segments.push(s | COLON_FLAG);
                    i += 2;
                } else {
                    segments.push(s);
                    i += 1;
                }
            },
            None => {
                return Err(EncodeError::InvalidByte(b));
            },
        }
    }
    Ok(segments)
}

/// Whether position `i` holds an element that the scan cannot pass: one that
/// is no glyph, unless it is a colon directly after a glyph.
pub open spec fn stray(symbols: Seq<Symbol>, i: int) -> bool {
    &&& 0 <= i < symbols.len()
    &&& !(symbols[i] is Glyph)
    &&& !(symbols[i] is Colon && i > 0 && symbols[i - 1] is Glyph)
}

proof fn lemma_scan_from_first_stray(symbols: Seq<Symbol>, i: int, done: Seq<u8>)
    requires
        0 <= i <= symbols.len(),
        forall|j: int| 0 <= j < i ==> !stray(symbols, j),
        i < symbols.len() ==> !(symbols[i] is Colon && i > 0 && symbols[i - 1] is Glyph),
    ensures
        match scan_from(symbols, i, done) {
            Ok(_) => forall|j: int| 0 <= j < symbols.len() ==> !stray(symbols, j),
            Err(at) => stray(symbols, at) && forall|j: int| 0 <= j < at ==> !stray(symbols, j),
        },
    decreases symbols.len() - i,
{
    if i < symbols.len() {
        match symbols[i] {
            Symbol::Glyph(p) => {
                if i + 1 < symbols.len() && symbols[i + 1] is Colon {
                    lemma_scan_from_first_stray(symbols, i + 2, done.push(p | COLON_FLAG));
                } else {
                    lemma_scan_from_first_stray(symbols, i + 1, done.push(p));
                }
            },
            _ => {},
        }
    }
}

/// The scan fails exactly when the text holds an element that is no glyph
/// and no colon directly after a glyph, and it then reports the first such
/// element. A text that starts with a colon therefore fails at position 0.
pub proof fn lemma_scan_fails_at_first_stray(symbols: Seq<Symbol>)
    ensures
        match scan(symbols) {
            Ok(_) => forall|j: int| 0 <= j < symbols.len() ==> !stray(symbols, j),
            Err(at) => stray(symbols, at) && forall|j: int| 0 <= j < at ==> !stray(symbols, j),
        },
{
    lemma_scan_from_first_stray(symbols, 0, Seq::empty());
}

/// A text that holds an element which is neither a glyph nor a colon fails,
/// at that element or before it.
pub proof fn lemma_unsupported_element_fails(symbols: Seq<Symbol>, i: int)
    requires
        0 <= i < symbols.len(),
        symbols[i] is Unsupported,
    ensures
        scan(symbols) is Err,
        0 <= scan(symbols)->Err_0 <= i,
{
    lemma_scan_fails_at_first_stray(symbols);
    assert(stray(symbols, i));
}

/// A text that starts with a colon fails at that colon: there is no glyph
/// for it to attach to.
pub proof fn lemma_leading_colon_fails(symbols: Seq<Symbol>)
    requires
        symbols.len() > 0,
        symbols[0] is Colon,
    ensures
        scan(symbols) == Err::<Seq<u8>, int>(0),
{
}

/// Number of glyphs among the first `i` elements.
pub open spec fn glyphs_before(symbols: Seq<Symbol>, i: int) -> nat
    decreases i,
{
    if i <= 0 || i > symbols.len() {
        0
    } else if symbols[i - 1] is Glyph {
        glyphs_before(symbols, i - 1) + 1
    } else {
        glyphs_before(symbols, i - 1)
    }
}

/// The segment byte of the glyph at position `i`: its pattern, with the
/// colon flag set where the next element is a colon.
pub open spec fn glyph_byte(symbols: Seq<Symbol>, i: int) -> u8
    recommends
        0 <= i < symbols.len(),
        symbols[i] is Glyph,
{
    if i + 1 < symbols.len() && symbols[i + 1] is Colon {
        symbols[i]->Glyph_0 | COLON_FLAG
    } else {
        symbols[i]->Glyph_0
    }
}

proof fn lemma_scan_from_bytes(symbols: Seq<Symbol>, i: int, done: Seq<u8>)
    requires
        0 <= i <= symbols.len(),
        done.len() == glyphs_before(symbols, i),
        forall|j: int|
            0 <= j < i && symbols[j] is Glyph ==> done[glyphs_before(symbols, j) as int]
                == glyph_byte(symbols, j),
    ensures
        match scan_from(symbols, i, done) {
            Ok(out) => {
                &&& out.len() == glyphs_before(symbols, symbols.len() as int)
                &&& forall|j: int|
                    0 <= j < symbols.len() && symbols[j] is Glyph ==> out[glyphs_before(
                        symbols,
                        j,
                    ) as int] == glyph_byte(symbols, j)
            },
            Err(_) => true,
        },
    decreases symbols.len() - i,
{
    lemma_glyphs_before_grows(symbols);
    if i < symbols.len() {
        match symbols[i] {
            Symbol::Glyph(p) => {
                let next = done.push(glyph_byte(symbols, i));
                assert(glyphs_before(symbols, i + 1) == glyphs_before(symbols, i) + 1);
                if i + 1 < symbols.len() && symbols[i + 1] is Colon {
                    assert(glyphs_before(symbols, i + 2) == glyphs_before(symbols, i + 1));
                    lemma_scan_from_bytes(symbols, i + 2, next);
                } else {
                    lemma_scan_from_bytes(symbols, i + 1, next);
                }
            },
            _ => {},
        }
    }
}

proof fn lemma_glyphs_before_grows(symbols: Seq<Symbol>)
    ensures
        forall|j: int, k: int|
            0 <= j <= k <= symbols.len() ==> #[trigger] glyphs_before(symbols, j)
                <= #[trigger] glyphs_before(symbols, k),
        forall|j: int, k: int|
            0 <= j < k <= symbols.len() && symbols[j] is Glyph ==> #[trigger] glyphs_before(
                symbols,
                j,
            ) < #[trigger] glyphs_before(symbols, k),
{
    assert forall|j: int, k: int| 0 <= j <= k <= symbols.len() implies (#[trigger] glyphs_before(
        symbols,
        j,
    ) <= #[trigger] glyphs_before(symbols, k)) && (j < k && symbols[j] is Glyph ==> glyphs_before(
        symbols,
        j,
    ) < glyphs_before(symbols, k)) by {
        lemma_glyphs_before_step(symbols, j, k);
    }
}

proof fn lemma_glyphs_before_step(symbols: Seq<Symbol>, j: int, k: int)
    requires
        0 <= j <= k <= symbols.len(),
    ensures
        glyphs_before(symbols, j) <= glyphs_before(symbols, k),
        j < k && symbols[j] is Glyph ==> glyphs_before(symbols, j) < glyphs_before(symbols, k),
    decreases k - j,
{
    if j < k {
        lemma_glyphs_before_step(symbols, j, k - 1);
    }
}

/// Where the scan succeeds it yields one byte for each glyph of the text, in
/// the order of the glyphs: the glyph's pattern, with the colon flag set
/// where a colon follows the glyph directly. Colons yield no byte.
pub proof fn lemma_scan_yields_one_byte_per_glyph(symbols: Seq<Symbol>)
    requires
        scan(symbols) is Ok,
    ensures
        scan(symbols)->Ok_0.len() == glyphs_before(symbols, symbols.len() as int),
        forall|j: int|
            0 <= j < symbols.len() && symbols[j] is Glyph ==> scan(symbols)->Ok_0[glyphs_before(
                symbols,
                j,
            ) as int] == glyph_byte(symbols, j),
{
    lemma_scan_from_bytes(symbols, 0, Seq::empty());
}

} // verus!
