//! Identifier types shared by every layer: four-byte type codes, form ids,
//! and null-terminated strings.
use vstd::prelude::*;
use vstd::utf8::{decode_utf8, is_ascii_chars, valid_utf8};
use vstd::string::StringSliceAdditionalSpecFns;

use crate::error::Error;

verus! {

/// A four-byte tag naming a record, subrecord or group category (`TES4`, `GRUP`, ...).
#[derive(Debug, Clone, Copy, PartialEq, Eq, Hash)]
pub struct TypeCode(pub [u8; 4]);

/// The text of a type code: its bytes read as UTF-8, or nothing where they are not UTF-8.
pub open spec fn code_text(bytes: Seq<u8>) -> Seq<char> {
    if valid_utf8(bytes) {
        decode_utf8(bytes)
    } else {
        Seq::empty()
    }
}

/// The code stored at `b[i..i + 4]`.
pub open spec fn code_at(b: Seq<u8>, i: int) -> TypeCode {
    TypeCode([b[i], b[i + 1], b[i + 2], b[i + 3]])
}

/// The code spelled by four ASCII characters.
pub open spec fn tag4(a: char, b: char, c: char, d: char) -> TypeCode {
    TypeCode([a as u8, b as u8, c as u8, d as u8])
}

impl TypeCode {
    /// The code with these four bytes.
    pub fn new(bytes: [u8; 4]) -> (r: TypeCode)
        ensures
            r == TypeCode(bytes),
    {
        TypeCode(bytes)
    }

    /// The code read from `b[i..i + 4]`.
    pub fn read(b: &[u8], i: usize) -> (r: TypeCode)
        requires
            i + 4 <= b@.len(),
        ensures
            r == code_at(b@, i as int),
            r.0@ == b@.subrange(i as int, i + 4),
    {
        let r = TypeCode([b[i], b[i + 1], b[i + 2], b[i + 3]]);
        assert(r.0@ =~= b@.subrange(i as int, i + 4));
        r
    }

    /// The code whose bytes are the UTF-8 encoding of `text`; `None` unless that is
    /// exactly four bytes long.
    pub fn from_utf8(text: &str) -> (r: Option<TypeCode>)
        ensures
            r is Some <==> text.spec_bytes().len() == 4,
            r matches Some(c) ==> c.0@ == text.spec_bytes(),
    {
        let b = text.as_bytes();
        if b.len() == 4 {
            Some(TypeCode::read(b, 0))
        } else {
            None
        }
    }

    /// The code's text (see `code_text`).
    pub fn to_string(&self) -> (r: String)
        ensures
            r@ == code_text(self.0@),
    {
        match utf8_string(&self.0) {
            Some(s) => s,
            None => String::new(),
        }
    }

    /// True when the code is the one with bytes `tag`.
    pub fn is(&self, tag: [u8; 4]) -> (r: bool)
        ensures
            r == (*self == TypeCode(tag)),
    {
        let r = self.0[0] == tag[0] && self.0[1] == tag[1] && self.0[2] == tag[2] && self.0[3]
            == tag[3];
        proof {
            if r {
                assert(self.0 =~= tag);
            }
        }
        r
    }

    /// True when the code is the one spelled by the four ASCII characters.
    pub fn is_tag(&self, a: char, b: char, c: char, d: char) -> (r: bool)
        ensures
            r == (*self == tag4(a, b, c, d)),
    {
        self.is([a as u8, b as u8, c as u8, d as u8])
    }

    /// True when the two codes are equal.
    pub fn same(&self, other: &TypeCode) -> (r: bool)
        ensures
            r == (*self == *other),
    {
        self.is(other.0)
    }
}

/// Text to type code to text gives the text back, for every text of four bytes.
pub proof fn type_code_text_round_trip(text: &str, code: TypeCode)
    requires
        code.0@ == text.spec_bytes(),
    ensures
        code_text(code.0@) == text@,
{
    vstd::utf8::encode_utf8_valid_utf8(text@);
    vstd::utf8::encode_utf8_decode_utf8(text@);
}

/// A 32-bit identifier of a record within the plugin's namespace.
#[derive(Debug, Clone, Copy, PartialEq, Eq, Hash, Default, Structural)]
pub struct FormId(pub u32);

/// The upper-case hexadecimal digit for `d < 16`.
pub open spec fn hex_digit(d: u32) -> char {
    (if d < 10 {
        d + 48
    } else {
        d + 55
    }) as u8 as char
}

/// The fixed-width text of a form id: `0x` and eight upper-case hexadecimal digits, most
/// significant first.
pub open spec fn form_id_text(v: u32) -> Seq<char> {
    seq!['0', 'x'] + Seq::new(8, |i: int| hex_digit((v >> (28 - 4 * i) as u32) & 0xf))
}

proof fn lemma_nibble(x: u32)
    ensures
        x & 0xf < 16,
{
    assert(x & 0xf < 16) by (bit_vector);
}

fn hex_byte(d: u32) -> (r: u8)
    requires
        d < 16,
    ensures
        r == hex_digit(d) as u8,
        r < 128,
{
    if d < 10 {
        (d + 48) as u8
    } else {
        (d + 55) as u8
    }
}

impl FormId {
    /// The id's fixed-width hexadecimal text (see `form_id_text`).
    pub fn to_string(&self) -> (r: String)
        ensures
            r@ == form_id_text(self.0),
    {
        let v = self.0;
        let mut b: Vec<u8> = Vec::new();
        b.push(48);
        b.push(120);
        let mut i: u32 = 0;
        while i < 8
            invariant
                i <= 8,
                v == self.0,
                b@.len() == 2 + i,
                forall|k: int| 0 <= k < 2 + i ==> #[trigger] b@[k] == form_id_text(v)[k] as u8,
            decreases 8 - i,
        {
            let shift = 28 - 4 * i;
            let d = (v >> shift) & 0xf;
            proof {
                lemma_nibble(v >> shift);
            }
            b.push(hex_byte(d));
            assert(form_id_text(v)[2 + i] == hex_digit(d));
            i += 1;
        }
        let ghost text = form_id_text(v);
        assert(is_ascii_chars(text)) by {
            assert forall|k: int| 0 <= k < text.len() implies '\0' <= #[trigger] text[k]
                <= '\u{7f}' by {
                if k >= 2 {
                    lemma_nibble(v >> (28 - 4 * (k - 2)) as u32);
                }
            }
        }
        proof {
            vstd::utf8::is_ascii_chars_encode_utf8(text);
            vstd::utf8::encode_utf8_valid_utf8(text);
            vstd::utf8::encode_utf8_decode_utf8(text);
        }
        assert(b@ =~= vstd::utf8::encode_utf8(text));
        match utf8_string(b.as_slice()) {
            Some(s) => s,
            None => String::new(),
        }
    }
}

/// Relies on `String::from_utf8`: it succeeds exactly on valid UTF-8, and the string
/// holds the characters that the bytes encode.
#[verifier::external_body]
pub(crate) fn utf8_string(bytes: &[u8]) -> (r: Option<String>)
    ensures
        r is Some <==> valid_utf8(bytes@),
        r matches Some(s) ==> s@ == decode_utf8(bytes@),
{
    String::from_utf8(bytes.to_vec()).ok()
}

/// The index of the first zero byte of `s`, if it holds one.
pub open spec fn zero_index(s: Seq<u8>) -> Option<int>
    decreases s.len(),
{
    if s.len() == 0 {
        None
    } else if s[0] == 0 {
        Some(0)
    } else {
        match zero_index(s.drop_first()) {
            Some(k) => Some(k + 1),
            None => None,
        }
    }
}

proof fn lemma_zero_index(s: Seq<u8>, k: int)
    requires
        0 <= k <= s.len(),
        forall|j: int| 0 <= j < k ==> s[j] != 0,
    ensures
        k < s.len() && s[k] == 0 ==> zero_index(s) == Some(k),
        k == s.len() ==> zero_index(s) is None,
    decreases k,
{
    if k > 0 {
        lemma_zero_index(s.drop_first(), k - 1);
    }
}

/// The bytes of `s` without its last byte where that is a terminating zero.
pub open spec fn without_terminator(s: Seq<u8>) -> Seq<u8> {
    if s.len() > 0 && s.last() == 0 {
        s.drop_last()
    } else {
        s
    }
}

proof fn lemma_terminator_keeps_validity(s: Seq<u8>)
    ensures
        valid_utf8(s) <==> valid_utf8(without_terminator(s)),
{
    if s.len() > 0 && s.last() == 0 {
        let t = s.drop_last();
        let z = seq![0u8];
        assert(s =~= t + z);
        assert(valid_utf8(z)) by {
            reveal_with_fuel(valid_utf8, 2);
            assert(vstd::utf8::pop_first_scalar(z) =~= Seq::<u8>::empty());
        }
        if valid_utf8(t) {
            vstd::utf8::valid_utf8_concat(t, z);
        }
        if valid_utf8(s) {
            vstd::utf8::is_char_boundary_iff_is_leading_byte(s, s.len() - 1);
            vstd::utf8::valid_utf8_split(s, s.len() - 1);
            assert(s.subrange(0, s.len() - 1) =~= t);
        }
    }
}

/// A null-terminated UTF-8 string at the start of `s`, with the number of bytes it
/// takes, terminator included.
pub open spec fn zstring_spec(s: Seq<u8>) -> Result<(Seq<char>, int), Error> {
    match zero_index(s) {
        None => Err(Error::Truncated),
        Some(k) => if valid_utf8(s.subrange(0, k)) {
            Ok((decode_utf8(s.subrange(0, k)), k + 1))
        } else {
            Err(Error::InvalidUtf8)
        },
    }
}

/// Finds the first zero byte of `b` at or after `pos`.
pub fn find_zero(b: &[u8], pos: usize) -> (r: Option<usize>)
    requires
        pos <= b@.len(),
    ensures
        r is None ==> zero_index(b@.subrange(pos as int, b@.len() as int)) is None,
        r matches Some(z) ==> zero_index(b@.subrange(pos as int, b@.len() as int)) == Some(
            z - pos,
        ),
        r matches Some(z) ==> pos <= z < b@.len() && b@[z as int] == 0,
{
    let ghost s = b@.subrange(pos as int, b@.len() as int);
    let mut i = pos;
    while i < b.len()
        invariant
            pos <= i <= b@.len(),
            s == b@.subrange(pos as int, b@.len() as int),
            forall|j: int| 0 <= j < i - pos ==> s[j] != 0,
        decreases b@.len() - i,
    {
        if b[i] == 0 {
            proof {
                lemma_zero_index(s, i - pos);
            }
            return Some(i);
        }
        i += 1;
    }
    proof {
        lemma_zero_index(s, i - pos);
    }
    None
}

/// Reads a null-terminated UTF-8 string starting at `b[pos]`; returns it with the
/// position just past its terminator.
pub fn zstring(b: &[u8], pos: usize) -> (r: Result<(String, usize), Error>)
    requires
        pos <= b@.len(),
    ensures
        match (r, zstring_spec(b@.subrange(pos as int, b@.len() as int))) {
            (Ok((s, end)), Ok((t, n))) => s@ == t && end == pos + n,
            (Err(e), Err(f)) => e == f,
            _ => false,
        },
{
    let ghost s = b@.subrange(pos as int, b@.len() as int);
    match find_zero(b, pos) {
        None => Err(Error::Truncated),
        Some(z) => {
            let content = &b[pos..z];
            assert(content@ =~= s.subrange(0, z - pos));
            let _len = b.len();
            match utf8_string(content) {
                Some(text) => Ok((text, z + 1)),
                None => Err(Error::InvalidUtf8),
            }
        },
    }
}

/// The text of `b[pos..end]` without its terminating zero byte, present exactly when
/// all of `b[pos..end]` is valid UTF-8.
pub fn text_without_terminator(b: &[u8], pos: usize, end: usize) -> (r: Option<String>)
    requires
        pos <= end <= b@.len(),
    ensures
        r is Some <==> valid_utf8(b@.subrange(pos as int, end as int)),
        r matches Some(t) ==> t@ == decode_utf8(
            without_terminator(b@.subrange(pos as int, end as int)),
        ),
{
    let span = &b[pos..end];
    let n = end - pos;
    let stop = if n > 0 && span[n - 1] == 0 {
        n - 1
    } else {
        n
    };
    assert(span@.subrange(0, stop as int) =~= without_terminator(span@));
    proof {
        lemma_terminator_keeps_validity(span@);
    }
    utf8_string(&span[0..stop])
}

} // verus!
