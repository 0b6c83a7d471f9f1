//! Small verified text utilities shared by the protocol modules.

use vstd::prelude::*;
use vstd::string::*;
use vstd::utf8::*;

verus! {

/// True when the character sequence is free of the NUL character.
///
/// The wire protocol uses NUL as the frame delimiter, so property
/// names and values must satisfy this.
pub open spec fn no_nul(s: Seq<char>) -> bool {
    !s.contains('\0')
}

/// Character-for-character equality of two string slices.
pub fn str_eq(a: &str, b: &str) -> (r: bool)
    ensures
        r == (a@ == b@),
{
    let ab = a.as_bytes_vec();
    let bb = b.as_bytes_vec();
    if ab.len() != bb.len() {
        proof {
            if a@ == b@ {
                assert(encode_utf8(a@) == encode_utf8(b@));
            }
        }
        return false;
    }
    let n = ab.len();
    let mut i: usize = 0;
    while i < n
        invariant
            n == ab@.len(),
            ab@.len() == bb@.len(),
            ab@ == encode_utf8(a@),
            bb@ == encode_utf8(b@),
            i <= n,
            forall|j: int| 0 <= j < i ==> ab@[j] == bb@[j],
        decreases n - i,
    {
        if ab[i] != bb[i] {
            proof {
                if a@ == b@ {
                    assert(encode_utf8(a@) == encode_utf8(b@));
                }
            }
            return false;
        }
        i = i + 1;
    }
    proof {
        assert(ab@ =~= bb@);
        encode_utf8_decode_utf8(a@);
        encode_utf8_decode_utf8(b@);
    }
    true
}

/// An element is in a concatenation exactly when it is in one part.
pub proof fn lemma_concat_contains(a: Seq<u8>, b: Seq<u8>, x: u8)
    ensures
        (a + b).contains(x) <==> a.contains(x) || b.contains(x),
{
    if (a + b).contains(x) {
        let i = choose|i: int| 0 <= i < (a + b).len() && (a + b)[i] == x;
        if i < a.len() {
            assert(a[i] == x);
        } else {
            assert(b[i - a.len()] == x);
        }
    }
    if a.contains(x) {
        let i = choose|i: int| 0 <= i < a.len() && a[i] == x;
        assert((a + b)[i] == x);
    }
    if b.contains(x) {
        let i = choose|i: int| 0 <= i < b.len() && b[i] == x;
        assert((a + b)[a.len() + i] == x);
    }
}

/// A scalar's encoding holds the zero byte exactly when the scalar is
/// zero: the lone byte of a one-byte encoding is the scalar itself,
/// and every byte of a wider encoding has a high bit set.
proof fn lemma_encode_scalar_nul(v: u32)
    requires
        is_scalar(v),
    ensures
        encode_scalar(v).contains(0u8) <==> v == 0,
{
    let es = encode_scalar(v);
    if has_width_1_encoding(v) {
        let b = (v & 0x7F) as u8;
        assert((b == 0) == (v == 0)) by (bit_vector)
            requires
                v <= 0x7F,
                b == (v & 0x7F) as u8,
        ;
        assert(es =~= seq![b]);
        if v == 0 {
            assert(es[0] == 0u8);
        } else {
            assert(forall|i: int| 0 <= i < es.len() ==> es[i] != 0u8);
        }
    } else {
        assert(forall|i: int| 0 <= i < es.len() ==> es[i] != 0u8) by {
            let l2 = ((v >> 6) & 0x1F) as u8;
            let l3 = ((v >> 12) & 0x0F) as u8;
            let l4 = ((v >> 18) & 0x7) as u8;
            let c1 = (v & 0x3F) as u8;
            let c2 = ((v >> 6) & 0x3F) as u8;
            let c3 = ((v >> 12) & 0x3F) as u8;
            assert((0xC0u8 | l2) != 0u8) by (bit_vector);
            assert((0xE0u8 | l3) != 0u8) by (bit_vector);
            assert((0xF0u8 | l4) != 0u8) by (bit_vector);
            assert((0x80u8 | c1) != 0u8) by (bit_vector);
            assert((0x80u8 | c2) != 0u8) by (bit_vector);
            assert((0x80u8 | c3) != 0u8) by (bit_vector);
        }
    }
}

/// The UTF-8 encoding of a character sequence holds the zero byte
/// exactly when the sequence holds the NUL character.
pub proof fn lemma_encode_utf8_nul(s: Seq<char>)
    ensures
        encode_utf8(s).contains(0u8) <==> s.contains('\0'),
    decreases s.len(),
{
    if s.len() == 0 {
        assert(!encode_utf8(s).contains(0u8));
        assert(!s.contains('\0'));
    } else {
        let rest = s.drop_first();
        char_is_scalar(s[0]);
        lemma_encode_scalar_nul(s[0] as u32);
        lemma_encode_utf8_nul(rest);
        lemma_concat_contains(encode_scalar(s[0] as u32), encode_utf8(rest), 0u8);
        char_u32_cast(s[0], s[0] as u32);
        char_u32_cast('\0', '\0' as u32);
        assert((s[0] as u32 == 0) == (s[0] == '\0'));
        if s.contains('\0') {
            let i = choose|i: int| 0 <= i < s.len() && s[i] == '\0';
            if i > 0 {
                assert(rest[i - 1] == '\0');
            }
        }
        if rest.contains('\0') {
            let i = choose|i: int| 0 <= i < rest.len() && rest[i] == '\0';
            assert(s[i + 1] == '\0');
        }
    }
}

/// An encoding is at least as long as the characters it spells.
pub proof fn lemma_encode_utf8_len(s: Seq<char>)
    ensures
        encode_utf8(s).len() >= s.len(),
    decreases s.len(),
{
    if s.len() > 0 {
        char_is_scalar(s[0]);
        lemma_encode_utf8_len(s.drop_first());
    }
}

/// Whether the string holds the NUL character.
pub fn contains_nul(s: &str) -> (r: bool)
    ensures
        r == s@.contains('\0'),
{
    let b = s.as_bytes_vec();
    proof {
        lemma_encode_utf8_nul(s@);
    }
    let n = b.len();
    let mut i: usize = 0;
    while i < n
        invariant
            n == b@.len(),
            b@ == encode_utf8(s@),
            i <= n,
            forall|j: int| 0 <= j < i ==> b@[j] != 0u8,
        decreases n - i,
    {
        if b[i] == 0 {
            proof {
                assert(b@.contains(0u8));
                lemma_encode_utf8_nul(s@);
            }
            return true;
        }
        i = i + 1;
    }
    proof {
        assert(!b@.contains(0u8));
    }
    false
}

/// The character spelling one decimal digit.
pub open spec fn digit_char(d: nat) -> char {
    if d == 0 {
        '0'
    } else if d == 1 {
        '1'
    } else if d == 2 {
        '2'
    } else if d == 3 {
        '3'
    } else if d == 4 {
        '4'
    } else if d == 5 {
        '5'
    } else if d == 6 {
        '6'
    } else if d == 7 {
        '7'
    } else if d == 8 {
        '8'
    } else {
        '9'
    }
}

/// The decimal spelling of a number, most significant digit first.
pub open spec fn dec_str_of(n: nat) -> Seq<char>
    decreases n,
{
    if n < 10 {
        seq![digit_char(n)]
    } else {
        dec_str_of(n / 10).push(digit_char(n % 10))
    }
}

/// The one-character string of one decimal digit.
fn digit_str(d: u64) -> (r: &'static str)
    requires
        d < 10,
    ensures
        r@ =~= seq![digit_char(d as nat)],
{
    proof {
        reveal_strlit("0");
        reveal_strlit("1");
        reveal_strlit("2");
        reveal_strlit("3");
        reveal_strlit("4");
        reveal_strlit("5");
        reveal_strlit("6");
        reveal_strlit("7");
        reveal_strlit("8");
        reveal_strlit("9");
    }
    match d {
        0 => "0",
        1 => "1",
        2 => "2",
        3 => "3",
        4 => "4",
        5 => "5",
        6 => "6",
        7 => "7",
        8 => "8",
        _ => "9",
    }
}

/// Spell a number in decimal.
pub fn u64_to_string(n: u64) -> (r: String)
    ensures
        r@ == dec_str_of(n as nat),
    decreases n,
{
    if n < 10 {
        digit_str(n).to_owned()
    } else {
        let mut r = u64_to_string(n / 10);
        r.append(digit_str(n % 10));
        proof {
            assert(r@ =~= dec_str_of(n as nat));
        }
        r
    }
}

/// Relies on `String::from_utf8` of std: it succeeds exactly on valid
/// UTF-8 bytes and returns their decoding.
#[verifier::external_body]
pub(crate) fn bytes_to_string(bytes: Vec<u8>) -> (r: Option<String>)
    ensures
        match r {
            Some(s) => valid_utf8(bytes@) && s@ == decode_utf8(bytes@),
            None => !valid_utf8(bytes@),
        },
{
    String::from_utf8(bytes).ok()
}

} // verus!
