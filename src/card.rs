//! Card identifiers: upper-case hexadecimal rendering, its inverse, and
//! extraction of the identifier from a reader's GET DATA response.
use vstd::prelude::*;

verus! {

/// The upper-case hexadecimal digit for `n` (0 to 15).
pub open spec fn hex_digit(n: nat) -> char {
    if n < 10 {
        ('0' as u32 + n) as char
    } else {
        ('A' as u32 + n - 10) as char
    }
}

/// Two upper-case hex digits per byte, most significant nibble first.
pub open spec fn hex_text(b: Seq<u8>) -> Seq<char>
    decreases b.len(),
{
    if b.len() == 0 {
        Seq::empty()
    } else {
        hex_text(b.drop_last()) + seq![hex_digit(b.last() as nat / 16), hex_digit(b.last() as nat % 16)]
    }
}

/// The value of a hex digit of either case.
pub open spec fn hex_value(c: char) -> Option<nat> {
    if '0' <= c && c <= '9' {
        Some((c as u32 - '0' as u32) as nat)
    } else if 'A' <= c && c <= 'F' {
        Some((c as u32 - 'A' as u32 + 10) as nat)
    } else if 'a' <= c && c <= 'f' {
        Some((c as u32 - 'a' as u32 + 10) as nat)
    } else {
        None
    }
}

/// Case-insensitive hex decoding: `None` on an odd length or a non-hex character.
pub open spec fn hex_decode(s: Seq<char>) -> Option<Seq<u8>>
    decreases s.len(),
{
    if s.len() == 0 {
        Some(Seq::empty())
    } else if s.len() == 1 {
        None
    } else {
        match (hex_decode(s.subrange(0, s.len() - 2)), hex_value(s[s.len() - 2]), hex_value(
            s[s.len() - 1],
        )) {
            (Some(front), Some(hi), Some(lo)) => Some(front.push((hi * 16 + lo) as u8)),
            _ => None,
        }
    }
}

/// A character is an upper-case hex digit.
pub open spec fn is_upper_hex(c: char) -> bool {
    ('0' <= c && c <= '9') || ('A' <= c && c <= 'F')
}

/// Hex rendering has two upper-case hex digits per byte and decodes back to
/// the original bytes.
pub proof fn hex_text_round_trip(b: Seq<u8>)
    ensures
        hex_text(b).len() == 2 * b.len(),
        forall|i: int| 0 <= i < hex_text(b).len() ==> is_upper_hex(#[trigger] hex_text(b)[i]),
        hex_decode(hex_text(b)) == Some(b),
    decreases b.len(),
{
    if b.len() > 0 {
        let front = b.drop_last();
        hex_text_round_trip(front);
        let x = b.last();
        let t = hex_text(b);
        let hi = x as nat / 16;
        let lo = x as nat % 16;
        assert(t.subrange(0, t.len() - 2) =~= hex_text(front));
        assert(hex_value(hex_digit(hi)) == Some(hi));
        assert(hex_value(hex_digit(lo)) == Some(lo));
        assert((hi * 16 + lo) as u8 == x);
        assert(front.push(x) =~= b);
        assert forall|i: int| 0 <= i < t.len() implies is_upper_hex(#[trigger] t[i]) by {
            if i < t.len() - 2 {
                assert(t[i] == hex_text(front)[i]);
            }
        }
    }
}

fn hex_digit_char(n: u8) -> (c: char)
    requires
        n < 16,
    ensures
        c == hex_digit(n as nat),
{
    if n < 10 {
        (48u8 + n) as char
    } else {
        (55u8 + n) as char
    }
}

/// Hex text of the first `n` bytes.
fn hex_upper_prefix(bytes: &[u8], n: usize) -> (s: String)
    requires
        n <= bytes@.len(),
    ensures
        s@ == hex_text(bytes@.subrange(0, n as int)),
{
    let mut s = String::new();
    let mut i: usize = 0;
    while i < n
        invariant
            i <= n <= bytes@.len(),
            s@ == hex_text(bytes@.subrange(0, i as int)),
        decreases n - i,
    {
        let b = bytes[i];
        s.push(hex_digit_char(b / 16));
        s.push(hex_digit_char(b % 16));
        assert(bytes@.subrange(0, i + 1).drop_last() =~= bytes@.subrange(0, i as int));
        i += 1;
    }
    s
}

/// Render bytes as upper-case hexadecimal, two digits per byte.
pub fn hex_upper(bytes: &[u8]) -> (s: String)
    ensures
        s@ == hex_text(bytes@),
{
    let s = hex_upper_prefix(bytes, bytes.len());
    assert(bytes@.subrange(0, bytes@.len() as int) =~= bytes@);
    s
}

/// The card identifier in a GET DATA response `[id bytes..] SW1 SW2`: the
/// hex text of the id bytes when the response has at least four bytes and
/// ends with the success status 90 00.
pub open spec fn idm_of_response(r: Seq<u8>) -> Option<Seq<char>> {
    if r.len() >= 4 && r[r.len() - 2] == 0x90 && r[r.len() - 1] == 0x00 {
        Some(hex_text(r.subrange(0, r.len() - 2)))
    } else {
        None
    }
}

/// Extract the card identifier from a GET DATA response.
pub fn parse_idm_response(response: &[u8]) -> (r: Option<String>)
    ensures
        match r {
            Some(s) => idm_of_response(response@) == Some(s@),
            None => idm_of_response(response@) is None,
        },
{
    let n = response.len();
    if n < 4 {
        return None;
    }
    if response[n - 2] == 0x90 && response[n - 1] == 0x00 {
        Some(hex_upper_prefix(response, n - 2))
    } else {
        None
    }
}

/// The GET DATA command that asks a reader for the card identifier.
pub fn get_idm_command() -> (r: Vec<u8>)
    ensures
        r@ == seq![0xFFu8, 0xCAu8, 0x00u8, 0x00u8, 0x00u8],
{
    let mut r: Vec<u8> = Vec::new();
    r.push(0xFF);
    r.push(0xCA);
    r.push(0x00);
    r.push(0x00);
    r.push(0x00);
    r
}

/// An identifier of all zero bytes: the driver reported no card.
pub fn is_blank_idm(idm: &[u8]) -> (r: bool)
    ensures
        r == forall|i: int| 0 <= i < idm@.len() ==> idm@[i] == 0,
{
    let mut i: usize = 0;
    while i < idm.len()
        invariant
            i <= idm@.len(),
            forall|j: int| 0 <= j < i ==> idm@[j] == 0,
        decreases idm@.len() - i,
    {
        if idm[i] != 0 {
            return false;
        }
        i += 1;
    }
    true
}

} // verus!
