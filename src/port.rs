//! Mapping of USB hub topology paths to logical port numbers.
use vstd::prelude::*;
use crate::text::str_eq;

verus! {

/// The fixed hub topology: which hardware path is which logical port.
pub open spec fn logical_port_of(path: Seq<char>) -> Option<u32> {
    if path == "1-1.4"@ {
        Some(1u32)
    } else if path == "1-1.2"@ {
        Some(2u32)
    } else if path == "1-1.1"@ {
        Some(3u32)
    } else if path == "1-1.3.4"@ {
        Some(4u32)
    } else if path == "1-1.3.2"@ {
        Some(5u32)
    } else if path == "1-1.3.1"@ {
        Some(6u32)
    } else if path == "1-1.3.3"@ {
        Some(7u32)
    } else {
        None
    }
}

/// Known hub paths map to ports 1 to 7, and no two paths share a port.
pub proof fn logical_ports_one_to_one(a: Seq<char>, b: Seq<char>)
    ensures
        match logical_port_of(a) {
            Some(k) => 1 <= k <= 7 && (logical_port_of(b) == Some(k) ==> a == b),
            None => true,
        },
{
}

/// Map a USB hardware path to the physical port number (1-7) on the hub.
pub fn usb_port_to_int(port: &str) -> (r: Option<u32>)
    ensures
        r == logical_port_of(port@),
{
    if str_eq(port, "1-1.4") {
        Some(1)
    } else if str_eq(port, "1-1.2") {
        Some(2)
    } else if str_eq(port, "1-1.1") {
        Some(3)
    } else if str_eq(port, "1-1.3.4") {
        Some(4)
    } else if str_eq(port, "1-1.3.2") {
        Some(5)
    } else if str_eq(port, "1-1.3.1") {
        Some(6)
    } else if str_eq(port, "1-1.3.3") {
        Some(7)
    } else {
        None
    }
}

/// The pattern that finds the hub port in a device location string such as
/// `Port_#0001.Hub_#0004`.
pub open spec fn location_pattern() -> Seq<char> {
    "Port_#(\\d+)"@
}

/// What the first capture group of the leftmost match of `pattern` in `text`
/// holds; `None` when the pattern does not compile or does not match.
pub uninterp spec fn first_capture_of(pattern: Seq<char>, text: Seq<char>) -> Option<Seq<char>>;

/// Relies on `regex::Regex::new` and `regex::Regex::captures`: the text of
/// group 1 of the leftmost match of `pattern` in `text`.
#[verifier::external_body]
fn first_capture(pattern: &str, text: &str) -> (r: Option<String>)
    ensures
        match r {
            Some(g) => first_capture_of(pattern@, text@) == Some(g@),
            None => first_capture_of(pattern@, text@) is None,
        },
{
    let re = regex::Regex::new(pattern).ok()?;
    re.captures(text).and_then(|c| c.get(1)).map(|m| m.as_str().to_string())
}

pub open spec fn is_ascii_digit(c: char) -> bool {
    '0' <= c && c <= '9'
}

/// The value of a text of ASCII digits.
pub open spec fn decimal_value(s: Seq<char>) -> nat
    decreases s.len(),
{
    if s.len() == 0 {
        0
    } else {
        decimal_value(s.drop_last()) * 10 + (s.last() as u32 - '0' as u32) as nat
    }
}

/// The text after an optional leading `+`.
pub open spec fn unsigned_part(s: Seq<char>) -> Seq<char> {
    if s.len() > 0 && s[0] == '+' {
        s.drop_first()
    } else {
        s
    }
}

/// What `u32::from_str` accepts: an optional `+`, then one or more ASCII
/// digits whose value fits in 32 bits.
pub open spec fn parsed_u32(s: Seq<char>) -> Option<u32> {
    let body = unsigned_part(s);
    if body.len() > 0 && (forall|i: int| 0 <= i < body.len() ==> is_ascii_digit(#[trigger] body[i]))
        && decimal_value(body) <= u32::MAX {
        Some(decimal_value(body) as u32)
    } else {
        None
    }
}

proof fn lemma_decimal_value_grows(s: Seq<char>, i: int)
    requires
        0 <= i <= s.len(),
        forall|k: int| 0 <= k < s.len() ==> is_ascii_digit(#[trigger] s[k]),
    ensures
        decimal_value(s.subrange(0, i)) <= decimal_value(s),
    decreases s.len() - i,
{
    if i < s.len() {
        lemma_decimal_value_grows(s, i + 1);
        assert(s.subrange(0, i + 1).drop_last() =~= s.subrange(0, i));
    } else {
        assert(s.subrange(0, i) =~= s);
    }
}

/// Parse a decimal `u32` as `u32::from_str` does.
pub fn parse_u32(s: &str) -> (r: Option<u32>)
    ensures
        r == parsed_u32(s@),
{
    let n = s.unicode_len();
    let start: usize = if n > 0 && s.get_char(0) == '+' {
        1
    } else {
        0
    };
    let ghost body = unsigned_part(s@);
    assert(body =~= s@.subrange(start as int, n as int));
    if start == n {
        return None;
    }
    let mut i: usize = start;
    while i < n
        invariant
            start <= i <= n,
            n == s@.len(),
            body == unsigned_part(s@),
            body =~= s@.subrange(start as int, n as int),
            forall|k: int| 0 <= k < i - start ==> is_ascii_digit(#[trigger] body[k]),
        decreases n - i,
    {
        let c = s.get_char(i);
        if !('0' <= c && c <= '9') {
            assert(!is_ascii_digit(body[i - start]));
            assert(parsed_u32(s@) is None);
            return None;
        }
        i += 1;
    }
    let mut v: u64 = 0;
    let mut j: usize = start;
    while j < n
        invariant
            start <= j <= n,
            n == s@.len(),
            body == unsigned_part(s@),
            body =~= s@.subrange(start as int, n as int),
            forall|k: int| 0 <= k < body.len() ==> is_ascii_digit(#[trigger] body[k]),
            v == decimal_value(body.subrange(0, j - start)),
            v <= u32::MAX,
        decreases n - j,
    {
        let c = s.get_char(j);
        assert(body.subrange(0, j + 1 - start).drop_last() =~= body.subrange(0, j - start));
        assert(body[j - start] == c);
        v = v * 10 + ((c as u32) - ('0' as u32)) as u64;
        if v > 0xFFFF_FFFF {
            proof {
                lemma_decimal_value_grows(body, j + 1 - start);
                assert(parsed_u32(s@) is None);
            }
            return None;
        }
        j += 1;
    }
    assert(body.subrange(0, n - start) =~= body);
    Some(v as u32)
}

/// The hub port number in a device location text such as
/// `Port_#0001.Hub_#0004`, taken from the digits after the first `Port_#`.
pub open spec fn hub_port_of(text: Seq<char>) -> Option<u32> {
    match first_capture_of(location_pattern(), text) {
        Some(g) => parsed_u32(g),
        None => None,
    }
}

/// Extract the hub port number from a device location text.
pub fn usb_port_from_location(text: &str) -> (r: Option<u32>)
    ensures
        r == hub_port_of(text@),
{
    let pattern = "Port_#(\\d+)";
    match first_capture(pattern, text) {
        Some(g) => parse_u32(g.as_str()),
        None => None,
    }
}

} // verus!
