//! Small text utilities: decimal rendering of port numbers and the
//! visible-ASCII reading of a header value.
use vstd::prelude::*;

verus! {

/// `String::push`.
///
/// Trusted: the string afterwards is the one before with `c` at its end.
#[verifier::external_body]
pub(crate) fn push_char(s: &mut String, c: char)
    ensures
        final(s)@ == old(s)@.push(c),
{
    s.push(c);
}

/// The character of a decimal digit.
pub open spec fn digit_char(d: nat) -> char
    recommends
        d < 10,
{
    (48 + d) as char
}

/// The decimal representation of `n`, without leading zeros.
pub open spec fn decimal(n: nat) -> Seq<char>
    decreases n,
{
    if n < 10 {
        seq![digit_char(n)]
    } else {
        decimal(n / 10).push(digit_char(n % 10))
    }
}

/// Renders a port number in decimal, as `u16`'s `Display` does.
pub fn u16_to_decimal(n: u16) -> (s: String)
    ensures
        s@ == decimal(n as nat),
    decreases n,
{
    let d: u8 = (n % 10) as u8;
    let c: char = (48u8 + d) as char;
    if n < 10 {
        let mut s = String::new();
        push_char(&mut s, c);
        assert(s@ =~= seq![digit_char(n as nat)]);
        s
    } else {
        let mut s = u16_to_decimal(n / 10);
        push_char(&mut s, c);
        s
    }
}

/// Bytes that a header value may hold and still be read as text:
/// visible ASCII and the horizontal tab.
pub open spec fn is_visible_ascii(b: u8) -> bool {
    (32 <= b && b < 127) || b == 9
}

/// The text of a header value: `Some` exactly when every byte is
/// visible ASCII, and then each byte read as one character.
pub open spec fn header_text(bytes: Seq<u8>) -> Option<Seq<char>> {
    if forall|i: int| 0 <= i < bytes.len() ==> is_visible_ascii(#[trigger] bytes[i]) {
        Some(bytes.map_values(|b: u8| b as char))
    } else {
        None
    }
}

/// Reads a header value as text, as `HeaderValue::to_str` does.
pub fn header_value_to_str(bytes: &Vec<u8>) -> (r: Option<String>)
    ensures
        r matches Some(s) ==> header_text(bytes@) == Some(s@),
        r is None ==> header_text(bytes@) is None,
{
    let mut s = String::new();
    let mut i: usize = 0;
    while i < bytes.len()
        invariant
            i <= bytes.len(),
            forall|j: int| 0 <= j < i ==> is_visible_ascii(#[trigger] bytes@[j]),
            s@ =~= bytes@.take(i as int).map_values(|b: u8| b as char),
        decreases bytes.len() - i,
    {
        let b = bytes[i];
        if !((32u8 <= b && b < 127u8) || b == 9u8) {
            return None;
        }
        push_char(&mut s, b as char);
        assert(bytes@.take(i + 1) =~= bytes@.take(i as int).push(b));
        i = i + 1;
    }
    assert(bytes@.take(i as int) =~= bytes@);
    Some(s)
}

} // verus!
