//! Bytes and text: comparison, search and conversion.

use vstd::prelude::*;
use vstd::string::StringExecFns;
use vstd::utf8::{decode_utf8, valid_utf8};

verus! {

/// What std says of bytes that are not valid UTF-8: the text of the error
/// of `String::from_utf8`, which tells where the bytes go wrong.
pub uninterp spec fn utf8_fault(bytes: Seq<u8>) -> String;

/// `String::from_utf8`: the text that `bytes` encode, if they are valid
/// UTF-8; otherwise its error, in the words that std gives it.
#[verifier::external_body]
pub(crate) fn utf8_string(bytes: Vec<u8>) -> (r: Result<String, String>)
    ensures
        r is Ok == valid_utf8(bytes@),
        r matches Ok(s) ==> s@ == decode_utf8(bytes@),
        r matches Err(m) ==> m == utf8_fault(bytes@),
{
    String::from_utf8(bytes).map_err(|e| e.to_string())
}

/// How std writes an optional text for a programmer: `None`, or `Some`
/// and, in brackets and quotes, the text with its special characters escaped.
pub uninterp spec fn debug_of(text: Option<Seq<char>>) -> Seq<char>;

/// std's `Debug` for `Option<String>`, as `format!` applies it.
#[verifier::external_body]
pub(crate) fn debug_text(text: &Option<String>) -> (r: String)
    ensures
        r@ == debug_of(
            match *text {
                Some(t) => Some(t@),
                None => None,
            },
        ),
{
    format!("{:?}", text)
}

/// Whether `s` holds `part` at index `at`.
pub open spec fn holds_at(s: Seq<u8>, at: int, part: Seq<u8>) -> bool {
    0 <= at && at + part.len() <= s.len() && s.subrange(at, at + part.len()) == part
}

/// Whether `part` stands somewhere in `s`.
pub open spec fn contains_seq(s: Seq<u8>, part: Seq<u8>) -> bool {
    exists|at: int| holds_at(s, at, part)
}

/// Whether two byte strings are equal.
pub fn bytes_eq(a: &[u8], b: &[u8]) -> (r: bool)
    ensures
        r == (a@ == b@),
{
    if a.len() != b.len() {
        return false;
    }
    let mut i: usize = 0;
    while i < a.len()
        invariant
            a@.len() == b@.len(),
            i <= a@.len(),
            forall|j: int| 0 <= j < i ==> a@[j] == b@[j],
        decreases a@.len() - i,
    {
        if a[i] != b[i] {
            return false;
        }
        i = i + 1;
    }
    assert(a@ =~= b@);
    true
}

/// Whether `s` holds `part` at index `at`.
pub fn has_at(s: &[u8], at: usize, part: &[u8]) -> (r: bool)
    ensures
        r == holds_at(s@, at as int, part@),
{
    if at > s.len() || part.len() > s.len() - at {
        return false;
    }
    let mut i: usize = 0;
    while i < part.len()
        invariant
            at + part@.len() <= s@.len(),
            s@.len() <= usize::MAX,
            i <= part@.len(),
            forall|j: int| 0 <= j < i ==> s@[at + j] == part@[j],
        decreases part@.len() - i,
    {
        if s[at + i] != part[i] {
            assert(s@.subrange(at as int, at + part@.len())[i as int] != part@[i as int]);
            return false;
        }
        i = i + 1;
    }
    assert(s@.subrange(at as int, at + part@.len()) =~= part@);
    true
}

/// Whether `part` stands somewhere in `s`.
pub fn contains(s: &[u8], part: &[u8]) -> (r: bool)
    ensures
        r == contains_seq(s@, part@),
{
    if part.len() > s.len() {
        return false;
    }
    let last: usize = s.len() - part.len();
    let mut at: usize = 0;
    while at <= last
        invariant
            last + part@.len() == s@.len(),
            s@.len() <= usize::MAX,
            at <= last + 1,
            forall|k: int| 0 <= k < at ==> !holds_at(s@, k, part@),
        decreases last + 1 - at,
    {
        if has_at(s, at, part) {
            return true;
        }
        if at == last {
            assert forall|k: int| !holds_at(s@, k, part@) by {
                if holds_at(s@, k, part@) {
                    assert(0 <= k <= last);
                }
            }
            return false;
        }
        at = at + 1;
    }
    false
}

/// The character of a decimal digit.
pub open spec fn digit_char(d: nat) -> char {
    (48 + d) as u8 as char
}

/// A number in decimal, without leading zeros.
pub open spec fn decimal(n: nat) -> Seq<char>
    decreases n,
{
    if n < 10 {
        seq![digit_char(n)]
    } else {
        decimal(n / 10).push(digit_char(n % 10))
    }
}

/// The text of one decimal digit.
fn digit_str(d: u16) -> (r: &'static str)
    requires
        d < 10,
    ensures
        r@ == seq![digit_char(d as nat)],
{
    proof {
        reveal_strlit("0");
        reveal_strlit("1");
        reveal_strlit("2");
        reveal_strlit("3");
        reveal_strlit("4");
        reveal_strlit("5");
        reveal_strlit("6");
        reveal_strlit("7");
        reveal_strlit("8");
        reveal_strlit("9");
    }
    let r: &'static str = match d {
        0 => "0",
        1 => "1",
        2 => "2",
        3 => "3",
        4 => "4",
        5 => "5",
        6 => "6",
        7 => "7",
        8 => "8",
        _ => "9",
    };
    assert(r@ =~= seq![digit_char(d as nat)]);
    r
}

/// A number in decimal.
pub fn to_decimal(n: u16) -> (r: String)
    ensures
        r@ == decimal(n as nat),
    decreases n,
{
    if n < 10 {
        String::from_str(digit_str(n))
    } else {
        let mut s: String = to_decimal(n / 10);
        s.append(digit_str(n % 10));
        assert(s@ =~= decimal(n as nat));
        s
    }
}

/// A host and a port as `host:port`.
pub open spec fn host_port(host: Seq<char>, port: u16) -> Seq<char> {
    host + seq![':'] + decimal(port as nat)
}

/// A host and a port as `host:port`.
pub fn join_host_port(host: &str, port: u16) -> (r: String)
    ensures
        r@ == host_port(host@, port),
{
    proof {
        reveal_strlit(":");
    }
    let mut s: String = String::from_str(host);
    s.append(":");
    let digits: String = to_decimal(port);
    s.append(digits.as_str());
    assert(":"@ =~= seq![':']);
    s
}

} // verus!
