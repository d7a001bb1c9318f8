//! Byte and text helpers shared by the rules: substring search, UTF-8 slices
//! of the source, and decimal rendering of numbers.

use vstd::prelude::*;
use vstd::string::*;
use vstd::utf8::*;

verus! {

/// `needle` stands in `hay` starting at offset `at`.
pub open spec fn occurs_at(hay: Seq<u8>, needle: Seq<u8>, at: int) -> bool {
    &&& 0 <= at
    &&& at + needle.len() <= hay.len()
    &&& hay.subrange(at, at + needle.len()) == needle
}

/// `needle` stands somewhere in `hay` as a contiguous run of bytes.
pub open spec fn contains(hay: Seq<u8>, needle: Seq<u8>) -> bool {
    exists|at: int| occurs_at(hay, needle, at)
}

/// Compares `needle` with the bytes of `hay` that start at `at`.
pub fn matches_at(hay: &[u8], needle: &[u8], at: usize) -> (found: bool)
    requires
        at + needle@.len() <= hay@.len(),
    ensures
        found == occurs_at(hay@, needle@, at as int),
{
    let n = hay.len();
    let m = needle.len();
    let mut k: usize = 0;
    while k < m
        invariant
            n == hay@.len(),
            m == needle@.len(),
            at + m <= n,
            k <= m,
            forall|j: int| 0 <= j < k ==> hay@[at + j] == needle@[j],
        decreases m - k,
    {
        if hay[at + k] != needle[k] {
            proof {
                assert(hay@.subrange(at as int, at + m)[k as int] == hay@[at + k]);
            }
            return false;
        }
        k += 1;
    }
    proof {
        assert(hay@.subrange(at as int, at + m) =~= needle@);
    }
    true
}

/// Substring search on bytes.
pub fn contains_bytes(hay: &[u8], needle: &[u8]) -> (found: bool)
    ensures
        found == contains(hay@, needle@),
{
    let n = hay.len();
    let m = needle.len();
    if m > n {
        return false;
    }
    let last = n - m;
    let mut at: usize = 0;
    loop
        invariant
            n == hay@.len(),
            m == needle@.len(),
            last == n - m,
            at <= last,
            forall|k: int| 0 <= k < at ==> !occurs_at(hay@, needle@, k),
        decreases last - at,
    {
        if matches_at(hay, needle, at) {
            return true;
        }
        if at == last {
            return false;
        }
        at += 1;
    }
}

/// Equality of two byte strings.
pub fn same_bytes(a: &[u8], b: &[u8]) -> (same: bool)
    ensures
        same == (a@ == b@),
{
    if a.len() != b.len() {
        return false;
    }
    let same = matches_at(a, b, 0);
    proof {
        assert(a@.subrange(0, a@.len() as int) =~= a@);
    }
    same
}

/// Equality of two texts, character by character.
pub fn same_text(a: &str, b: &str) -> (same: bool)
    ensures
        same == (a@ == b@),
{
    broadcast use encode_utf8_decode_utf8;

    let same = same_bytes(a.as_bytes(), b.as_bytes());
    proof {
        if same {
            assert(decode_utf8(encode_utf8(a@)) == decode_utf8(encode_utf8(b@)));
        }
    }
    same
}

/// The bytes of `source` from `start` up to `end`, where they lie inside the
/// source and form valid UTF-8; nothing otherwise.
pub open spec fn span_text(source: Seq<u8>, start: int, end: int) -> Option<Seq<u8>> {
    if 0 <= start <= end <= source.len() && valid_utf8(source.subrange(start, end)) {
        Some(source.subrange(start, end))
    } else {
        None
    }
}

/// `std::str::from_utf8`: the bytes come back as a string slice exactly when
/// they are valid UTF-8, and the slice then holds those same bytes.
#[verifier::external_body]
fn utf8_str(bytes: &[u8]) -> (text: Option<&str>)
    ensures
        text is Some <==> valid_utf8(bytes@),
        text matches Some(s) ==> s.spec_bytes() == bytes@,
{
    std::str::from_utf8(bytes).ok()
}

/// Reads the text of the span `[start, end)` of `source`.
pub fn read_span(source: &[u8], start: usize, end: usize) -> (text: Option<&str>)
    ensures
        match span_text(source@, start as int, end as int) {
            Some(bytes) => text matches Some(s) && s.spec_bytes() == bytes && s@ == decode_utf8(
                bytes,
            ),
            None => text is None,
        },
{
    broadcast use encode_utf8_decode_utf8;

    if start <= end && end <= source.len() {
        utf8_str(&source[start..end])
    } else {
        None
    }
}

/// The character that stands for a digit below ten.
pub open spec fn digit(d: nat) -> char {
    if d == 0 {
        '0'
    } else if d == 1 {
        '1'
    } else if d == 2 {
        '2'
    } else if d == 3 {
        '3'
    } else if d == 4 {
        '4'
    } else if d == 5 {
        '5'
    } else if d == 6 {
        '6'
    } else if d == 7 {
        '7'
    } else if d == 8 {
        '8'
    } else {
        '9'
    }
}

/// A number written in decimal, without sign and without leading zeros.
pub open spec fn decimal(n: nat) -> Seq<char>
    decreases n,
{
    if n < 10 {
        seq![digit(n)]
    } else {
        decimal(n / 10).push(digit(n % 10))
    }
}

/// The text of one digit.
fn digit_text(d: u64) -> (text: &'static str)
    requires
        d < 10,
    ensures
        text@ == seq![digit(d as nat)],
{
    let text = if d == 0 {
        "0"
    } else if d == 1 {
        "1"
    } else if d == 2 {
        "2"
    } else if d == 3 {
        "3"
    } else if d == 4 {
        "4"
    } else if d == 5 {
        "5"
    } else if d == 6 {
        "6"
    } else if d == 7 {
        "7"
    } else if d == 8 {
        "8"
    } else {
        "9"
    };
    proof {
        reveal_strlit("0");
        reveal_strlit("1");
        reveal_strlit("2");
        reveal_strlit("3");
        reveal_strlit("4");
        reveal_strlit("5");
        reveal_strlit("6");
        reveal_strlit("7");
        reveal_strlit("8");
        reveal_strlit("9");
        assert(text@ =~= seq![digit(d as nat)]);
    }
    text
}

/// Appends `n`, written in decimal, to `out`.
pub fn push_decimal(out: &mut String, n: u64)
    ensures
        final(out)@ == old(out)@ + decimal(n as nat),
    decreases n,
{
    if n >= 10 {
        push_decimal(out, n / 10);
    }
    out.append(digit_text(n % 10));
    proof {
        if n >= 10 {
            assert(final(out)@ =~= old(out)@ + decimal(n as nat));
        } else {
            assert(final(out)@ =~= old(out)@ + decimal(n as nat));
        }
    }
}

} // verus!
