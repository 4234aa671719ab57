//! Text built piece by piece.

use vstd::prelude::*;
use vstd::string::*;

verus! {

/// The character of a decimal digit.
pub open spec fn digit(d: nat) -> char {
    if d == 0 {
        '0'
    } else if d == 1 {
        '1'
    } else if d == 2 {
        '2'
    } else if d == 3 {
        '3'
    } else if d == 4 {
        '4'
    } else if d == 5 {
        '5'
    } else if d == 6 {
        '6'
    } else if d == 7 {
        '7'
    } else if d == 8 {
        '8'
    } else {
        '9'
    }
}

/// The decimal digits of `n`, without leading zeros.
pub open spec fn decimal(n: nat) -> Seq<char>
    decreases n,
{
    if n < 10 {
        seq![digit(n)]
    } else {
        decimal(n / 10).push(digit(n % 10))
    }
}

/// The text of one digit.
fn digit_text(d: u64) -> (r: &'static str)
    requires
        d < 10,
    ensures
        r@ == seq![digit(d as nat)],
{
    proof {
        reveal_strlit("0");
        reveal_strlit("1");
        reveal_strlit("2");
        reveal_strlit("3");
        reveal_strlit("4");
        reveal_strlit("5");
        reveal_strlit("6");
        reveal_strlit("7");
        reveal_strlit("8");
        reveal_strlit("9");
    }
    let r = match d {
        0 => "0",
        1 => "1",
        2 => "2",
        3 => "3",
        4 => "4",
        5 => "5",
        6 => "6",
        7 => "7",
        8 => "8",
        _ => "9",
    };
    assert(r@ =~= seq![digit(d as nat)]);
    r
}

/// Appends the decimal digits of `n` to `out`.
pub fn push_decimal(out: &mut String, n: u64)
    ensures
        final(out)@ == old(out)@ + decimal(n as nat),
    decreases n,
{
    if n >= 10 {
        push_decimal(out, n / 10);
    }
    out.append(digit_text(n % 10));
    assert(out@ =~= old(out)@ + decimal(n as nat));
}

/// Joins two pieces of text.
pub fn join2(a: &str, b: &str) -> (r: String)
    ensures
        r@ == a@ + b@,
{
    let mut r = String::new();
    r.append(a);
    r.append(b);
    assert(r@ =~= a@ + b@);
    r
}

/// Tells whether two byte strings are the same.
pub fn same_bytes(a: &[u8], b: &[u8]) -> (r: bool)
    ensures
        r == (a@ == b@),
{
    if a.len() != b.len() {
        return false;
    }
    let mut i: usize = 0;
    while i < a.len()
        invariant
            i <= a@.len(),
            a@.len() == b@.len(),
            forall|j: int| 0 <= j < i ==> a@[j] == b@[j],
        decreases a@.len() - i,
    {
        if a[i] != b[i] {
            return false;
        }
        i += 1;
    }
    assert(a@ =~= b@);
    true
}

/// Texts with the same bytes are the same.
pub proof fn lemma_bytes_determine_text(a: Seq<char>, b: Seq<char>)
    requires
        vstd::utf8::encode_utf8(a) == vstd::utf8::encode_utf8(b),
    ensures
        a == b,
{
    vstd::utf8::encode_utf8_decode_utf8(a);
    vstd::utf8::encode_utf8_decode_utf8(b);
}

/// Tells whether two texts are the same.
pub fn same_text(a: &str, b: &str) -> (r: bool)
    ensures
        r == (a@ == b@),
{
    let r = same_bytes(a.as_bytes(), b.as_bytes());
    proof {
        if r {
            lemma_bytes_determine_text(a@, b@);
        }
    }
    r
}

/// The code of a character with ASCII letters in lower case.
pub open spec fn folded_code(c: char) -> u32 {
    if 65 <= c as u32 <= 90 {
        (c as u32 + 32) as u32
    } else {
        c as u32
    }
}

/// The codes of a text, with ASCII letters in lower case where `fold` says so.
pub open spec fn codes(text: Seq<char>, fold: bool) -> Seq<u32> {
    Seq::new(
        text.len(),
        |i: int|
            if fold {
                folded_code(text[i])
            } else {
                text[i] as u32
            },
    )
}

/// Without folding, texts with the same codes are the same.
pub proof fn lemma_codes_determine_text(a: Seq<char>, b: Seq<char>)
    ensures
        codes(a, false) == codes(b, false) <==> a == b,
{
    if codes(a, false) == codes(b, false) {
        assert(a.len() == codes(a, false).len() && b.len() == codes(b, false).len());
        assert forall|i: int| 0 <= i < a.len() implies a[i] == b[i] by {
            assert(codes(a, false)[i] == codes(b, false)[i]);
            vstd::utf8::char_u32_cast(a[i], a[i] as u32);
            vstd::utf8::char_u32_cast(b[i], b[i] as u32);
        }
        assert(a =~= b);
    }
}

/// Computes the codes of a text.
pub fn text_codes(text: &str, fold: bool) -> (r: Vec<u32>)
    ensures
        r@ == codes(text@, fold),
{
    let mut r: Vec<u32> = Vec::new();
    for c in it: text.chars()
        invariant
            it.seq() == text@,
            r@ == codes(text@.take(it.index() as int), fold),
    {
        let code: u32 = c as u32;
        if fold && 65 <= code && code <= 90 {
            r.push(code + 32);
        } else {
            r.push(code);
        }
        assert(r@ =~= codes(text@.take(it.index() + 1), fold));
    }
    assert(text@.take(text@.len() as int) =~= text@);
    r
}

/// `needle` stands in `text` at place `i`.
pub open spec fn stands_at(text: Seq<u32>, needle: Seq<u32>, i: int) -> bool {
    0 <= i && i + needle.len() <= text.len() && text.subrange(i, i + needle.len()) == needle
}

/// Tells whether `needle` stands in `text` at place `i`.
fn found_at(text: &Vec<u32>, needle: &Vec<u32>, i: usize) -> (r: bool)
    requires
        i + needle@.len() <= text@.len(),
    ensures
        r == stands_at(text@, needle@, i as int),
{
    let n: usize = text.len();
    let mut j: usize = 0;
    while j < needle.len()
        invariant
            j <= needle@.len(),
            n == text@.len(),
            i + needle@.len() <= text@.len(),
            forall|k: int| 0 <= k < j ==> text@[i + k] == needle@[k],
        decreases needle@.len() - j,
    {
        if text[i + j] != needle[j] {
            assert(text@.subrange(i as int, i + needle@.len())[j as int] != needle@[j as int]);
            return false;
        }
        j += 1;
    }
    assert(text@.subrange(i as int, i + needle@.len()) =~= needle@);
    true
}

/// Tells whether `needle` stands anywhere in `text`.
pub fn contains_codes(text: &Vec<u32>, needle: &Vec<u32>) -> (r: bool)
    ensures
        r == exists|i: int| stands_at(text@, needle@, i),
{
    if needle.len() > text.len() {
        return false;
    }
    let last: usize = text.len() - needle.len();
    let mut i: usize = 0;
    while i <= last
        invariant
            i <= last + 1,
            last + needle@.len() == text@.len(),
            forall|k: int| 0 <= k < i ==> !stands_at(text@, needle@, k),
        decreases last + 1 - i,
    {
        if found_at(text, needle, i) {
            return true;
        }
        if i == last {
            return false;
        }
        i += 1;
    }
    false
}

/// Tells whether `text` starts with `needle`.
pub fn starts_with_codes(text: &Vec<u32>, needle: &Vec<u32>) -> (r: bool)
    ensures
        r == stands_at(text@, needle@, 0),
{
    needle.len() <= text.len() && found_at(text, needle, 0)
}

/// Tells whether `text` ends with `needle`.
pub fn ends_with_codes(text: &Vec<u32>, needle: &Vec<u32>) -> (r: bool)
    ensures
        r == stands_at(text@, needle@, text@.len() - needle@.len()),
{
    needle.len() <= text.len() && found_at(text, needle, text.len() - needle.len())
}

/// Tells whether two texts have the same codes.
pub fn same_codes(a: &Vec<u32>, b: &Vec<u32>) -> (r: bool)
    ensures
        r == (a@ == b@),
{
    if a.len() != b.len() {
        return false;
    }
    let r = found_at(a, b, 0);
    assert(a@.subrange(0, b@.len() as int) =~= a@);
    r
}

/// What `std::str::from_utf8` says of bytes that are no text.
pub uninterp spec fn utf8_error_text(bytes: Seq<u8>) -> Seq<char>;

/// Reads bytes as text.
///
/// Calls `std::str::from_utf8`, which accepts exactly the well-formed UTF-8 strings and
/// gives the characters they encode; on any other bytes its error is a function of the
/// bytes.
#[verifier::external_body]
pub(crate) fn text_of_bytes(bytes: &[u8]) -> (r: Result<String, String>)
    ensures
        r is Ok == vstd::utf8::valid_utf8(bytes@),
        r matches Ok(text) ==> text@ == vstd::utf8::decode_utf8(bytes@),
        r matches Err(text) ==> text@ == utf8_error_text(bytes@),
{
    std::str::from_utf8(bytes).map(|text| text.to_owned()).map_err(|err| err.to_string())
}

/// The number that decimal digits stand for.
pub open spec fn decimal_value(digits: Seq<char>) -> int
    decreases digits.len(),
{
    if digits.len() == 0 {
        0
    } else {
        10 * decimal_value(digits.drop_last()) + (digits.last() as int - '0' as int)
    }
}

/// The digits of a number stand for it, and the first is zero for zero alone.
pub proof fn decimal_reads_back(n: nat)
    ensures
        decimal_value(decimal(n)) == n,
        decimal(n).len() >= 1,
        n > 0 ==> decimal(n)[0] != '0',
        forall|i: int| 0 <= i < decimal(n).len() ==> '0' <= #[trigger] decimal(n)[i] <= '9',
    decreases n,
{
    if n < 10 {
        assert(decimal(n).drop_last() =~= Seq::<char>::empty());
        assert(decimal_value(decimal(n).drop_last()) == 0);
    } else {
        decimal_reads_back(n / 10);
        assert(decimal(n).drop_last() =~= decimal(n / 10));
        assert(decimal(n)[0] == decimal(n / 10)[0]);
    }
}

} // verus!
