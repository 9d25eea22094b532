//! Byte-string and text helpers shared by the other modules.
//!
//! Text is modelled by its characters (`Seq<char>`), raw names by their bytes
//! (`Seq<u8>`); the two meet in UTF-8.
use vstd::prelude::*;
use vstd::slice::slice_to_vec;
use vstd::utf8::{decode_utf8, encode_utf8, valid_utf8};

verus! {

/// The text that stands for arbitrary bytes in a message: what UTF-8 decodes,
/// with a replacement character for each part that it does not.
pub uninterp spec fn lossy_text(bytes: Seq<u8>) -> Seq<char>;

/// A string between double quotes, with the escapes that Rust's `{:?}` uses.
pub uninterp spec fn quoted(text: Seq<char>) -> Seq<char>;

/// Why bytes are not UTF-8, in the words of std's `Utf8Error`.
pub uninterp spec fn utf8_complaint(bytes: Seq<u8>) -> Seq<char>;

/// Wraps `String::from_utf8_lossy`.
///
/// The result is named [`lossy_text`]; on bytes that are valid UTF-8 it is
/// the text that they encode.
#[verifier::external_body]
pub(crate) fn to_lossy_text(bytes: &[u8]) -> (text: String)
    ensures
        text@ == lossy_text(bytes@),
        valid_utf8(bytes@) ==> text@ == decode_utf8(bytes@),
{
    String::from_utf8_lossy(bytes).into_owned()
}

/// Wraps the `Debug` formatting of a string; the result is named [`quoted`].
#[verifier::external_body]
pub(crate) fn quote(text: &str) -> (out: String)
    ensures
        out@ == quoted(text@),
{
    format!("{text:?}")
}

/// Wraps `std::str::from_utf8`: the text where the bytes are UTF-8, and
/// otherwise std's complaint, which is named [`utf8_complaint`].
#[verifier::external_body]
pub(crate) fn parse_utf8(bytes: &[u8]) -> (res: Result<String, String>)
    ensures
        res is Ok <==> valid_utf8(bytes@),
        res matches Ok(text) ==> encode_utf8(text@) == bytes@,
        res matches Err(why) ==> why@ == utf8_complaint(bytes@),
{
    match std::str::from_utf8(bytes) {
        Ok(text) => Ok(text.to_owned()),
        Err(err) => Err(err.to_string()),
    }
}

/// Two texts with the same UTF-8 form are the same text.
pub proof fn lemma_encode_injective(a: Seq<char>, b: Seq<char>)
    requires
        encode_utf8(a) == encode_utf8(b),
    ensures
        a == b,
{
    vstd::utf8::encode_utf8_decode_utf8(a);
    vstd::utf8::encode_utf8_decode_utf8(b);
}

/// Whether two byte strings are equal.
pub fn bytes_eq(a: &[u8], b: &[u8]) -> (res: bool)
    ensures
        res == (a@ == b@),
{
    if a.len() != b.len() {
        return false;
    }
    let mut i: usize = 0;
    while i < a.len()
        invariant
            i <= a@.len(),
            a@.len() == b@.len(),
            a@.take(i as int) == b@.take(i as int),
        decreases a@.len() - i,
    {
        if a[i] != b[i] {
            assert(a@[i as int] != b@[i as int]);
            return false;
        }
        assert(a@.take(i + 1) == a@.take(i as int).push(a@[i as int]));
        assert(b@.take(i + 1) == b@.take(i as int).push(b@[i as int]));
        i += 1;
    }
    assert(a@.take(i as int) == a@);
    assert(b@.take(i as int) == b@);
    true
}

/// Whether two texts are equal.
pub fn text_eq(a: &str, b: &str) -> (res: bool)
    ensures
        res == (a@ == b@),
{
    let same = bytes_eq(a.as_bytes(), b.as_bytes());
    proof {
        if same {
            lemma_encode_injective(a@, b@);
        }
    }
    same
}

/// The bytes of a slice as a vector of their own.
pub fn copy_bytes(bytes: &[u8]) -> (out: Vec<u8>)
    ensures
        out@ == bytes@,
{
    slice_to_vec(bytes)
}

/// Appends the bytes of `more` to `buf`.
pub fn push_bytes(buf: &mut Vec<u8>, more: &[u8])
    ensures
        final(buf)@ == old(buf)@ + more@,
{
    let ghost start = buf@;
    let mut i: usize = 0;
    while i < more.len()
        invariant
            i <= more@.len(),
            buf@ == start + more@.take(i as int),
        decreases more@.len() - i,
    {
        buf.push(more[i]);
        assert(more@.take(i + 1) == more@.take(i as int).push(more@[i as int]));
        i += 1;
    }
    assert(more@.take(i as int) == more@);
}

/// Whether `bytes` begins with `prefix`.
pub fn has_prefix(bytes: &[u8], prefix: &[u8]) -> (res: bool)
    ensures
        res == prefix@.is_prefix_of(bytes@),
{
    if bytes.len() < prefix.len() {
        return false;
    }
    let head = vstd::slice::slice_subrange(bytes, 0, prefix.len());
    let same = bytes_eq(head, prefix);
    assert(head@ == bytes@.subrange(0, prefix@.len() as int));
    same
}

/// Whether `bytes` ends with `suffix`.
pub fn has_suffix(bytes: &[u8], suffix: &[u8]) -> (res: bool)
    ensures
        res == suffix@.is_suffix_of(bytes@),
{
    if bytes.len() < suffix.len() {
        return false;
    }
    let tail = vstd::slice::slice_subrange(bytes, bytes.len() - suffix.len(), bytes.len());
    bytes_eq(tail, suffix)
}

/// The digit characters of a number in base ten.
pub open spec fn decimal(n: nat) -> Seq<char>
    decreases n,
{
    if n < 10 {
        seq![digit(n)]
    } else {
        decimal(n / 10).push(digit(n % 10))
    }
}

/// The character for a digit below ten.
pub open spec fn digit(d: nat) -> char {
    if d == 0 { '0' }
    else if d == 1 { '1' }
    else if d == 2 { '2' }
    else if d == 3 { '3' }
    else if d == 4 { '4' }
    else if d == 5 { '5' }
    else if d == 6 { '6' }
    else if d == 7 { '7' }
    else if d == 8 { '8' }
    else { '9' }
}

/// Writes a digit below ten as text.
fn digit_text(d: u64) -> (out: String)
    requires
        d < 10,
    ensures
        out@ == seq![digit(d as nat)],
{
    proof {
        reveal_strlit("0"); reveal_strlit("1"); reveal_strlit("2"); reveal_strlit("3");
        reveal_strlit("4"); reveal_strlit("5"); reveal_strlit("6"); reveal_strlit("7");
        reveal_strlit("8"); reveal_strlit("9");
    }
    let text = if d == 0 { "0" } else if d == 1 { "1" } else if d == 2 { "2" }
        else if d == 3 { "3" } else if d == 4 { "4" } else if d == 5 { "5" }
        else if d == 6 { "6" } else if d == 7 { "7" } else if d == 8 { "8" } else { "9" };
    let out = text.to_owned();
    assert(out@ =~= seq![digit(d as nat)]);
    out
}

/// Writes a number in base ten.
pub fn decimal_text(n: u64) -> (out: String)
    ensures
        out@ == decimal(n as nat),
    decreases n,
{
    if n < 10 {
        digit_text(n)
    } else {
        let mut out = decimal_text(n / 10);
        let last = digit_text(n % 10);
        out.append(last.as_str());
        assert(out@ =~= decimal(n as nat));
        out
    }
}

/// A number is written digit by digit: one more digit is ten times the number
/// and that digit.
pub proof fn law_numbers_are_written_in_base_ten(n: nat, d: nat)
    requires
        d < 10,
    ensures
        n > 0 ==> decimal(10 * n + d) == decimal(n).push(digit(d)),
        decimal(d) == seq![digit(d)],
        digit(d) as int == '0' as int + d,
{
    assert((10 * n + d) / 10 == n);
    assert((10 * n + d) % 10 == d);
}

} // verus!
