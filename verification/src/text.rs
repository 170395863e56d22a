//! Byte-level text helpers shared by the decoders.

use vstd::prelude::*;
use vstd::utf8::*;

verus! {

/// Compare two byte slices element by element.
pub fn bytes_eq(a: &[u8], b: &[u8]) -> (r: bool)
    ensures
        r == (a@ == b@),
{
    if a.len() != b.len() {
        return false;
    }
    let mut i: usize = 0;
    while i < a.len()
        invariant
            a@.len() == b@.len(),
            i <= a@.len(),
            forall|j: int| 0 <= j < i ==> a@[j] == b@[j],
        decreases a@.len() - i,
    {
        if a[i] != b[i] {
            return false;
        }
        i = i + 1;
    }
    assert(a@ =~= b@);
    true
}

/// Compare two string slices by their characters.
pub fn str_eq(a: &str, b: &str) -> (r: bool)
    ensures
        r == (a@ == b@),
{
    let r = bytes_eq(a.as_bytes(), b.as_bytes());
    proof {
        encode_utf8_decode_utf8(a@);
        encode_utf8_decode_utf8(b@);
    }
    r
}

/// ASCII decimal digit character of `d` (`0..=9`).
pub open spec fn digit_char(d: int) -> char {
    (d + 48) as char
}

/// Decimal digits of a natural number, most significant first.
pub open spec fn nat_digits(n: nat) -> Seq<char>
    decreases n,
{
    if n < 10 {
        seq![digit_char(n as int)]
    } else {
        nat_digits((n / 10) as nat).push(digit_char((n % 10) as int))
    }
}

/// Decimal rendering of an integer, with a leading `-` when negative.
pub open spec fn decimal_text(v: int) -> Seq<char> {
    if v < 0 {
        seq!['-'] + nat_digits((-v) as nat)
    } else {
        nat_digits(v as nat)
    }
}

/// Whether every byte is ASCII.
pub open spec fn all_ascii(bytes: Seq<u8>) -> bool {
    forall|i: int| 0 <= i < bytes.len() ==> #[trigger] bytes[i] < 128
}

/// The characters of ASCII bytes.
pub open spec fn ascii_chars(bytes: Seq<u8>) -> Seq<char> {
    Seq::new(bytes.len(), |i: int| bytes[i] as char)
}

/// `String::from_utf8` of bytes that are all ASCII, which always succeeds and
/// maps each byte to the character with that code.
#[verifier::external_body]
pub(crate) fn ascii_string(bytes: Vec<u8>) -> (r: String)
    requires
        forall|i: int| 0 <= i < bytes@.len() ==> #[trigger] bytes@[i] < 128,
    ensures
        r@ == ascii_chars(bytes@),
{
    String::from_utf8(bytes).unwrap()
}

/// ASCII bytes of the decimal digits of `n`, most significant first.
pub fn nat_digit_bytes(n: u64) -> (r: Vec<u8>)
    ensures
        ascii_chars(r@) == nat_digits(n as nat),
        forall|i: int| 0 <= i < r@.len() ==> 48 <= #[trigger] r@[i] < 58,
    decreases n,
{
    if n < 10 {
        let r = vec![(n as u8) + 48];
        assert(ascii_chars(r@) =~= nat_digits(n as nat));
        r
    } else {
        let mut r = nat_digit_bytes(n / 10);
        let d = (n % 10) as u8;
        let ghost before = r@;
        r.push(d + 48);
        assert(ascii_chars(r@) =~= ascii_chars(before).push(digit_char((n % 10) as int)));
        r
    }
}

/// Append the ASCII decimal text of `v` to `out`.
pub fn push_decimal(out: &mut Vec<u8>, v: i64)
    requires
        forall|i: int| 0 <= i < old(out)@.len() ==> #[trigger] old(out)@[i] < 128,
    ensures
        ascii_chars(final(out)@) == ascii_chars(old(out)@) + decimal_text(v as int),
        forall|i: int| 0 <= i < final(out)@.len() ==> #[trigger] final(out)@[i] < 128,
{
    let ghost start = out@;
    let digits = if v < 0 {
        out.push(45u8);
        nat_digit_bytes((-(v as i128)) as u64)
    } else {
        nat_digit_bytes(v as u64)
    };
    let ghost mid = out@;
    let ghost d = digits@;
    let mut i: usize = 0;
    while i < digits.len()
        invariant
            i <= digits@.len(),
            digits@ == d,
            forall|j: int| 0 <= j < d.len() ==> 48 <= #[trigger] d[j] < 58,
            forall|j: int| 0 <= j < mid.len() ==> #[trigger] mid[j] < 128,
            out@ == mid + d.subrange(0, i as int),
        decreases digits@.len() - i,
    {
        out.push(digits[i]);
        i = i + 1;
        assert(d.subrange(0, i as int) == d.subrange(0, i - 1).push(d[i - 1]));
    }
    assert(d.subrange(0, d.len() as int) == d);
    assert(ascii_chars(out@) =~= ascii_chars(mid) + ascii_chars(d));
    if v < 0 {
        assert(ascii_chars(mid) =~= ascii_chars(start) + seq!['-']);
    } else {
        assert(mid == start);
    }
    assert(ascii_chars(out@) =~= ascii_chars(start) + decimal_text(v as int));
}

/// Decimal text of an integer (`"-42"`, `"0"`, `"999"`).
pub fn decimal_string(v: i64) -> (r: String)
    ensures
        r@ == decimal_text(v as int),
{
    let mut bytes: Vec<u8> = Vec::new();
    push_decimal(&mut bytes, v);
    assert(ascii_chars(Seq::<u8>::empty()) =~= Seq::<char>::empty());
    assert(ascii_chars(bytes@) =~= decimal_text(v as int));
    ascii_string(bytes)
}

/// Decimal text of a `u64`.
pub fn unsigned_decimal_string(n: u64) -> (r: String)
    ensures
        r@ == nat_digits(n as nat),
{
    let digits = nat_digit_bytes(n);
    ascii_string(digits)
}

/// The characters of a string slice.
pub fn chars_of(s: &str) -> (r: Vec<char>)
    ensures
        r@ == s@,
{
    broadcast use vstd::string::group_string_axioms;

    let mut v: Vec<char> = Vec::new();
    for c in it: s.chars()
        invariant
            v@ == it.seq().take(it.index() as int),
    {
        v.push(c);
    }
    v
}

/// What `String::from_utf8_lossy` makes of a byte string: its UTF-8
/// decoding, with each invalid sequence replaced by U+FFFD.
pub uninterp spec fn utf8_lossy(bytes: Seq<u8>) -> Seq<char>;

/// `String::from_utf8_lossy(bytes).to_string()`. Valid UTF-8 comes back
/// as the text it encodes, so ASCII bytes come back one character per byte.
#[verifier::external_body]
pub(crate) fn lossy_text(bytes: &[u8]) -> (r: String)
    ensures
        r@ == utf8_lossy(bytes@),
        all_ascii(bytes@) ==> r@ == ascii_chars(bytes@),
{
    String::from_utf8_lossy(bytes).to_string()
}

} // verus!
