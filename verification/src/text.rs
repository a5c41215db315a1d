//! Conversions between strings and their UTF-8 bytes.
use vstd::prelude::*;
use vstd::utf8::*;
use crate::wire::push_all;

verus! {

#[verifier::external_type_specification]
#[verifier::external_body]
pub struct ExFromUtf8Error(std::string::FromUtf8Error);

/// The UTF-8 bytes of a string.
pub open spec fn utf8_of(s: Seq<char>) -> Seq<u8> {
    encode_utf8(s)
}

/// What `String::from_utf8_lossy` makes of `bytes`: a name for the decoding
/// that replaces each invalid sequence by U+FFFD.
pub uninterp spec fn lossy_utf8(bytes: Seq<u8>) -> Seq<char>;

/// Calls `String::from_utf8`. Its documentation: the result is `Ok` exactly
/// when the bytes are valid UTF-8, and then the string holds those bytes.
#[verifier::external_body]
pub fn string_from_utf8(bytes: Vec<u8>) -> (r: Result<String, std::string::FromUtf8Error>)
    ensures
        r is Ok <==> valid_utf8(bytes@),
        r matches Ok(s) ==> s@ == decode_utf8(bytes@),
{
    String::from_utf8(bytes)
}

/// Calls `String::from_utf8_lossy` and takes the owned string. Its
/// documentation: valid UTF-8 comes back unchanged; otherwise each invalid
/// sequence is replaced by U+FFFD. Which replacement is made is left to
/// `lossy_utf8`.
#[verifier::external_body]
pub fn string_from_utf8_lossy(bytes: &[u8]) -> (r: String)
    ensures
        r@ == lossy_utf8(bytes@),
        valid_utf8(bytes@) ==> r@ == decode_utf8(bytes@),
{
    String::from_utf8_lossy(bytes).into_owned()
}

/// The number of UTF-8 bytes of `s`.
pub fn utf8_len(s: &String) -> (r: usize)
    ensures
        r == utf8_of(s@).len(),
{
    s.as_str().as_bytes().len()
}

/// The UTF-8 bytes of `s`, as a vector.
pub fn string_bytes(s: &String) -> (r: Vec<u8>)
    ensures
        r@ == utf8_of(s@),
{
    let mut r: Vec<u8> = Vec::new();
    push_all(&mut r, s.as_str().as_bytes());
    r
}

/// A string from bytes known to be valid UTF-8.
pub fn string_from_valid(bytes: Vec<u8>) -> (r: String)
    requires
        valid_utf8(bytes@),
    ensures
        r@ == decode_utf8(bytes@),
        utf8_of(r@) == bytes@,
{
    let ghost b = bytes@;
    match string_from_utf8(bytes) {
        Ok(s) => {
            proof { decode_utf8_encode_utf8(b); }
            s
        },
        Err(_) => {
            proof { assert(false); }
            String::new()
        },
    }
}

} // verus!

verus! {

/// The decimal digits of `n`, as ASCII bytes, without leading zeros.
pub open spec fn decimal_text(n: nat) -> Seq<u8>
    decreases n,
{
    if n < 10 {
        seq![(0x30 + n) as u8]
    } else {
        decimal_text(n / 10).push((0x30 + n % 10) as u8)
    }
}

/// Whether every byte is ASCII.
pub open spec fn all_ascii(s: Seq<u8>) -> bool {
    forall|i: int| 0 <= i < s.len() ==> #[trigger] s[i] < 0x80
}

/// The decimal text of a number is ASCII, at least one digit long, and no
/// longer than the number plus one.
pub proof fn lemma_decimal_text_ascii(n: nat)
    ensures
        all_ascii(decimal_text(n)),
        decimal_text(n).len() >= 1,
        decimal_text(n).len() <= n + 1,
    decreases n,
{
    if n >= 10 {
        lemma_decimal_text_ascii(n / 10);
    }
}

/// ASCII bytes are valid UTF-8.
pub proof fn lemma_ascii_valid_utf8(s: Seq<u8>)
    requires
        all_ascii(s),
    ensures
        valid_utf8(s),
{
    assert(s.subrange(0, 0) =~= Seq::<u8>::empty());
    assert(valid_utf8(Seq::<u8>::empty()));
    assert(partial_valid_utf8(s, 0));
    assert forall|i: int| 0 <= 0 <= i < s.len() <= s.len() implies #[trigger] is_leading_byte_width_1(s[i]) by {
        assert(s[i] < 0x80);
    }
    partial_valid_utf8_extend_ascii_block(s, 0, s.len() as int);
    assert(s.subrange(0, s.len() as int) =~= s);
}

/// Appends the decimal digits of `n` to `out`.
pub fn push_decimal(out: &mut Vec<u8>, n: u64)
    ensures
        final(out)@ == old(out)@ + decimal_text(n as nat),
    decreases n,
{
    if n >= 10 {
        push_decimal(out, n / 10);
    }
    let d = (n % 10) as u8;
    out.push(0x30 + d);
    proof {
        if n >= 10 {
            assert(decimal_text(n as nat) == decimal_text((n / 10) as nat).push((0x30 + n % 10) as u8));
        }
    }
    assert(out@ =~= old(out)@ + decimal_text(n as nat));
}

/// The decimal text of `n`.
pub fn decimal_string(n: u64) -> (r: String)
    ensures
        utf8_of(r@) == decimal_text(n as nat),
        r@ == decode_utf8(decimal_text(n as nat)),
{
    let mut bytes: Vec<u8> = Vec::new();
    push_decimal(&mut bytes, n);
    assert(bytes@ =~= decimal_text(n as nat));
    proof {
        lemma_decimal_text_ascii(n as nat);
        lemma_ascii_valid_utf8(bytes@);
    }
    string_from_valid(bytes)
}

} // verus!
