//! Text helpers: decoding UTF-8 bytes and writing numbers in decimal.
use vstd::prelude::*;
use vstd::utf8::{
    decode_utf8, encode_utf8, encode_utf8_decode_utf8, encode_utf8_valid_utf8, is_ascii_chars,
    is_ascii_chars_encode_utf8, valid_utf8,
};

verus! {

/// `String::from_utf8`: the string whose UTF-8 encoding is `v`, when `v` is
/// valid UTF-8, and nothing otherwise.
#[verifier::external_body]
pub(crate) fn string_from_utf8(v: Vec<u8>) -> (r: Option<String>)
    ensures
        r is Some <==> valid_utf8(v@),
        r matches Some(s) ==> s@ == decode_utf8(v@),
{
    String::from_utf8(v).ok()
}

/// The characters that the ASCII bytes `b` stand for.
pub open spec fn ascii_chars(b: Seq<u8>) -> Seq<char> {
    Seq::new(b.len(), |i: int| b[i] as char)
}

/// Every byte of `b` is an ASCII character.
pub open spec fn all_ascii(b: Seq<u8>) -> bool {
    forall|i: int| 0 <= i < b.len() ==> b[i] < 128
}

/// ASCII bytes are valid UTF-8 and decode to the characters they stand for.
pub proof fn lemma_ascii_decode(b: Seq<u8>)
    requires
        all_ascii(b),
    ensures
        valid_utf8(b),
        decode_utf8(b) == ascii_chars(b),
{
    let c = ascii_chars(b);
    assert(is_ascii_chars(c)) by {
        assert forall|i| 0 <= i < c.len() implies '\0' <= #[trigger] c[i] <= '\u{7f}' by {
            assert(b[i] < 128);
        }
    }
    is_ascii_chars_encode_utf8(c);
    assert(encode_utf8(c) =~= b) by {
        assert forall|i| 0 <= i < b.len() implies encode_utf8(c)[i] == b[i] by {
            assert(c[i] as u8 == encode_utf8(c)[i]);
            assert(c[i] == b[i] as char);
        }
    }
    encode_utf8_valid_utf8(c);
    encode_utf8_decode_utf8(c);
}

/// An ASCII text takes one UTF-8 byte per character.
pub proof fn lemma_ascii_utf8_len(s: Seq<char>)
    requires
        is_ascii_chars(s),
    ensures
        encode_utf8(s).len() == s.len(),
{
    is_ascii_chars_encode_utf8(s);
}

/// Turns ASCII bytes into the string of the characters they stand for.
pub fn ascii_to_string(v: Vec<u8>) -> (r: String)
    requires
        all_ascii(v@),
    ensures
        r@ == ascii_chars(v@),
{
    proof {
        lemma_ascii_decode(v@);
    }
    let r = string_from_utf8(v);
    match r {
        Some(s) => s,
        None => {
            proof {
                assert(false);
            }
            String::new()
        },
    }
}

/// The decimal digits of `n` as ASCII bytes, without leading zeros.
pub open spec fn decimal_digits(n: nat) -> Seq<u8>
    decreases n,
{
    if n < 10 {
        seq![(48 + n) as u8]
    } else {
        decimal_digits(n / 10).push((48 + n % 10) as u8)
    }
}

/// The decimal digits of `n`, with zeros in front up to `width` characters.
pub open spec fn zero_padded(n: nat, width: nat) -> Seq<u8> {
    let d = decimal_digits(n);
    if d.len() < width {
        Seq::new((width - d.len()) as nat, |i: int| 48u8) + d
    } else {
        d
    }
}

pub proof fn lemma_decimal_digits_ascii(n: nat)
    ensures
        all_ascii(decimal_digits(n)),
        decimal_digits(n).len() >= 1,
    decreases n,
{
    if n >= 10 {
        lemma_decimal_digits_ascii(n / 10);
    }
}

/// Appends the decimal digits of `n` to `out`.
pub fn push_decimal(out: &mut Vec<u8>, n: u64)
    ensures
        final(out)@ == old(out)@ + decimal_digits(n as nat),
    decreases n,
{
    if n >= 10 {
        push_decimal(out, n / 10);
    }
    out.push((48 + n % 10) as u8);
    proof {
        if n >= 10 {
            assert(old(out)@ + decimal_digits(n as nat) =~= old(out)@ + decimal_digits(
                (n / 10) as nat,
            ).push((48 + n % 10) as u8));
        }
    }
}

/// Appends the decimal digits of `n`, zero padded to `width` characters, to `out`.
pub fn push_zero_padded(out: &mut Vec<u8>, n: u64, width: usize)
    ensures
        final(out)@ == old(out)@ + zero_padded(n as nat, width as nat),
{
    let mut digits: Vec<u8> = Vec::new();
    push_decimal(&mut digits, n);
    assert(digits@ =~= decimal_digits(n as nat));
    let ghost start = out@;
    if digits.len() < width {
        let pad = width - digits.len();
        let mut i: usize = 0;
        while i < pad
            invariant
                i <= pad,
                pad == width - digits@.len(),
                out@ =~= start + Seq::new(i as nat, |j: int| 48u8),
            decreases pad - i,
        {
            out.push(48u8);
            i = i + 1;
        }
    }
    let ghost mid = out@;
    let mut k: usize = 0;
    while k < digits.len()
        invariant
            k <= digits@.len(),
            out@ =~= mid + digits@.take(k as int),
        decreases digits@.len() - k,
    {
        out.push(digits[k]);
        k = k + 1;
    }
    assert(digits@.take(digits@.len() as int) =~= digits@);
}

/// The decimal digits of `n` as a string.
pub fn decimal_string(n: u64) -> (r: String)
    ensures
        r@ == ascii_chars(decimal_digits(n as nat)),
{
    let mut v: Vec<u8> = Vec::new();
    push_decimal(&mut v, n);
    proof {
        lemma_decimal_digits_ascii(n as nat);
        assert(v@ =~= decimal_digits(n as nat));
    }
    ascii_to_string(v)
}

/// The string of the characters `v`, as collecting them into a `String`
/// (`String::from_iter`) makes it.
#[verifier::external_body]
pub(crate) fn string_from_chars(v: Vec<char>) -> (r: String)
    ensures
        r@ == v@,
{
    String::from_iter(v)
}

/// The characters of `s`.
pub fn chars_of(s: &str) -> (r: Vec<char>)
    ensures
        r@ == s@,
{
    let mut v: Vec<char> = Vec::new();
    for c in it: s.chars()
        invariant
            v@ == it.seq().take(it.index()),
            it.seq() == s@,
    {
        v.push(c);
    }
    v
}

/// The pieces of `s` between the separators `sep`, as `str::split` gives
/// them: one piece more than there are separators, empty pieces included.
pub open spec fn split_on(s: Seq<char>, sep: char) -> Seq<Seq<char>>
    decreases s.len(),
{
    if s.len() == 0 {
        seq![Seq::<char>::empty()]
    } else {
        let r = split_on(s.drop_last(), sep);
        if s.last() == sep {
            r.push(Seq::<char>::empty())
        } else {
            r.update(r.len() - 1, r.last().push(s.last()))
        }
    }
}

pub proof fn lemma_split_on_nonempty(s: Seq<char>, sep: char)
    ensures
        split_on(s, sep).len() >= 1,
    decreases s.len(),
{
    if s.len() > 0 {
        lemma_split_on_nonempty(s.drop_last(), sep);
    }
}

/// The views of a list of strings.
pub open spec fn string_views(v: Seq<String>) -> Seq<Seq<char>> {
    v.map_values(|x: String| x@)
}

/// The pieces of `s` between the separators `sep` (see `split_on`).
pub fn split_string(s: &str, sep: char) -> (r: Vec<String>)
    ensures
        string_views(r@) == split_on(s@, sep),
{
    let chars = chars_of(s);
    let mut pieces: Vec<String> = Vec::new();
    let mut cur: Vec<char> = Vec::new();
    let mut i: usize = 0;
    while i < chars.len()
        invariant
            i <= chars@.len(),
            chars@ == s@,
            string_views(pieces@).push(cur@) =~= split_on(s@.take(i as int), sep),
        decreases chars@.len() - i,
    {
        let c = chars[i];
        proof {
            assert(s@.take(i + 1).drop_last() =~= s@.take(i as int));
            lemma_split_on_nonempty(s@.take(i as int), sep);
        }
        if c == sep {
            let done = string_from_chars(cur);
            pieces.push(done);
            cur = Vec::new();
        } else {
            cur.push(c);
        }
        i = i + 1;
    }
    let last = string_from_chars(cur);
    pieces.push(last);
    assert(s@.take(chars@.len() as int) =~= s@);
    pieces
}

} // verus!
