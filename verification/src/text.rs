//! Text built from wire bytes: BCD-style ESN expansion, verbatim ASCII
//! copies, and dotted decimal IP strings.
//!
//! Every string a decoder produces is characterised here by a specification
//! function over the raw bytes, and the executable builders are proved to
//! produce exactly those character sequences.

use vstd::prelude::*;

verus! {

/// The character a nibble expands to: `'0'` plus the nibble's value.
/// Nibbles above 9 are not rejected by the wire format; they map to the
/// ASCII characters directly after `'9'`.
pub open spec fn spec_nibble_char(n: u8) -> char {
    ((0x30 + n as int) as u8) as char
}

/// The BCD-style expansion of raw bytes: each byte becomes two characters,
/// high nibble first. The result is twice as long as the input.
pub open spec fn spec_esn_chars(bytes: Seq<u8>) -> Seq<char>
    decreases bytes.len(),
{
    if bytes.len() == 0 {
        Seq::empty()
    } else {
        spec_esn_chars(bytes.drop_last())
            + seq![spec_nibble_char(bytes.last() >> 4), spec_nibble_char(bytes.last() & 0xF)]
    }
}

/// Bytes copied verbatim as characters, one character per byte.
pub open spec fn spec_verbatim_chars(bytes: Seq<u8>) -> Seq<char> {
    Seq::new(bytes.len(), |i: int| bytes[i] as char)
}

/// The decimal rendering of one byte, one to three digits, no leading zeros.
pub open spec fn spec_dec_chars(n: u8) -> Seq<char> {
    if n < 10 {
        seq![spec_nibble_char(n)]
    } else if n < 100 {
        seq![spec_nibble_char(n / 10), spec_nibble_char(n % 10)]
    } else {
        seq![spec_nibble_char(n / 100), spec_nibble_char((n / 10) % 10), spec_nibble_char(n % 10)]
    }
}

/// The dotted rendering of four IP octets, such as `192.168.0.1`.
pub open spec fn spec_ip_chars(a: u8, b: u8, c: u8, d: u8) -> Seq<char> {
    spec_dec_chars(a) + seq!['.'] + spec_dec_chars(b) + seq!['.'] + spec_dec_chars(c) + seq!['.']
        + spec_dec_chars(d)
}

/// Relies on `String::push`: appends the given character to the end of the
/// string and changes nothing else.
#[verifier::external_body]
fn push_char(s: &mut String, c: char)
    ensures
        final(s)@ == old(s)@.push(c),
{
    s.push(c);
}

/// Append the character a nibble expands to.
fn push_nibble_char(s: &mut String, n: u8)
    requires
        n < 16,
    ensures
        final(s)@ == old(s)@.push(spec_nibble_char(n)),
{
    push_char(s, (0x30 + n) as char);
}

/// Both nibbles of a byte are below sixteen.
proof fn lemma_nibble_bounds(b: u8)
    ensures
        b >> 4 < 16,
        b & 0xF < 16,
{
    assert(b >> 4 < 16 && b & 0xF < 16) by (bit_vector);
}

/// Expand raw bytes BCD-style into a string: two characters per byte, high
/// nibble first.
pub fn esn_string(bytes: &[u8]) -> (s: String)
    ensures
        s@ == spec_esn_chars(bytes@),
{
    let mut s = String::new();
    let mut k: usize = 0;
    assert(bytes@.take(0) =~= Seq::<u8>::empty());
    while k < bytes.len()
        invariant
            k <= bytes.len(),
            s@ == spec_esn_chars(bytes@.take(k as int)),
        decreases bytes.len() - k,
    {
        let b = bytes[k];
        proof {
            lemma_nibble_bounds(b);
        }
        push_nibble_char(&mut s, b >> 4);
        push_nibble_char(&mut s, b & 0xF);
        proof {
            let taken = bytes@.take(k as int + 1);
            assert(taken.drop_last() =~= bytes@.take(k as int));
            assert(taken.last() == bytes@[k as int]);
            assert(s@ =~= spec_esn_chars(taken));
        }
        k = k + 1;
    }
    assert(bytes@.take(bytes.len() as int) =~= bytes@);
    s
}

/// Copy bytes verbatim into a string, one character per byte.
pub fn verbatim_string(bytes: &[u8]) -> (s: String)
    ensures
        s@ == spec_verbatim_chars(bytes@),
{
    let mut s = String::new();
    let mut k: usize = 0;
    while k < bytes.len()
        invariant
            k <= bytes.len(),
            s@ == spec_verbatim_chars(bytes@.take(k as int)),
        decreases bytes.len() - k,
    {
        push_char(&mut s, bytes[k] as char);
        proof {
            assert(s@ =~= spec_verbatim_chars(bytes@.take(k as int + 1)));
        }
        k = k + 1;
    }
    assert(bytes@.take(bytes.len() as int) =~= bytes@);
    s
}

/// Append the decimal rendering of one byte.
fn push_dec_chars(s: &mut String, n: u8)
    ensures
        final(s)@ == old(s)@ + spec_dec_chars(n),
{
    if n < 10 {
        push_nibble_char(s, n);
        assert(s@ =~= old(s)@ + spec_dec_chars(n));
    } else if n < 100 {
        push_nibble_char(s, n / 10);
        push_nibble_char(s, n % 10);
        assert(s@ =~= old(s)@ + spec_dec_chars(n));
    } else {
        push_nibble_char(s, n / 100);
        push_nibble_char(s, (n / 10) % 10);
        push_nibble_char(s, n % 10);
        assert(s@ =~= old(s)@ + spec_dec_chars(n));
    }
}

/// The decimal renderings of bytes joined by a comma and a space.
pub open spec fn spec_byte_list_inner(bytes: Seq<u8>) -> Seq<char>
    decreases bytes.len(),
{
    if bytes.len() == 0 {
        Seq::empty()
    } else if bytes.len() == 1 {
        spec_dec_chars(bytes[0])
    } else {
        spec_byte_list_inner(bytes.drop_last()) + seq![',', ' '] + spec_dec_chars(bytes.last())
    }
}

/// A bracketed list of bytes in decimal, such as `[1, 2, 3]`.
pub open spec fn spec_byte_list_chars(bytes: Seq<u8>) -> Seq<char> {
    seq!['['] + spec_byte_list_inner(bytes) + seq![']']
}

/// Render bytes as a bracketed decimal list.
pub fn byte_list_string(bytes: &[u8]) -> (s: String)
    ensures
        s@ == spec_byte_list_chars(bytes@),
{
    let mut s = String::new();
    push_char(&mut s, '[');
    let mut k: usize = 0;
    while k < bytes.len()
        invariant
            k <= bytes.len(),
            s@ == seq!['['] + spec_byte_list_inner(bytes@.take(k as int)),
        decreases bytes.len() - k,
    {
        if k > 0 {
            push_char(&mut s, ',');
            push_char(&mut s, ' ');
        }
        push_dec_chars(&mut s, bytes[k]);
        proof {
            let taken = bytes@.take(k as int + 1);
            assert(taken.drop_last() =~= bytes@.take(k as int));
            assert(taken.last() == bytes@[k as int]);
            assert(s@ =~= seq!['['] + spec_byte_list_inner(taken));
        }
        k = k + 1;
    }
    push_char(&mut s, ']');
    assert(bytes@.take(bytes.len() as int) =~= bytes@);
    assert(s@ =~= spec_byte_list_chars(bytes@));
    s
}

/// Render four IP octets as a dotted decimal string.
pub fn ip_string(a: u8, b: u8, c: u8, d: u8) -> (s: String)
    ensures
        s@ == spec_ip_chars(a, b, c, d),
{
    let mut s = String::new();
    push_dec_chars(&mut s, a);
    push_char(&mut s, '.');
    push_dec_chars(&mut s, b);
    push_char(&mut s, '.');
    push_dec_chars(&mut s, c);
    push_char(&mut s, '.');
    push_dec_chars(&mut s, d);
    assert(s@ =~= spec_ip_chars(a, b, c, d));
    s
}

} // verus!
