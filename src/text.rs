use vstd::prelude::*;
use vstd::string::StringSliceAdditionalSpecFns;
use vstd::utf8::{
    encode_scalar, encode_utf8, encode_utf8_valid_utf8, is_char_boundary, length_of_first_scalar,
    pop_first_scalar, valid_utf8,
};

verus! {

/// The UTF-8 byte of a decimal digit.
pub open spec fn is_digit(b: u8) -> bool {
    0x30 <= b && b <= 0x39
}

/// Every byte of `s` is a decimal digit.
pub open spec fn all_digits(s: Seq<u8>) -> bool {
    forall|i: int| 0 <= i < s.len() ==> is_digit(#[trigger] s[i])
}

/// The number written by the digits of `s`, most significant first.
pub open spec fn digits_value(s: Seq<u8>) -> nat
    decreases s.len(),
{
    if s.len() == 0 {
        0
    } else {
        digits_value(s.drop_last()) * 10 + (s.last() - 0x30) as nat
    }
}

/// `s` starts with a `+` or a `-` sign.
pub open spec fn has_sign(s: Seq<u8>) -> bool {
    s.len() > 0 && (s[0] == 0x2B || s[0] == 0x2D)
}

/// The digits of `s` after its sign, if it has one.
pub open spec fn digits_after_sign(s: Seq<u8>) -> Seq<u8> {
    if has_sign(s) {
        s.drop_first()
    } else {
        s
    }
}

/// What the text `s` denotes as a `u32` when it is read as a signed 64-bit
/// integer and then held to the range `0..=u32::MAX`: an optional sign, then
/// one or more decimal digits, of a value in that range (so `-` goes only
/// with a value of 0); `None` for anything else.
pub open spec fn decimal_u32(s: Seq<u8>) -> Option<u32> {
    let d = digits_after_sign(s);
    let negative = s.len() > 0 && s[0] == 0x2D;
    if d.len() > 0 && all_digits(d) && digits_value(d) <= u32::MAX && (!negative || digits_value(d)
        == 0) {
        Some(digits_value(d) as u32)
    } else {
        None
    }
}

/// In UTF-8, a byte below `0x80` is a whole character: there is a character
/// boundary just before it and just after it.
pub proof fn lemma_ascii_byte_boundaries(bytes: Seq<u8>, k: int)
    requires
        valid_utf8(bytes),
        0 <= k < bytes.len(),
        bytes[k] < 0x80,
    ensures
        is_char_boundary(bytes, k),
        is_char_boundary(bytes, k + 1),
    decreases bytes.len(),
{
    let l = length_of_first_scalar(bytes);
    let rest = pop_first_scalar(bytes);
    if k == 0 {
        assert(l == 1);
        assert(is_char_boundary(rest, 0));
    } else {
        assert(k >= l);
        assert(rest[k - l] == bytes[k]);
        lemma_ascii_byte_boundaries(rest, k - l);
    }
}

/// The UTF-8 bytes of two texts put together are the bytes of each, in
/// order.
pub proof fn lemma_encode_concat(a: Seq<char>, b: Seq<char>)
    ensures
        encode_utf8(a + b) == encode_utf8(a) + encode_utf8(b),
    decreases a.len(),
{
    if a.len() == 0 {
        assert(a + b =~= b);
        assert(encode_utf8(a) + encode_utf8(b) =~= encode_utf8(b));
    } else {
        assert((a + b).drop_first() =~= a.drop_first() + b);
        assert((a + b)[0] == a[0]);
        lemma_encode_concat(a.drop_first(), b);
        assert(encode_utf8(a + b) =~= encode_utf8(a) + encode_utf8(b));
    }
}

proof fn lemma_lead_bytes_high(x: u8)
    by (bit_vector)
    ensures
        (0x80u8 | x) != 0x3Au8,
        (0xC0u8 | x) != 0x3Au8,
        (0xE0u8 | x) != 0x3Au8,
        (0xF0u8 | x) != 0x3Au8,
{
}

proof fn lemma_one_byte(v: u32)
    by (bit_vector)
    requires
        v <= 0x7F,
    ensures
        ((v & 0x7F) as u8 == 0x3Au8) == (v == 0x3A),
{
}

/// The UTF-8 encoding of `:` is the single byte `0x3A`, and that of any
/// other character holds no such byte.
pub proof fn lemma_encode_separator(c: char)
    ensures
        c == ':' ==> encode_scalar(c as u32) == seq![0x3Au8],
        c != ':' ==> forall|k: int|
            0 <= k < encode_scalar(c as u32).len() ==> #[trigger] encode_scalar(c as u32)[k]
                != 0x3A,
        encode_scalar(c as u32).len() > 0,
{
    let v = c as u32;
    if v <= 0x7F {
        lemma_one_byte(v);
        assert(':' as u32 == 0x3A);
        if c == ':' {
            assert(encode_scalar(v) =~= seq![0x3Au8]);
        }
    } else {
        lemma_lead_bytes_high(((v >> 6) & 0x1F) as u8);
        lemma_lead_bytes_high(((v >> 12) & 0x0F) as u8);
        lemma_lead_bytes_high(((v >> 18) & 0x7) as u8);
        lemma_lead_bytes_high((v & 0x3F) as u8);
        lemma_lead_bytes_high(((v >> 6) & 0x3F) as u8);
        lemma_lead_bytes_high(((v >> 12) & 0x3F) as u8);
    }
}

/// Text without `:` has no `:` byte in its UTF-8 encoding.
pub proof fn lemma_no_separator_byte(chars: Seq<char>)
    requires
        forall|i: int| 0 <= i < chars.len() ==> #[trigger] chars[i] != ':',
    ensures
        forall|k: int| 0 <= k < encode_utf8(chars).len() ==> #[trigger] encode_utf8(chars)[k] != 0x3A,
    decreases chars.len(),
{
    if chars.len() > 0 {
        let rest = chars.drop_first();
        assert forall|i: int| 0 <= i < rest.len() implies #[trigger] rest[i] != ':' by {
            assert(rest[i] == chars[i + 1]);
        }
        lemma_no_separator_byte(rest);
        lemma_encode_separator(chars[0]);
        let head = encode_scalar(chars[0] as u32);
        assert forall|k: int| 0 <= k < encode_utf8(chars).len() implies #[trigger] encode_utf8(
            chars,
        )[k] != 0x3A by {
            if k < head.len() {
                assert(encode_utf8(chars)[k] == head[k]);
            } else {
                assert(encode_utf8(chars)[k] == encode_utf8(rest)[k - head.len()]);
            }
        }
    }
}

/// A `:` at character position `i` is a `:` byte at the offset that the
/// characters before it take up in UTF-8.
pub proof fn lemma_separator_byte_at(chars: Seq<char>, i: int)
    requires
        0 <= i < chars.len(),
        chars[i] == ':',
    ensures
        encode_utf8(chars.subrange(0, i)).len() < encode_utf8(chars).len(),
        encode_utf8(chars)[encode_utf8(chars.subrange(0, i)).len() as int] == 0x3A,
{
    let pre = chars.subrange(0, i);
    let post = chars.subrange(i, chars.len() as int);
    assert(chars =~= pre + post);
    lemma_encode_concat(pre, post);
    assert(post[0] == ':');
    lemma_encode_separator(':');
    assert(encode_utf8(post)[0] == 0x3A);
}

/// Characters further along take up more UTF-8 bytes before them.
pub proof fn lemma_encode_prefix_grows(chars: Seq<char>, i: int, j: int)
    requires
        0 <= i < j <= chars.len(),
    ensures
        encode_utf8(chars.subrange(0, i)).len() < encode_utf8(chars.subrange(0, j)).len(),
{
    let pre = chars.subrange(0, i);
    let mid = chars.subrange(i, j);
    assert(chars.subrange(0, j) =~= pre + mid);
    lemma_encode_concat(pre, mid);
    lemma_encode_separator(mid[0]);
}

/// Splits `s` around the byte at offset `mid`, leaving that byte out: the
/// text before it and the text after it.
///
/// The split is made only where both `mid` and `mid + 1` are character
/// boundaries, that is where the byte at `mid` is a whole character;
/// otherwise the result is `None`.
pub fn split_at_skip_mid_char(s: &str, mid: usize) -> (r: Option<(&str, &str)>)
    ensures
        r is Some <==> is_char_boundary(s.spec_bytes(), mid as int) && is_char_boundary(
            s.spec_bytes(),
            mid + 1,
        ),
        r matches Some((a, b)) ==> a.spec_bytes() == s.spec_bytes().subrange(0, mid as int)
            && b.spec_bytes() == s.spec_bytes().subrange(mid + 1, s.spec_bytes().len() as int),
{
    let n = s.as_bytes().len();
    proof {
        encode_utf8_valid_utf8(s@);
    }
    if mid < n && s.is_char_boundary(mid) && s.is_char_boundary(mid + 1) {
        let (a, _) = s.split_at(mid);
        let (_, b) = s.split_at(mid + 1);
        Some((a, b))
    } else {
        proof {
            if mid >= n {
                assert(!is_char_boundary(s.spec_bytes(), mid + 1));
            }
        }
        None
    }
}

/// Reads `s` as a `u32` written in decimal, as `decimal_u32` says.
pub fn parse_u32(s: &str) -> (r: Option<u32>)
    ensures
        r == decimal_u32(s.spec_bytes()),
{
    let bytes = s.as_bytes();
    let n = bytes.len();
    let ghost all = s.spec_bytes();
    let start: usize = if n > 0 && (bytes[0] == 0x2B || bytes[0] == 0x2D) {
        1
    } else {
        0
    };
    let negative = n > 0 && bytes[0] == 0x2D;
    let ghost d = digits_after_sign(all);
    assert(d =~= all.subrange(start as int, n as int));
    if start == n {
        return None;
    }
    let mut value: u64 = 0;
    let mut too_large = false;
    let mut i: usize = start;
    while i < n
        invariant
            start <= i <= n,
            n == all.len(),
            all == s.spec_bytes(),
            bytes@ == all,
            d == all.subrange(start as int, n as int),
            d == digits_after_sign(all),
            all_digits(all.subrange(start as int, i as int)),
            !too_large ==> value == digits_value(all.subrange(start as int, i as int)),
            !too_large ==> value <= u32::MAX,
            too_large ==> digits_value(all.subrange(start as int, i as int)) > u32::MAX,
        decreases n - i,
    {
        let c = bytes[i];
        let ghost prefix = all.subrange(start as int, i as int);
        let ghost next = all.subrange(start as int, i + 1 as int);
        assert(next.drop_last() =~= prefix);
        assert(next.last() == c);
        if !(0x30 <= c && c <= 0x39) {
            assert(d[i - start] == c);
            assert(!is_digit(d[i - start]));
            assert(!all_digits(d));
            return None;
        }
        assert(all_digits(next)) by {
            assert forall|j: int| 0 <= j < next.len() implies is_digit(#[trigger] next[j]) by {
                if j < prefix.len() {
                    assert(next[j] == prefix[j]);
                }
            }
        }
        let digit = (c - 0x30) as u64;
        if !too_large {
            value = value * 10 + digit;
            if value > u32::MAX as u64 {
                too_large = true;
            }
        }
        i = i + 1;
    }
    assert(all.subrange(start as int, n as int) == d);
    if too_large || (negative && value != 0) {
        None
    } else {
        Some(value as u32)
    }
}

} // verus!
