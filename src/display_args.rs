use crate::text::{
    all_digits, decimal_u32, digits_value, is_digit, lemma_ascii_byte_boundaries,
    lemma_encode_prefix_grows, lemma_no_separator_byte, lemma_separator_byte_at, parse_u32,
    split_at_skip_mid_char,
};
use vstd::prelude::*;
use vstd::string::{StringExecFns, StringSliceAdditionalSpecFns};
use vstd::utf8::{encode_utf8, encode_utf8_valid_utf8};

verus! {

/// The settings requested for one display.
#[derive(Clone, Copy, Debug, PartialEq, Eq, Structural)]
pub struct NewDisplayConfig {
    /// Requested refresh rate, in hertz; a parsed request never holds 0.
    pub refresh_rate: u32,
}

/// One requested change: a display index and the settings asked for it.
#[derive(Clone, Copy, Debug, PartialEq, Eq, Structural)]
pub struct DisplayArgs(pub u32, pub NewDisplayConfig);

/// Why a `<index>:<rate>` token was refused.
#[derive(Clone, Copy, Debug, PartialEq, Eq, Structural)]
pub enum ErrorKind {
    /// The token holds no `:`.
    NoSemicolon,
    /// Nothing follows the `:`.
    NoValueAfterSemicolon,
    /// Nothing precedes the `:`.
    NoValueBeforeSemicolon,
    /// The token holds a second `:`.
    TooMuchSemicolon,
    /// The refresh rate is 0.
    RefreshRateNull,
    /// The index or the rate is not a decimal number that fits in 32 bits.
    InvalidInteger,
}

/// The sentence that explains each error to a user.
pub open spec fn parse_error_text(k: ErrorKind) -> Seq<char> {
    match k {
        ErrorKind::NoSemicolon => "Couldn't find any `:` in the input."@,
        ErrorKind::NoValueAfterSemicolon => "No refresh rate after the `:`."@,
        ErrorKind::NoValueBeforeSemicolon => "No display index before the `:`. See subcommands `list` for details."@,
        ErrorKind::TooMuchSemicolon => "Found another `:` after the first `:`"@,
        ErrorKind::RefreshRateNull => "The refresh rate given is null."@,
        ErrorKind::InvalidInteger => "The index and the refresh rate must be unsigned 32-bit integers."@,
    }
}

impl ErrorKind {
    /// The sentence that explains the error to a user.
    pub fn message(&self) -> (r: &'static str)
        ensures
            r@ == parse_error_text(*self),
    {
        match self {
            ErrorKind::NoSemicolon => "Couldn't find any `:` in the input.",
            ErrorKind::NoValueAfterSemicolon => "No refresh rate after the `:`.",
            ErrorKind::NoValueBeforeSemicolon => "No display index before the `:`. See subcommands `list` for details.",
            ErrorKind::TooMuchSemicolon => "Found another `:` after the first `:`",
            ErrorKind::RefreshRateNull => "The refresh rate given is null.",
            ErrorKind::InvalidInteger => "The index and the refresh rate must be unsigned 32-bit integers.",
        }
    }
}

/// The message that refuses a value: the value in backquotes, then the reason.
pub open spec fn invalid_value_message(value: Seq<char>, reason: Seq<char>) -> Seq<char> {
    "Invalid value `"@ + value + "` : "@ + reason
}

/// Builds the message that refuses `value` for `reason`.
pub fn invalid_message(value: &str, reason: &str) -> (r: String)
    ensures
        r@ == invalid_value_message(value@, reason@),
{
    let r = String::from_str("Invalid value `");
    let r = r.concat(value);
    let r = r.concat("` : ");
    r.concat(reason)
}

/// The UTF-8 byte of the separator `:`.
pub open spec fn is_separator(b: u8) -> bool {
    b == 0x3A
}

/// The bytes `s` hold no `:`.
pub open spec fn has_no_separator(s: Seq<u8>) -> bool {
    forall|i: int| 0 <= i < s.len() ==> !is_separator(#[trigger] s[i])
}

/// The only `:` of the bytes `s` stands at offset `p`.
pub open spec fn sole_separator_at(s: Seq<u8>, p: int) -> bool {
    &&& 0 <= p < s.len()
    &&& is_separator(s[p])
    &&& forall|i: int| 0 <= i < s.len() && i != p ==> !is_separator(#[trigger] s[i])
}

/// The bytes `s` hold exactly one `:`.
pub open spec fn has_one_separator(s: Seq<u8>) -> bool {
    exists|p: int| sole_separator_at(s, p)
}

/// What a token whose UTF-8 bytes are `s` means: the request
/// `<index>:<rate>`, or the first rule of the grammar that it breaks, in this
/// order: one `:` exactly, something on each side of it, two numbers as
/// `decimal_u32` reads them, a rate other than 0.
pub open spec fn display_args_of(s: Seq<u8>) -> Result<DisplayArgs, ErrorKind> {
    if has_no_separator(s) {
        Err(ErrorKind::NoSemicolon)
    } else if !has_one_separator(s) {
        Err(ErrorKind::TooMuchSemicolon)
    } else {
        let p = choose|p: int| sole_separator_at(s, p);
        let left = s.subrange(0, p);
        let right = s.subrange(p + 1, s.len() as int);
        if left.len() == 0 {
            Err(ErrorKind::NoValueBeforeSemicolon)
        } else if right.len() == 0 {
            Err(ErrorKind::NoValueAfterSemicolon)
        } else if decimal_u32(left) is None || decimal_u32(right) is None {
            Err(ErrorKind::InvalidInteger)
        } else if decimal_u32(right)->Some_0 == 0 {
            Err(ErrorKind::RefreshRateNull)
        } else {
            Ok(
                DisplayArgs(
                    decimal_u32(left)->Some_0,
                    NewDisplayConfig { refresh_rate: decimal_u32(right)->Some_0 },
                ),
            )
        }
    }
}

/// Reads one `<index>:<rate>` token.
pub fn parse_display_args(value: &str) -> (r: Result<DisplayArgs, ErrorKind>)
    ensures
        r == display_args_of(value.spec_bytes()),
        r matches Ok(a) ==> a.1.refresh_rate > 0,
{
    let bytes = value.as_bytes();
    let n = bytes.len();
    let ghost s = value.spec_bytes();
    let mut first: Option<usize> = None;
    let mut i: usize = 0;
    while i < n
        invariant
            i <= n,
            n == s.len(),
            s == value.spec_bytes(),
            bytes@ == s,
            first is None ==> forall|j: int| 0 <= j < i ==> !is_separator(#[trigger] s[j]),
            first matches Some(f) ==> f < i && is_separator(s[f as int]) && forall|j: int|
                0 <= j < i && j != f ==> !is_separator(#[trigger] s[j]),
        decreases n - i,
    {
        if bytes[i] == 0x3A {
            match first {
                None => {
                    first = Some(i);
                },
                Some(f) => {
                    assert(is_separator(s[f as int]) && is_separator(s[i as int]));
                    assert(!has_no_separator(s));
                    assert(!has_one_separator(s));
                    return Err(ErrorKind::TooMuchSemicolon);
                },
            }
        }
        i = i + 1;
    }
    let first = match first {
        None => {
            return Err(ErrorKind::NoSemicolon);
        },
        Some(f) => f,
    };
    assert(sole_separator_at(s, first as int));
    let ghost p = choose|p: int| sole_separator_at(s, p);
    assert(p == first);
    proof {
        encode_utf8_valid_utf8(value@);
        lemma_ascii_byte_boundaries(s, first as int);
    }
    let (index_str, rate_str) = match split_at_skip_mid_char(value, first) {
        Some(pair) => pair,
        None => {
            return Err(ErrorKind::NoSemicolon);
        },
    };
    if index_str.is_empty() {
        return Err(ErrorKind::NoValueBeforeSemicolon);
    }
    if rate_str.is_empty() {
        return Err(ErrorKind::NoValueAfterSemicolon);
    }
    let index = match parse_u32(index_str) {
        Some(v) => v,
        None => {
            return Err(ErrorKind::InvalidInteger);
        },
    };
    let refresh_rate = match parse_u32(rate_str) {
        Some(v) => v,
        None => {
            return Err(ErrorKind::InvalidInteger);
        },
    };
    if refresh_rate == 0 {
        return Err(ErrorKind::RefreshRateNull);
    }
    Ok(DisplayArgs(index, NewDisplayConfig { refresh_rate }))
}

/// A token made of decimal digits, a `:` and decimal digits, whose two
/// numbers fit in 32 bits and whose rate is not 0, reads as exactly that
/// request. The bytes are those of the token's characters, which are ASCII.
pub proof fn lemma_well_formed_token(index: Seq<u8>, rate: Seq<u8>)
    requires
        index.len() > 0,
        all_digits(index),
        digits_value(index) <= u32::MAX,
        rate.len() > 0,
        all_digits(rate),
        0 < digits_value(rate) <= u32::MAX,
    ensures
        display_args_of(index + seq![0x3Au8] + rate) == Ok::<DisplayArgs, ErrorKind>(
            DisplayArgs(
                digits_value(index) as u32,
                NewDisplayConfig { refresh_rate: digits_value(rate) as u32 },
            ),
        ),
{
    let s = index + seq![0x3Au8] + rate;
    let q = index.len() as int;
    assert forall|i: int| 0 <= i < s.len() && i != q implies !is_separator(#[trigger] s[i]) by {
        if i < q {
            assert(s[i] == index[i]);
        } else {
            assert(s[i] == rate[i - q - 1]);
        }
    }
    assert(sole_separator_at(s, q));
    let p = choose|p: int| sole_separator_at(s, p);
    assert(p == q);
    assert(s.subrange(0, p) =~= index);
    assert(s.subrange(p + 1, s.len() as int) =~= rate);
    assert(is_digit(index[0]) && is_digit(rate[0]));
}

/// A token without `:` is refused for that reason.
pub proof fn lemma_no_separator(s: Seq<u8>)
    requires
        has_no_separator(s),
    ensures
        display_args_of(s) == Err::<DisplayArgs, ErrorKind>(ErrorKind::NoSemicolon),
{
}

/// A token whose characters include no `:` is refused for that reason.
pub proof fn lemma_token_without_separator(value: &str)
    requires
        forall|i: int| 0 <= i < value@.len() ==> #[trigger] value@[i] != ':',
    ensures
        display_args_of(value.spec_bytes()) == Err::<DisplayArgs, ErrorKind>(ErrorKind::NoSemicolon),
{
    lemma_no_separator_byte(value@);
}

/// A token whose characters include two `:` or more is refused for that
/// reason.
pub proof fn lemma_token_with_two_separators(value: &str, i: int, j: int)
    requires
        0 <= i < j < value@.len(),
        value@[i] == ':',
        value@[j] == ':',
    ensures
        display_args_of(value.spec_bytes()) == Err::<DisplayArgs, ErrorKind>(
            ErrorKind::TooMuchSemicolon,
        ),
{
    lemma_separator_byte_at(value@, i);
    lemma_separator_byte_at(value@, j);
    lemma_encode_prefix_grows(value@, i, j);
    lemma_too_many_separators(
        value.spec_bytes(),
        encode_utf8(value@.subrange(0, i)).len() as int,
        encode_utf8(value@.subrange(0, j)).len() as int,
    );
}

/// A token with two `:` or more is refused for that reason.
pub proof fn lemma_too_many_separators(s: Seq<u8>, i: int, j: int)
    requires
        0 <= i < j < s.len(),
        is_separator(s[i]),
        is_separator(s[j]),
    ensures
        display_args_of(s) == Err::<DisplayArgs, ErrorKind>(ErrorKind::TooMuchSemicolon),
{
    assert(!has_no_separator(s));
    assert(!has_one_separator(s));
}

} // verus!
