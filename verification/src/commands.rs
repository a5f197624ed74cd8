//! Argument values for the command-line front end.

use vstd::prelude::*;
use core::num::ParseIntError;

verus! {

/// The value of a digit character in bases up to 36, if it is one.
pub open spec fn char_digit(c: char) -> Option<int> {
    if '0' <= c && c <= '9' {
        Some(c as int - '0' as int)
    } else if 'a' <= c && c <= 'z' {
        Some(c as int - 'a' as int + 10)
    } else if 'A' <= c && c <= 'Z' {
        Some(c as int - 'A' as int + 10)
    } else {
        None
    }
}

/// Every character of `s` is a digit of base `radix`.
pub open spec fn all_digits(s: Seq<char>, radix: int) -> bool {
    forall|i: int| 0 <= i < s.len() ==> ((#[trigger] char_digit(s[i])) matches Some(v) && v < radix)
}

/// The number the digits `s` write in base `radix`, most significant first.
pub open spec fn digits_value(s: Seq<char>, radix: int) -> int
    decreases s.len(),
{
    if s.len() == 0 {
        0
    } else {
        digits_value(s.drop_last(), radix) * radix + char_digit(s.last()).unwrap_or(0)
    }
}

/// The digits of an unsigned number's text: the text without a leading `+`.
pub open spec fn unsigned_digits(s: Seq<char>) -> Seq<char> {
    if s.len() > 0 && s[0] == '+' {
        s.drop_first()
    } else {
        s
    }
}

/// The text is an optional `+` and one or more digits of base `radix` whose
/// value fits in a `u32`.
pub open spec fn u32_text_ok(s: Seq<char>, radix: int) -> bool {
    let d = unsigned_digits(s);
    &&& d.len() > 0
    &&& all_digits(d, radix)
    &&& digits_value(d, radix) <= u32::MAX
}

/// The value of such a text.
pub open spec fn u32_text_value(s: Seq<char>, radix: int) -> int {
    digits_value(unsigned_digits(s), radix)
}

/// The text starts with a `0x` or `0X` prefix.
pub open spec fn has_hex_prefix(s: Seq<char>) -> bool {
    s.len() >= 2 && s[0] == '0' && (s[1] == 'x' || s[1] == 'X')
}

#[verifier::external_type_specification]
#[verifier::external_body]
pub struct ExParseIntError(ParseIntError);

/// `str::strip_prefix` with a string pattern: the rest of `s` after
/// `prefix`, when `s` starts with it.
#[verifier::external_body]
fn strip_prefix<'a>(s: &'a str, prefix: &str) -> (r: Option<&'a str>)
    ensures
        r is Some <==> (prefix@.len() <= s@.len() && s@.take(prefix@.len() as int) == prefix@),
        r matches Some(t) ==> t@ == s@.skip(prefix@.len() as int),
{
    s.strip_prefix(prefix)
}

/// `u32::from_str_radix`: an optional `+` then digits of the base, with
/// no other character, and a value that fits; otherwise an error.
#[verifier::external_body]
fn u32_from_str_radix(s: &str, radix: u32) -> (r: core::result::Result<u32, ParseIntError>)
    requires
        2 <= radix <= 36,
    ensures
        r is Ok <==> u32_text_ok(s@, radix as int),
        r matches Ok(v) ==> v == u32_text_value(s@, radix as int),
{
    u32::from_str_radix(s, radix)
}

/// `str::parse::<u32>`: decimal digits after an optional `+`, with a value
/// that fits; otherwise an error.
#[verifier::external_body]
fn u32_parse(s: &str) -> (r: core::result::Result<u32, ParseIntError>)
    ensures
        r is Ok <==> u32_text_ok(s@, 10),
        r matches Ok(v) ==> v == u32_text_value(s@, 10),
{
    s.parse::<u32>()
}

/// `t` begins with `p`.
pub open spec fn starts_with(t: Seq<char>, p: Seq<char>) -> bool {
    p.len() <= t.len() && t.take(p.len() as int) == p
}

/// The start of the message for a hexadecimal ID `s` that does not parse.
pub open spec fn hex_id_message_start(s: Seq<char>) -> Seq<char> {
    "invalid hex ID '"@ + s + "': "@
}

/// The start of the message for a decimal ID `s` that does not parse.
pub open spec fn decimal_id_message_start(s: Seq<char>) -> Seq<char> {
    "invalid ID '"@ + s + "': "@
}

/// The message for a hexadecimal ID that does not parse, made with
/// `format!`: the fixed text with the ID as it is, then the parse error's
/// own text (which is left unstated).
#[verifier::external_body]
fn hex_id_message(s: &str, e: &ParseIntError) -> (m: String)
    ensures
        starts_with(m@, hex_id_message_start(s@)),
{
    format!("invalid hex ID '{s}': {e}")
}

/// The message for a decimal ID that does not parse, made with `format!`:
/// the fixed text with the ID as it is, then the parse error's own text
/// (which is left unstated).
#[verifier::external_body]
fn decimal_id_message(s: &str, e: &ParseIntError) -> (m: String)
    ensures
        starts_with(m@, decimal_id_message_start(s@)),
{
    format!("invalid ID '{s}': {e}")
}

/// Parse a u32 from decimal or hex (0x prefix).
pub fn parse_id(s: &str) -> (r: core::result::Result<u32, String>)
    ensures
        has_hex_prefix(s@) ==> (r is Ok <==> u32_text_ok(s@.skip(2), 16)),
        has_hex_prefix(s@) ==> (r matches Ok(v) ==> v == u32_text_value(s@.skip(2), 16)),
        !has_hex_prefix(s@) ==> (r is Ok <==> u32_text_ok(s@, 10)),
        !has_hex_prefix(s@) ==> (r matches Ok(v) ==> v == u32_text_value(s@, 10)),
        has_hex_prefix(s@) ==> (r matches Err(m) ==> starts_with(m@, hex_id_message_start(s@))),
        !has_hex_prefix(s@) ==> (r matches Err(m) ==> starts_with(m@, decimal_id_message_start(s@))),
{
    proof {
        reveal_strlit("0x");
        reveal_strlit("0X");
    }
    let hex = match strip_prefix(s, "0x") {
        Some(h) => Some(h),
        None => strip_prefix(s, "0X"),
    };
    proof {
        if hex is Some {
            assert(s@.len() >= 2);
            let t = s@.take(2);
            assert(t[0] == s@[0] && t[1] == s@[1]);
            assert(t == "0x"@ || t == "0X"@);
            assert(has_hex_prefix(s@));
        }
        if has_hex_prefix(s@) {
            if s@[1] == 'x' {
                assert(s@.take(2) =~= "0x"@);
            } else {
                assert(s@.take(2) =~= "0X"@);
            }
        }
    }
    match hex {
        Some(h) => match u32_from_str_radix(h, 16) {
            Ok(v) => Ok(v),
            Err(e) => Err(hex_id_message(s, &e)),
        },
        None => match u32_parse(s) {
            Ok(v) => Ok(v),
            Err(e) => Err(decimal_id_message(s, &e)),
        },
    }
}

/// Which table the `list` command prints.
#[derive(Debug, Clone, Copy, PartialEq, Eq, Structural)]
pub enum ListKind {
    SoundBanks,
    Streaming,
    External,
}

/// The table that the `list` flags select: streaming files with `-s` (also
/// when `-e` is given too), external files with `-e` alone, sound banks
/// otherwise.
pub fn list_kind(streaming: bool, external: bool) -> (k: ListKind)
    ensures
        k == (if streaming {
            ListKind::Streaming
        } else if external {
            ListKind::External
        } else {
            ListKind::SoundBanks
        }),
{
    if streaming {
        ListKind::Streaming
    } else if external {
        ListKind::External
    } else {
        ListKind::SoundBanks
    }
}

} // verus!
