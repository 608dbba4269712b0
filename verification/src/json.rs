//! The JSON text of the values that cross the boundary.

use vstd::prelude::*;
use crate::text::{chars_of, push_literal, string_of};

verus! {

/// The JSON string literal, quotes included, that rustc_serialize's encoder
/// writes for `text`.
pub uninterp spec fn json_quoted(text: Seq<char>) -> Seq<char>;

/// Encodes `text` as a JSON string literal with
/// `rustc_serialize::json::encode`. The encoder writes into a string in
/// memory, which cannot fail, so the text is always there.
#[verifier::external_body]
pub(crate) fn quote(text: &String) -> (quoted: String)
    ensures
        quoted@ == json_quoted(text@),
{
    rustc_serialize::json::encode(text).unwrap()
}

/// The character of a decimal digit.
pub open spec fn digit(value: nat) -> char {
    if value == 0 {
        '0'
    } else if value == 1 {
        '1'
    } else if value == 2 {
        '2'
    } else if value == 3 {
        '3'
    } else if value == 4 {
        '4'
    } else if value == 5 {
        '5'
    } else if value == 6 {
        '6'
    } else if value == 7 {
        '7'
    } else if value == 8 {
        '8'
    } else {
        '9'
    }
}

/// The decimal numeral of `value`, without leading zeros.
pub open spec fn decimal(value: nat) -> Seq<char>
    decreases value,
{
    if value < 10 {
        seq![digit(value)]
    } else {
        decimal(value / 10).push(digit(value % 10))
    }
}

/// The character of the decimal digit `value`.
fn digit_char(value: u16) -> (ch: char)
    requires
        value < 10,
    ensures
        ch == digit(value as nat),
{
    if value == 0 {
        '0'
    } else if value == 1 {
        '1'
    } else if value == 2 {
        '2'
    } else if value == 3 {
        '3'
    } else if value == 4 {
        '4'
    } else if value == 5 {
        '5'
    } else if value == 6 {
        '6'
    } else if value == 7 {
        '7'
    } else if value == 8 {
        '8'
    } else {
        '9'
    }
}

/// Appends the decimal numeral of `value` to `out`.
pub fn push_decimal(out: &mut Vec<char>, value: u16)
    ensures
        final(out)@ == old(out)@ + decimal(value as nat),
    decreases value,
{
    if value >= 10 {
        push_decimal(out, value / 10);
    }
    out.push(digit_char(value % 10));
    assert(final(out)@ =~= old(out)@ + decimal(value as nat));
}

/// The JSON object of a completed backup, given the quoted destination.
pub open spec fn backup_object(quoted_dest_file: Seq<char>) -> Seq<char> {
    "{\"dest_file\":"@ + quoted_dest_file + "}"@
}

/// The JSON object of a failure, given its status code and its two quoted
/// messages.
pub open spec fn error_object(
    status: nat,
    quoted_developer_message: Seq<char>,
    quoted_user_message: Seq<char>,
) -> Seq<char> {
    "{\"status\":"@ + decimal(status) + ",\"developerMessage\":"@ + quoted_developer_message
        + ",\"userMessage\":"@ + quoted_user_message + "}"@
}

/// Frames the object of a completed backup round its quoted destination.
pub fn frame_backup(quoted_dest_file: &str) -> (object: String)
    ensures
        object@ == backup_object(quoted_dest_file@),
{
    let mut out: Vec<char> = Vec::new();
    push_literal(&mut out, "{\"dest_file\":");
    let mut value = chars_of(quoted_dest_file);
    out.append(&mut value);
    push_literal(&mut out, "}");
    string_of(&out)
}

/// Frames the object of a failure round its status code and its two quoted
/// messages.
pub fn frame_error(status: u16, quoted_developer_message: &str, quoted_user_message: &str) -> (object:
    String)
    ensures
        object@ == error_object(status as nat, quoted_developer_message@, quoted_user_message@),
{
    let mut out: Vec<char> = Vec::new();
    push_literal(&mut out, "{\"status\":");
    push_decimal(&mut out, status);
    push_literal(&mut out, ",\"developerMessage\":");
    let mut developer = chars_of(quoted_developer_message);
    out.append(&mut developer);
    push_literal(&mut out, ",\"userMessage\":");
    let mut user = chars_of(quoted_user_message);
    out.append(&mut user);
    push_literal(&mut out, "}");
    string_of(&out)
}

} // verus!
