//! HTTP status codes in words.

use vstd::prelude::*;

use crate::text::{decimal, decimal_text};

verus! {

/// The canonical reason phrase of a status code, as [`http::StatusCode::canonical_reason`] has it.
pub uninterp spec fn canonical_reason(code: u16) -> Option<Seq<char>>;

/// Calls [`http::StatusCode::canonical_reason`]: the registered phrase for a status code, such as
/// `Not Found` for 404. Numbers that are not status codes, below 100 or above 999, have none.
#[verifier::external_body]
fn reason_phrase(code: u16) -> (reason: Option<String>)
    ensures
        reason is Some <==> canonical_reason(code) is Some,
        reason matches Some(text) ==> canonical_reason(code) == Some(text@),
        code < 100 || code > 999 ==> reason is None,
{
    http::StatusCode::from_u16(code).ok()?.canonical_reason().map(str::to_owned)
}

/// A status code and its reason phrase, such as `404 Not Found`.
pub open spec fn status_line(code: u16) -> Seq<char> {
    decimal(code as nat) + " "@ + match canonical_reason(code) {
        Some(reason) => reason,
        None => "<unknown status code>"@,
    }
}

/// Writes a status code and its reason phrase.
pub fn status_text(code: u16) -> (text: String)
    ensures
        text@ == status_line(code),
{
    let mut text = decimal_text(code as u64);
    text.append(" ");
    match reason_phrase(code) {
        Some(reason) => text.append(reason.as_str()),
        None => text.append("<unknown status code>"),
    }
    text
}

/// The words for a status begin with its number in base ten and one space. Behind them stands the
/// registered phrase, or the same remark for every status that has none.
pub proof fn law_status_words(code: u16)
    ensures
        ({
            let number = decimal(code as nat);
            let line = status_line(code);
            &&& crate::text::number_of(number) == code
            &&& line.take(number.len() as int) == number
            &&& line[number.len() as int] == ' '
            &&& line.skip(number.len() as int + 1) == match canonical_reason(code) {
                Some(reason) => reason,
                None => "<unknown status code>"@,
            }
        }),
{
    reveal_strlit(" ");
    crate::text::law_decimal_reads_back(code as nat);
    let number = decimal(code as nat);
    let line = status_line(code);
    assert(line.take(number.len() as int) =~= number);
    assert(line.skip(number.len() as int + 1) =~= match canonical_reason(code) {
        Some(reason) => reason,
        None => "<unknown status code>"@,
    });
}

} // verus!
