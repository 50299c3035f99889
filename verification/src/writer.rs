//! The attachment writer: what a downloaded response is called, where it
//! goes, and what is put down for a link.

use crate::cache::Fatal;
use crate::naming::{
    invented_name, is_hyphenated_id, join, joined, name_from_header, name_of_header, NameError,
};
use crate::text::as_text;
use vstd::prelude::*;
use vstd::string::StringExecFns;
use vstd::utf8::{decode_utf8, valid_utf8};

verus! {

/// The status by which the service says that the quota is used up.
pub const TOO_MANY_REQUESTS: u16 = 429;

/// What is put down in place of a payload that is no text.
pub const UNPRINTABLE: &'static str = "Could not print bytes";

/// The name under which a file response is stored.
#[derive(Debug)]
pub struct FileName {
    pub text: String,
    /// Whether the response named no file, so that a name was made up.
    pub invented: bool,
}

/// Why a file response is not stored.
#[derive(Clone, Copy, Debug, PartialEq, Eq, Structural)]
pub enum WriteError {
    /// The run stops.
    Stop(Fatal),
    /// The response has a content-disposition header that gives no name.
    Name(NameError),
}

/// What the bytes of a content-disposition header give: nothing where they
/// are no valid UTF-8, and otherwise what the header gives that they spell.
pub open spec fn name_of_disposition(raw: Seq<u8>) -> Result<Seq<char>, NameError> {
    if valid_utf8(raw) {
        name_of_header(decode_utf8(raw))
    } else {
        Err(NameError::NotText)
    }
}

/// The name of a file response, from its status and the bytes of its
/// content-disposition header. The quota status stops the run before
/// anything else is looked at. A response with the header gets the name
/// that the header gives, and is not stored where the header gives none;
/// one without the header gets a fresh made-up name.
pub fn name_response(status: u16, disposition: Option<&[u8]>) -> (name: Result<FileName, WriteError>)
    ensures
        status == TOO_MANY_REQUESTS <==> name == Err::<FileName, WriteError>(
            WriteError::Stop(Fatal::QuotaExhausted),
        ),
        name matches Err(WriteError::Stop(why)) ==> why == Fatal::QuotaExhausted,
        status != TOO_MANY_REQUESTS ==> match disposition {
            Some(raw) => match name_of_disposition(raw@) {
                Ok(expected) => {
                    &&& name matches Ok(found)
                    &&& !found.invented
                    &&& found.text@ == expected
                },
                Err(why) => name == Err::<FileName, WriteError>(WriteError::Name(why)),
            },
            None => {
                &&& name matches Ok(made)
                &&& made.invented
                &&& exists|id: Seq<char>| is_hyphenated_id(id) && made.text@ == id + ".txt"@
            },
        },
{
    if status == TOO_MANY_REQUESTS {
        return Err(WriteError::Stop(Fatal::QuotaExhausted));
    }
    match disposition {
        Some(raw) => match as_text(raw) {
            Some(header) => match name_from_header(header) {
                Ok(text) => Ok(FileName { text, invented: false }),
                Err(why) => Err(WriteError::Name(why)),
            },
            None => Err(WriteError::Name(NameError::NotText)),
        },
        None => Ok(FileName { text: invented_name(), invented: true }),
    }
}

/// Where a payload of `payload_len` bytes goes: nowhere where it is empty,
/// and to `name` inside `dir` otherwise.
pub open spec fn target_of(dir: Seq<char>, name: Seq<char>, payload_len: nat) -> Option<Seq<char>> {
    if payload_len == 0 {
        None
    } else {
        Some(joined(dir, name))
    }
}

/// The path to write a payload to, or none where there is nothing to write.
pub fn target_path(dir: &str, name: &str, payload_len: usize) -> (path: Option<String>)
    ensures
        path.deep_view() == target_of(dir@, name@, payload_len as nat),
{
    if payload_len == 0 {
        None
    } else {
        Some(join(dir, name))
    }
}

/// The text record of a response: the directory, a line break and the
/// summary of the response; then, where there is a payload, a line break and
/// the payload as text, or [`UNPRINTABLE`] in its place where it is no valid
/// UTF-8.
pub open spec fn record_of(dir: Seq<char>, summary: Seq<char>, payload: Seq<u8>) -> Seq<char> {
    let head = dir + "\n"@ + summary;
    if payload.len() == 0 {
        head
    } else if valid_utf8(payload) {
        head + "\n"@ + decode_utf8(payload)
    } else {
        head + "\n"@ + UNPRINTABLE@
    }
}

/// The text record of a response.
pub fn text_record(dir: &str, summary: &str, payload: &[u8]) -> (record: String)
    ensures
        record@ == record_of(dir@, summary@, payload@),
{
    let mut record = String::from_str(dir);
    record.append("\n");
    record.append(summary);
    if payload.len() > 0 {
        record.append("\n");
        match as_text(payload) {
            Some(text) => record.append(text),
            None => record.append(UNPRINTABLE),
        }
    }
    record
}

/// The path of a text record inside `dir`: a fresh made-up name.
pub fn record_path(dir: &str) -> (path: String)
    ensures
        exists|id: Seq<char>| is_hyphenated_id(id) && path@ == joined(dir@, id + ".txt"@),
{
    let name = invented_name();
    join(dir, name.as_str())
}

} // verus!
