//! Files that clients upload into a pane's directory.
use vstd::prelude::*;
use crate::bindings::{base64_decode, base64_standard_decoded, decode_error_text};
use crate::messages::ServerMessage;
use crate::text::{chars_of, concat_chars, string_of};

verus! {

/// `p` followed by `s`.
fn prefixed(p: &str, s: &str) -> (r: String)
    ensures
        r@ == p@ + s@,
{
    string_of(concat_chars(chars_of(p).as_slice(), chars_of(s).as_slice()).as_slice())
}

/// Decodes the base64 payload of an upload. On failure, the error to
/// broadcast: `Failed to decode file data: ` and the decoder's reason.
pub fn decode_upload(data: &str) -> (r: Result<Vec<u8>, ServerMessage>)
    ensures
        match r {
            Ok(bytes) => base64_standard_decoded(data@) == Some(bytes@),
            Err(m) => {
                &&& base64_standard_decoded(data@) is None
                &&& m matches ServerMessage::Error { message }
                &&& "Failed to decode file data: "@.is_prefix_of(message@)
            },
        },
{
    match base64_decode(data) {
        Ok(bytes) => Ok(bytes),
        Err(e) => {
            let reason = decode_error_text(&e);
            let message = prefixed("Failed to decode file data: ", reason.as_str());
            assert("Failed to decode file data: "@.is_prefix_of(message@)) by {
                assert(message@.take("Failed to decode file data: "@.len() as int) =~= "Failed to decode file data: "@);
            }
            Err(ServerMessage::Error { message })
        },
    }
}

/// What to broadcast once an upload was written: `FileUploaded`, or the
/// write's error after `Failed to write file: `.
pub fn upload_written_message(pane_id: String, file_name: String, write_error: Option<String>) -> (m: ServerMessage)
    ensures
        match write_error {
            None => m == ServerMessage::FileUploaded { pane_id, file_name },
            Some(e) => m matches ServerMessage::Error { message } && message@ == "Failed to write file: "@ + e@,
        },
{
    match write_error {
        None => ServerMessage::FileUploaded { pane_id, file_name },
        Some(e) => ServerMessage::Error { message: prefixed("Failed to write file: ", e.as_str()) },
    }
}

} // verus!
