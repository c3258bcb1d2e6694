//! The watermark of a run: the time after which the next run asks for what
//! has changed.

use vstd::prelude::*;
use crate::text::{chars_of, string_of, trim, trimmed};
use crate::time::{is_utc_datetime, is_utc_datetime_text};

verus! {

/// The watermark that a text holds: the text without the white space around
/// it, if that is a time. A text that holds no time holds no watermark.
pub open spec fn watermark_of(contents: Seq<char>) -> Option<Seq<char>> {
    if is_utc_datetime_text(trimmed(contents)) {
        Some(trimmed(contents))
    } else {
        None
    }
}

/// The watermark that the file of the last run holds. `contents` is what the
/// file holds, or `None` if there is no file. Without a file, and with a file
/// that holds no time, there is no watermark.
pub fn get_updated_after(contents: Option<&str>) -> (watermark: Option<String>)
    ensures
        watermark.deep_view() == match contents {
            Some(text) => watermark_of(text@),
            None => None,
        },
{
    match contents {
        Some(text) => {
            let chars = chars_of(text);
            let bare = string_of(&trim(&chars));
            if is_utc_datetime(bare.as_str()) {
                Some(bare)
            } else {
                None
            }
        },
        None => None,
    }
}

} // verus!
