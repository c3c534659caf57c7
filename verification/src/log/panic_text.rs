//! What the panic hook records of a panic.
use vstd::prelude::*;

use crate::text::push_dec;

verus! {

broadcast use vstd::group_vstd_default;

/// The message of a panic whose payload is text, or a stand-in.
pub fn panic_message(payload: Option<&str>) -> (s: String)
    ensures
        s@ == (match payload {
            Some(text) => text@,
            None => "non-string panic payload"@,
        }),
{
    match payload {
        Some(text) => text.to_owned(),
        None => "non-string panic payload".to_owned(),
    }
}

/// `file:line:column`, or `unknown` for a panic without a location.
pub open spec fn location_of(at: Option<(Seq<char>, u32, u32)>) -> Seq<char> {
    match at {
        Some((file, line, column)) => file + ":"@ + crate::text::dec(line as nat) + ":"@
            + crate::text::dec(column as nat),
        None => "unknown"@,
    }
}

/// Where a panic happened.
pub fn panic_location(at: Option<(&str, u32, u32)>) -> (s: String)
    ensures
        s@ == location_of(
            match at {
                Some((file, line, column)) => Some((file@, line, column)),
                None => None,
            },
        ),
{
    match at {
        Some((file, line, column)) => {
            let mut s: String = String::new();
            s.append(file);
            s.append(":");
            push_dec(&mut s, line as u64);
            s.append(":");
            push_dec(&mut s, column as u64);
            assert(s@ =~= location_of(Some((file@, line, column))));
            s
        },
        None => "unknown".to_owned(),
    }
}

} // verus!
