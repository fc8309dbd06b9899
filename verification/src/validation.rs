//! Input validation primitives applied at workflow-API entry points.
//!
//! These bounds keep user-supplied identifiers within sensible limits before
//! they touch persistence: DB indexes, NOTIFY payloads, and log fields all
//! degrade if an instance id can be arbitrarily large.
use vstd::prelude::*;

verus! {

/// Maximum byte length of a workflow `instance_id`.
pub const MAX_INSTANCE_ID_LEN: usize = 256;

/// Reasons [`validate_instance_id`] may reject an input.
#[derive(Debug, Clone, Copy, PartialEq, Eq, Structural)]
pub enum InvalidInstanceId {
    /// The supplied id was empty.
    Empty,
    /// The supplied id exceeded [`MAX_INSTANCE_ID_LEN`] bytes.
    TooLong {
        /// Length of the rejected id in bytes.
        len: usize,
        /// The enforced maximum.
        max: usize,
    },
}

/// The message of a rejection.
pub open spec fn invalid_id_text(e: InvalidInstanceId) -> Seq<char> {
    match e {
        InvalidInstanceId::Empty => "instance_id must not be empty"@,
        InvalidInstanceId::TooLong { len, max } => "instance_id length "@ + crate::text::decimal(
            len as nat,
        ) + " exceeds maximum "@ + crate::text::decimal(max as nat) + " bytes"@,
    }
}

impl InvalidInstanceId {
    /// The message of the rejection.
    pub fn to_string(&self) -> (r: String)
        ensures
            r@ == invalid_id_text(*self),
    {
        match self {
            InvalidInstanceId::Empty => String::from_str("instance_id must not be empty"),
            InvalidInstanceId::TooLong { len, max } => {
                let mut s = crate::text::concat3(
                    "instance_id length ",
                    crate::text::decimal_text(*len as u128).as_str(),
                    " exceeds maximum ",
                );
                s.append(crate::text::decimal_text(*max as u128).as_str());
                s.append(" bytes");
                s
            },
        }
    }
}

/// Validate a user-supplied workflow `instance_id` at the API boundary: it is not
/// empty and has at most [`MAX_INSTANCE_ID_LEN`] bytes.
pub fn validate_instance_id(instance_id: &str) -> (r: Result<(), InvalidInstanceId>)
    ensures
        r == (if instance_id@.len() == 0 {
            Err::<(), InvalidInstanceId>(InvalidInstanceId::Empty)
        } else if vstd::utf8::encode_utf8(instance_id@).len() > MAX_INSTANCE_ID_LEN {
            Err(
                InvalidInstanceId::TooLong {
                    len: vstd::utf8::encode_utf8(instance_id@).len() as usize,
                    max: MAX_INSTANCE_ID_LEN,
                },
            )
        } else {
            Ok(())
        }),
{
    if instance_id.is_empty() {
        return Err(InvalidInstanceId::Empty);
    }
    let len: usize = instance_id.as_bytes().len();
    if len > MAX_INSTANCE_ID_LEN {
        return Err(InvalidInstanceId::TooLong { len, max: MAX_INSTANCE_ID_LEN });
    }
    Ok(())
}

} // verus!
