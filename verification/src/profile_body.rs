use vstd::prelude::*;

use crate::results::ResultsError;

verus! {

/// The length of a body-region prelude: six region lengths and two
/// reserved words, each four bytes.
pub const BODY_REGION_PRELUDE_LEN: usize = 32;

/// The payload-kind bitmap bit of a structured event.
pub const STRUCTURED_EVENT_BIT: u32 = 0x10;

/// The region lengths a body-region prelude declares.
#[derive(Debug, Clone, Copy, PartialEq, Eq, Structural)]
pub struct BodyRegionPrelude {
    pub inline_object_bytes: u32,
    pub object_reference_bytes: u32,
    pub typed_payload_descriptor_bytes: u32,
    pub typed_payload_frame_bytes: u32,
    pub extension_descriptor_bytes: u32,
    pub extension_payload_bytes: u32,
}

/// What is wrong with the declared shape of an API-profile result body,
/// before its prelude is read: it must declare exactly one structured-event
/// frame and hold at least a prelude.
pub open spec fn profile_body_shape_problem(payload_kind_bitmap: u32, payload_frame_count: u16, body_len: nat) -> Option<
    Seq<char>,
> {
    if payload_kind_bitmap != STRUCTURED_EVENT_BIT || payload_frame_count != 1 {
        Some("OpenAI profile body must declare exactly one STRUCTURED_EVENT frame"@)
    } else if body_len < BODY_REGION_PRELUDE_LEN {
        Some("OpenAI profile body is shorter than its body-region prelude"@)
    } else {
        None
    }
}

/// Checks the declared shape of an API-profile result body before its
/// prelude is read.
pub fn check_profile_body_shape(payload_kind_bitmap: u32, payload_frame_count: u16, body_len: usize) -> (result: Result<
    (),
    ResultsError,
>)
    ensures
        match profile_body_shape_problem(payload_kind_bitmap, payload_frame_count, body_len as nat) {
            Some(message) => result matches Err(e) && e.message@ == message,
            None => result is Ok,
        },
{
    if payload_kind_bitmap != STRUCTURED_EVENT_BIT || payload_frame_count != 1 {
        return Err(ResultsError { message: "OpenAI profile body must declare exactly one STRUCTURED_EVENT frame".to_owned() });
    }
    if body_len < BODY_REGION_PRELUDE_LEN {
        return Err(ResultsError { message: "OpenAI profile body is shorter than its body-region prelude".to_owned() });
    }
    Ok(())
}

/// Where the typed descriptors and the typed payload of an API-profile body
/// end, after its prelude: the body holds only those two regions, and they
/// fill it exactly; otherwise the message that says what is wrong.
pub open spec fn profile_body_regions_of(prelude: BodyRegionPrelude, body_len: nat) -> Result<(nat, nat), Seq<char>> {
    let descriptor_end = BODY_REGION_PRELUDE_LEN + prelude.typed_payload_descriptor_bytes;
    let body_end = descriptor_end + prelude.typed_payload_frame_bytes;
    if prelude.inline_object_bytes != 0 || prelude.object_reference_bytes != 0 || prelude.extension_descriptor_bytes != 0
        || prelude.extension_payload_bytes != 0 {
        Err("OpenAI profile body must contain only typed descriptor and payload regions"@)
    } else if descriptor_end > usize::MAX {
        Err("OpenAI profile descriptor length overflow"@)
    } else if body_end > usize::MAX {
        Err("OpenAI profile payload length overflow"@)
    } else if body_end != body_len {
        Err("OpenAI profile body-region lengths do not match the body length"@)
    } else {
        Ok((descriptor_end as nat, body_end as nat))
    }
}

/// The ends of the typed descriptor region and of the typed payload region
/// of an API-profile body, checked against the body's length.
pub fn profile_body_regions(prelude: &BodyRegionPrelude, body_len: usize) -> (result: Result<(usize, usize), ResultsError>)
    ensures
        match profile_body_regions_of(*prelude, body_len as nat) {
            Ok((descriptor_end, body_end)) => result matches Ok(ends) && ends.0 == descriptor_end && ends.1 == body_end,
            Err(message) => result matches Err(e) && e.message@ == message,
        },
{
    if prelude.inline_object_bytes != 0 || prelude.object_reference_bytes != 0 || prelude.extension_descriptor_bytes != 0
        || prelude.extension_payload_bytes != 0 {
        return Err(ResultsError {
            message: "OpenAI profile body must contain only typed descriptor and payload regions".to_owned(),
        });
    }
    let descriptor_bytes = prelude.typed_payload_descriptor_bytes as usize;
    let payload_bytes = prelude.typed_payload_frame_bytes as usize;
    let descriptor_end = match BODY_REGION_PRELUDE_LEN.checked_add(descriptor_bytes) {
        Some(end) => end,
        None => {
            return Err(ResultsError { message: "OpenAI profile descriptor length overflow".to_owned() });
        },
    };
    let body_end = match descriptor_end.checked_add(payload_bytes) {
        Some(end) => end,
        None => {
            return Err(ResultsError { message: "OpenAI profile payload length overflow".to_owned() });
        },
    };
    if body_end != body_len {
        return Err(ResultsError { message: "OpenAI profile body-region lengths do not match the body length".to_owned() });
    }
    Ok((descriptor_end, body_end))
}

} // verus!
