use nnrp_conformance_suite::profile_body::{
    check_profile_body_shape, profile_body_regions, BodyRegionPrelude, BODY_REGION_PRELUDE_LEN, STRUCTURED_EVENT_BIT,
};

fn typed_prelude(descriptor_bytes: u32, payload_bytes: u32) -> BodyRegionPrelude {
    BodyRegionPrelude {
        inline_object_bytes: 0,
        object_reference_bytes: 0,
        typed_payload_descriptor_bytes: descriptor_bytes,
        typed_payload_frame_bytes: payload_bytes,
        extension_descriptor_bytes: 0,
        extension_payload_bytes: 0,
    }
}

#[test]
fn profile_body_must_declare_one_structured_event_frame() {
    assert!(check_profile_body_shape(STRUCTURED_EVENT_BIT, 1, 64).is_ok());
    assert_eq!(
        check_profile_body_shape(STRUCTURED_EVENT_BIT, 2, 64).unwrap_err().message,
        "OpenAI profile body must declare exactly one STRUCTURED_EVENT frame"
    );
    assert_eq!(
        check_profile_body_shape(0x01, 1, 64).unwrap_err().message,
        "OpenAI profile body must declare exactly one STRUCTURED_EVENT frame"
    );
    assert_eq!(
        check_profile_body_shape(STRUCTURED_EVENT_BIT, 1, BODY_REGION_PRELUDE_LEN - 1).unwrap_err().message,
        "OpenAI profile body is shorter than its body-region prelude"
    );
}

#[test]
fn profile_body_regions_fill_the_body_exactly() {
    assert_eq!(profile_body_regions(&typed_prelude(24, 10), 66).unwrap(), (56, 66));
    assert_eq!(
        profile_body_regions(&typed_prelude(24, 10), 67).unwrap_err().message,
        "OpenAI profile body-region lengths do not match the body length"
    );
    let inline = BodyRegionPrelude { inline_object_bytes: 4, ..typed_prelude(24, 10) };
    assert_eq!(
        profile_body_regions(&inline, 70).unwrap_err().message,
        "OpenAI profile body must contain only typed descriptor and payload regions"
    );
}
