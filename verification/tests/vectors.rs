use nnrp_conformance_suite::fixtures::FixtureError;
use nnrp_conformance_suite::semantic_vectors::{
    build_packet, header_flags, pack_header, pack_typed_payload_descriptor_region, pack_typed_payload_frame_region,
    payload_kinds, render_recipe, HeaderFields, HeaderFlagName, MessageTypeName, PayloadKindName,
    SemanticVectorRecipe, TypedPayloadFrameRecipe, HEADER_BYTES,
};
use nnrp_conformance_suite::vector_manifest::{build_vector_manifest, verify_vector_manifest, SemanticVectorManifest};
use nnrp_conformance_suite::wire_bytes::encode_hex;

fn header_recipe() -> SemanticVectorRecipe {
    SemanticVectorRecipe::Header {
        name: "preview2.header.frame_submit".to_string(),
        description: "frame submit header".to_string(),
        version_major: 1,
        wire_format: 0,
        message_type: MessageTypeName::FrameSubmit,
        flags: vec![HeaderFlagName::AckRequired, HeaderFlagName::Keyframe],
        meta_len: 0x30,
        body_len: 0x1000,
        session_id: 7,
        frame_id: 11,
        view_id: 2,
        route_id: 0,
        trace_id: 123_456_789,
    }
}

#[test]
fn header_recipe_renders_the_fixed_header_layout() {
    let (name, kind, description, payload) = render_recipe(&header_recipe()).expect("header renders");
    assert_eq!(name, "preview2.header.frame_submit");
    assert_eq!(kind, "header");
    assert_eq!(description, "frame submit header");
    assert_eq!(payload.len(), HEADER_BYTES as usize);
    assert_eq!(
        encode_hex(&payload),
        "4e4e525001001028210000003000000000100000070000000b0000000200000015cd5b0700000000"
    );
}

#[test]
fn header_flag_names_fold_into_bits() {
    assert_eq!(header_flags(&[HeaderFlagName::AckRequired, HeaderFlagName::Keyframe]), 0x21);
    assert_eq!(header_flags(&[HeaderFlagName::Eos, HeaderFlagName::Eos]), 0x08);
    assert_eq!(header_flags(&[]), 0);
    assert_eq!(payload_kinds(&[PayloadKindName::Tensor, PayloadKindName::OpaqueBytes]), 0x41);
}

#[test]
fn control_frame_value_is_little_endian() {
    let recipe = SemanticVectorRecipe::U32Value {
        name: "preview4.value.control_frame.cancel".to_string(),
        description: "cancel".to_string(),
        kind: "control_frame".to_string(),
        value: 0x0004_0001,
    };
    let (_, kind, _, payload) = render_recipe(&recipe).unwrap();
    assert_eq!(kind, "control_frame");
    assert_eq!(encode_hex(&payload), "01000400");
}

#[test]
fn packets_carry_their_section_lengths() {
    let fields = HeaderFields {
        version_major: 1,
        wire_format: 0,
        message_type: 0x17,
        flags: 0,
        meta_len: 999,
        body_len: 999,
        session_id: 1,
        frame_id: 2,
        view_id: 0,
        route_id: 0,
        trace_id: 0,
    };
    let packet = build_packet(fields, vec![0xaa, 0xbb], vec![0xcc]);
    assert_eq!(packet.len(), 43);
    assert_eq!(&packet[12..16], &[2, 0, 0, 0]);
    assert_eq!(&packet[16..20], &[1, 0, 0, 0]);
    assert_eq!(&packet[40..], &[0xaa, 0xbb, 0xcc]);
    assert_eq!(pack_header(fields)[12..20], [0xe7, 0x03, 0, 0, 0xe7, 0x03, 0, 0]);
}

#[test]
fn descriptors_point_at_each_frame_payload() {
    let frames = vec![
        TypedPayloadFrameRecipe { payload_kind: PayloadKindName::TokenChunk, profile_id: 3, payload_utf8: "hi".to_string() },
        TypedPayloadFrameRecipe { payload_kind: PayloadKindName::ToolDelta, profile_id: 0x0102, payload_utf8: "é!".to_string() },
    ];
    let descriptors = pack_typed_payload_descriptor_region(&frames);
    assert_eq!(
        encode_hex(&descriptors),
        "0200030000000000020000000000000020000201020000000300000000000000"
    );
    let region = pack_typed_payload_frame_region(&frames);
    assert_eq!(region, vec![b'h', b'i', 0xc3, 0xa9, b'!']);
}

#[test]
fn vector_manifests_render_and_verify() {
    let semantic = SemanticVectorManifest {
        schema: None,
        protocol_version: "nnrp-1-preview2".to_string(),
        vectors: vec![header_recipe()],
    };
    let manifest = build_vector_manifest(&semantic, "vectors/semantic-vectors.json").expect("manifest builds");
    assert_eq!(manifest.protocol_version, "nnrp-1-preview2");
    assert_eq!(manifest.generated_from.as_deref(), Some("vectors/semantic-vectors.json"));
    assert_eq!(manifest.vectors.len(), 1);
    assert_eq!(manifest.vectors[0].bytes, 40);
    assert_eq!(manifest.vectors[0].hex.len(), 80);
    verify_vector_manifest(&semantic, &manifest, "vectors/semantic-vectors.json").expect("the manifest matches");

    let mut tampered = manifest.clone();
    tampered.vectors[0].hex.replace_range(0..2, "00");
    let error = verify_vector_manifest(&semantic, &tampered, "vectors/semantic-vectors.json").unwrap_err();
    assert_eq!(error.to_string(), "fixture validation failed: vector manifest does not match the semantic recipes");
}

#[test]
fn a_blank_protocol_version_is_rejected() {
    let semantic = SemanticVectorManifest { schema: None, protocol_version: " \t".to_string(), vectors: vec![] };
    let error = build_vector_manifest(&semantic, "x").unwrap_err();
    assert!(matches!(error, FixtureError::Validation { .. }));
    assert_eq!(error.to_string(), "fixture validation failed: semantic vector manifest must declare a protocol_version");
}

#[test]
fn header_flags_are_read_as_a_set() {
    let (_, _, _, payload) = render_recipe(&header_recipe()).unwrap();
    let mut reordered = header_recipe();
    if let SemanticVectorRecipe::Header { flags, .. } = &mut reordered {
        *flags = vec![HeaderFlagName::Keyframe, HeaderFlagName::AckRequired, HeaderFlagName::Keyframe];
    }
    let (_, _, _, again) = render_recipe(&reordered).unwrap();
    assert_eq!(payload, again);
    assert_eq!(header_flags(&[HeaderFlagName::Eos, HeaderFlagName::Eos]), header_flags(&[HeaderFlagName::Eos]));
}
