use vstd::prelude::*;

use crate::bit_sets::{
    lemma_or_all_covers_u32, lemma_or_all_same_values_u16, lemma_or_all_same_values_u32, lemma_or_all_same_values_u8,
    lemma_or_all_within_u32,
};
use crate::semantic_vectors::{
    budget_policy_mask, budget_policy_mask_values, flow_update_flag_bits, flow_update_flag_bits_values,
    payload_kind_bits, payload_kind_bits_values, recipe_description, recipe_kind, recipe_name, recipe_payload, result_flag_bits, result_flag_bits_values,
    session_patch_bits, session_patch_bits_values, BudgetPolicyName, FlowUpdateFlagName,
    PayloadKindName, ResultFlagName, SemanticVectorRecipe, SessionPatchFieldName,
};
use crate::semantic_vectors::{HeaderFields, HeaderFlagName, TypedPayloadFrameRecipe, descriptor_bytes, descriptor_region_bytes, frame_payload, frame_region_bytes, frames_total_len, header_bytes, header_flag_bits, header_flag_bits_values, packet_bytes, with_lengths};
use crate::wire_bytes::{hex_digit, hex_of, lemma_le_bytes_len, u16_le, u32_le, u64_le};

verus! {

proof fn lemma_fixed_widths(a: u16, b: u32, c: u64)
    ensures
        u16_le(a).len() == 2,
        u32_le(b).len() == 4,
        u64_le(c).len() == 8,
{
    lemma_le_bytes_len(a as nat, 2);
    lemma_le_bytes_len(b as nat, 4);
    lemma_le_bytes_len(c as nat, 8);
}

/// A packet header is 40 bytes long, opens with the magic `NNRP`, and its
/// eighth byte states that length.
pub proof fn law_header_shape(fields: HeaderFields)
    ensures
        header_bytes(fields).len() == 40,
        header_bytes(fields).take(4) == seq![0x4eu8, 0x4eu8, 0x52u8, 0x50u8],
        header_bytes(fields)[4] == fields.version_major,
        header_bytes(fields)[5] == fields.wire_format,
        header_bytes(fields)[6] == fields.message_type,
        header_bytes(fields)[7] == 40,
        header_bytes(fields).subrange(12, 16) == u32_le(fields.meta_len),
        header_bytes(fields).subrange(16, 20) == u32_le(fields.body_len),
{
    lemma_fixed_widths(fields.view_id, fields.flags, fields.trace_id);
    lemma_fixed_widths(fields.route_id, fields.meta_len, fields.trace_id);
    lemma_fixed_widths(fields.route_id, fields.body_len, fields.trace_id);
    lemma_fixed_widths(fields.route_id, fields.session_id, fields.trace_id);
    lemma_fixed_widths(fields.route_id, fields.frame_id, fields.trace_id);
    let h = header_bytes(fields);
    assert(h.take(4) =~= seq![0x4eu8, 0x4eu8, 0x52u8, 0x50u8]);
    assert(h.subrange(12, 16) =~= u32_le(fields.meta_len));
    assert(h.subrange(16, 20) =~= u32_le(fields.body_len));
}

/// A packet is its header, then its metadata, then its body; the header
/// states the metadata and body lengths.
pub proof fn law_packet_layout(fields: HeaderFields, metadata: Seq<u8>, body: Seq<u8>)
    requires
        metadata.len() <= u32::MAX,
        body.len() <= u32::MAX,
    ensures
        packet_bytes(fields, metadata, body).len() == 40 + metadata.len() as int + body.len(),
        packet_bytes(fields, metadata, body).subrange(40, 40 + metadata.len() as int) == metadata,
        packet_bytes(fields, metadata, body).subrange(40 + metadata.len() as int, 40 + metadata.len() as int + body.len()) == body,
        packet_bytes(fields, metadata, body).subrange(12, 16) == u32_le(metadata.len() as u32),
        packet_bytes(fields, metadata, body).subrange(16, 20) == u32_le(body.len() as u32),
{
    let f = with_lengths(fields, metadata.len() as u32, body.len() as u32);
    law_header_shape(f);
    let p = packet_bytes(fields, metadata, body);
    let h = header_bytes(f);
    assert(p.subrange(40, 40 + metadata.len() as int) =~= metadata);
    assert(p.subrange(40 + metadata.len() as int, 40 + metadata.len() as int + body.len()) =~= body);
    assert(p.subrange(12, 16) =~= h.subrange(12, 16));
    assert(p.subrange(16, 20) =~= h.subrange(16, 20));
}

/// Hexadecimal text has two digits per byte, each from `0-9a-f`, and the
/// digits of byte `i` stand at positions `2i` and `2i + 1`.
pub proof fn law_hex_shape(bytes: Seq<u8>)
    ensures
        hex_of(bytes).len() == 2 * bytes.len(),
        forall|i: int| 0 <= i < bytes.len() ==> {
            &&& #[trigger] hex_of(bytes)[2 * i] == hex_digit(bytes[i] as int / 16)
            &&& hex_of(bytes)[2 * i + 1] == hex_digit(bytes[i] as int % 16)
        },
    decreases bytes.len(),
{
    if bytes.len() > 0 {
        law_hex_shape(bytes.drop_last());
        assert forall|i: int| 0 <= i < bytes.len() implies {
            &&& #[trigger] hex_of(bytes)[2 * i] == hex_digit(bytes[i] as int / 16)
            &&& hex_of(bytes)[2 * i + 1] == hex_digit(bytes[i] as int % 16)
        } by {
            if i < bytes.len() - 1 {
                assert(bytes.drop_last()[i] == bytes[i]);
                assert(hex_of(bytes.drop_last())[2 * i] == hex_digit(bytes.drop_last()[i] as int / 16));
            }
        }
    }
}

/// The header flag bits hold the bit of every listed flag and nothing
/// beyond the six defined flags.
pub proof fn law_header_flags_exact(flags: Seq<HeaderFlagName>)
    ensures
        forall|i: int| 0 <= i < flags.len() ==> header_flag_bits(flags) & (#[trigger] flags[i]).code() == flags[i].code(),
        header_flag_bits(flags) & 0x3f == header_flag_bits(flags),
{
    let values = header_flag_bits_values(flags);
    assert forall|i: int| 0 <= i < flags.len() implies header_flag_bits(flags) & (#[trigger] flags[i]).code() == flags[i].code() by {
        lemma_or_all_covers_u32(values, i);
    }
    assert(forall|x: u32| (x == 1 || x == 2 || x == 4 || x == 8 || x == 16 || x == 32) ==> #[trigger] (x & 0x3f) == x) by (bit_vector);
    assert forall|i: int| 0 <= i < values.len() implies #[trigger] values[i] & 0x3f == values[i] by {
        let c = values[i];
        assert(c == 1 || c == 2 || c == 4 || c == 8 || c == 16 || c == 32);
    }
    lemma_or_all_within_u32(values, 0x3f);
}

proof fn lemma_frame_region_len(frames: Seq<TypedPayloadFrameRecipe>)
    ensures
        frame_region_bytes(frames).len() == frames_total_len(frames),
    decreases frames.len(),
{
    if frames.len() > 0 {
        lemma_frame_region_len(frames.drop_last());
    }
}

proof fn lemma_frame_region_prefix(frames: Seq<TypedPayloadFrameRecipe>, k: int)
    requires
        0 <= k <= frames.len(),
    ensures
        frame_region_bytes(frames).len() >= frames_total_len(frames.take(k)),
        frame_region_bytes(frames).take(frames_total_len(frames.take(k)) as int) == frame_region_bytes(frames.take(k)),
    decreases frames.len(),
{
    lemma_frame_region_len(frames);
    lemma_frame_region_len(frames.take(k));
    if k == frames.len() {
        assert(frames.take(k) =~= frames);
        assert(frame_region_bytes(frames).take(frame_region_bytes(frames).len() as int) =~= frame_region_bytes(frames));
    } else {
        let rest = frames.drop_last();
        assert(rest.take(k) =~= frames.take(k));
        lemma_frame_region_prefix(rest, k);
        lemma_frame_region_len(rest);
        let n = frames_total_len(frames.take(k)) as int;
        assert(frame_region_bytes(frames).take(n) =~= frame_region_bytes(rest).take(n));
    }
}

proof fn lemma_descriptor_len(frame: TypedPayloadFrameRecipe, offset: u32)
    ensures
        descriptor_bytes(frame, offset).len() == 16,
{
    lemma_fixed_widths(frame.profile_id, offset, 0);
    lemma_fixed_widths(frame.profile_id, frame_payload(frame).len() as u32, 0);
    lemma_fixed_widths(frame.profile_id, 0u32, 0);
}

proof fn lemma_descriptor_region_prefix(frames: Seq<TypedPayloadFrameRecipe>, k: int)
    requires
        0 <= k <= frames.len(),
    ensures
        descriptor_region_bytes(frames).len() == 16 * frames.len(),
        descriptor_region_bytes(frames).take(16 * k) == descriptor_region_bytes(frames.take(k)),
    decreases frames.len(),
{
    if frames.len() == 0 {
        assert(frames.take(k) =~= frames);
    } else {
        let rest = frames.drop_last();
        lemma_descriptor_len(frames.last(), frames_total_len(rest) as u32);
        if k == frames.len() {
            lemma_descriptor_region_prefix(rest, 0);
            assert(frames.take(k) =~= frames);
            assert(descriptor_region_bytes(frames).take(16 * k) =~= descriptor_region_bytes(frames));
        } else {
            assert(rest.take(k) =~= frames.take(k));
            lemma_descriptor_region_prefix(rest, k);
            assert(descriptor_region_bytes(frames).take(16 * k) =~= descriptor_region_bytes(rest).take(16 * k));
        }
    }
}

/// In a descriptor region and the frame region of the same frames, the
/// `i`-th descriptor occupies bytes `16i .. 16i + 16` and names the offset at
/// which the `i`-th payload stands in the frame region, and its length.
pub proof fn law_descriptors_locate_payloads(frames: Seq<TypedPayloadFrameRecipe>, i: int)
    requires
        0 <= i < frames.len(),
    ensures
        ({
            let offset = frames_total_len(frames.take(i));
            let len = frame_payload(frames[i]).len();
            &&& descriptor_region_bytes(frames).len() == 16 * frames.len()
            &&& descriptor_region_bytes(frames).subrange(16 * i, 16 * i + 16) == descriptor_bytes(frames[i], offset as u32)
            &&& frame_region_bytes(frames).len() == frames_total_len(frames)
            &&& offset + len <= frame_region_bytes(frames).len()
            &&& frame_region_bytes(frames).subrange(offset as int, (offset + len) as int) == frame_payload(frames[i])
        }),
{
    let offset = frames_total_len(frames.take(i));
    let len = frame_payload(frames[i]).len();
    let next = frames.take(i + 1);
    assert(next.drop_last() =~= frames.take(i));
    assert(next.last() == frames[i]);
    lemma_descriptor_region_prefix(frames, i + 1);
    lemma_descriptor_region_prefix(next, i);
    lemma_descriptor_len(frames[i], offset as u32);
    let d = descriptor_region_bytes(frames);
    assert(d.subrange(16 * i, 16 * i + 16) =~= descriptor_region_bytes(next).subrange(16 * i, 16 * i + 16));
    assert(descriptor_region_bytes(next).subrange(16 * i, 16 * i + 16) =~= descriptor_bytes(frames[i], offset as u32));
    lemma_frame_region_len(frames);
    lemma_frame_region_prefix(frames, i + 1);
    lemma_frame_region_len(frames.take(i));
    let r = frame_region_bytes(frames);
    assert(frame_region_bytes(next) =~= frame_region_bytes(frames.take(i)) + frame_payload(frames[i]));
    assert(r.subrange(offset as int, (offset + len) as int) =~= frame_region_bytes(next).subrange(offset as int, (offset + len) as int));
    assert(frame_region_bytes(next).subrange(offset as int, (offset + len) as int) =~= frame_payload(frames[i]));
}

/// The header flag bits depend on the listed names only as a set: listing them
/// in another order, or more than once, gives the same bits.
pub proof fn law_header_flags_read_as_a_set(a: Seq<HeaderFlagName>, b: Seq<HeaderFlagName>)
    requires
        a.to_set() == b.to_set(),
    ensures
        header_flag_bits(a) == header_flag_bits(b),
{
    let va = header_flag_bits_values(a);
    let vb = header_flag_bits_values(b);
    assert forall|i: int| 0 <= i < vb.len() implies va.contains(#[trigger] vb[i]) by {
        assert(b.to_set().contains(b[i]));
        let j = choose|j: int| 0 <= j < a.len() && a[j] == b[i];
        assert(va[j] == vb[i]);
    }
    assert forall|i: int| 0 <= i < va.len() implies vb.contains(#[trigger] va[i]) by {
        assert(a.to_set().contains(a[i]));
        let j = choose|j: int| 0 <= j < b.len() && b[j] == a[i];
        assert(vb[j] == va[i]);
    }
    lemma_or_all_same_values_u32(va, vb);
}

/// The payload-kind bitmap depend on the listed names only as a set: listing them
/// in another order, or more than once, gives the same bits.
pub proof fn law_payload_kinds_read_as_a_set(a: Seq<PayloadKindName>, b: Seq<PayloadKindName>)
    requires
        a.to_set() == b.to_set(),
    ensures
        payload_kind_bits(a) == payload_kind_bits(b),
{
    let va = payload_kind_bits_values(a);
    let vb = payload_kind_bits_values(b);
    assert forall|i: int| 0 <= i < vb.len() implies va.contains(#[trigger] vb[i]) by {
        assert(b.to_set().contains(b[i]));
        let j = choose|j: int| 0 <= j < a.len() && a[j] == b[i];
        assert(va[j] == vb[i]);
    }
    assert forall|i: int| 0 <= i < va.len() implies vb.contains(#[trigger] va[i]) by {
        assert(a.to_set().contains(a[i]));
        let j = choose|j: int| 0 <= j < b.len() && b[j] == a[i];
        assert(vb[j] == va[i]);
    }
    lemma_or_all_same_values_u32(va, vb);
}

/// The session-patch field mask depend on the listed names only as a set: listing them
/// in another order, or more than once, gives the same bits.
pub proof fn law_session_patch_fields_read_as_a_set(a: Seq<SessionPatchFieldName>, b: Seq<SessionPatchFieldName>)
    requires
        a.to_set() == b.to_set(),
    ensures
        session_patch_bits(a) == session_patch_bits(b),
{
    let va = session_patch_bits_values(a);
    let vb = session_patch_bits_values(b);
    assert forall|i: int| 0 <= i < vb.len() implies va.contains(#[trigger] vb[i]) by {
        assert(b.to_set().contains(b[i]));
        let j = choose|j: int| 0 <= j < a.len() && a[j] == b[i];
        assert(va[j] == vb[i]);
    }
    assert forall|i: int| 0 <= i < va.len() implies vb.contains(#[trigger] va[i]) by {
        assert(a.to_set().contains(a[i]));
        let j = choose|j: int| 0 <= j < b.len() && b[j] == a[i];
        assert(vb[j] == va[i]);
    }
    lemma_or_all_same_values_u32(va, vb);
}

/// The flow-update flag bits depend on the listed names only as a set: listing them
/// in another order, or more than once, gives the same bits.
pub proof fn law_flow_update_flags_read_as_a_set(a: Seq<FlowUpdateFlagName>, b: Seq<FlowUpdateFlagName>)
    requires
        a.to_set() == b.to_set(),
    ensures
        flow_update_flag_bits(a) == flow_update_flag_bits(b),
{
    let va = flow_update_flag_bits_values(a);
    let vb = flow_update_flag_bits_values(b);
    assert forall|i: int| 0 <= i < vb.len() implies va.contains(#[trigger] vb[i]) by {
        assert(b.to_set().contains(b[i]));
        let j = choose|j: int| 0 <= j < a.len() && a[j] == b[i];
        assert(va[j] == vb[i]);
    }
    assert forall|i: int| 0 <= i < va.len() implies vb.contains(#[trigger] va[i]) by {
        assert(a.to_set().contains(a[i]));
        let j = choose|j: int| 0 <= j < b.len() && b[j] == a[i];
        assert(vb[j] == va[i]);
    }
    lemma_or_all_same_values_u32(va, vb);
}

/// The budget-policy mask depend on the listed names only as a set: listing them
/// in another order, or more than once, gives the same bits.
pub proof fn law_budget_policies_read_as_a_set(a: Seq<BudgetPolicyName>, b: Seq<BudgetPolicyName>)
    requires
        a.to_set() == b.to_set(),
    ensures
        budget_policy_mask(a) == budget_policy_mask(b),
{
    let va = budget_policy_mask_values(a);
    let vb = budget_policy_mask_values(b);
    assert forall|i: int| 0 <= i < vb.len() implies va.contains(#[trigger] vb[i]) by {
        assert(b.to_set().contains(b[i]));
        let j = choose|j: int| 0 <= j < a.len() && a[j] == b[i];
        assert(va[j] == vb[i]);
    }
    assert forall|i: int| 0 <= i < va.len() implies vb.contains(#[trigger] va[i]) by {
        assert(a.to_set().contains(a[i]));
        let j = choose|j: int| 0 <= j < b.len() && b[j] == a[i];
        assert(vb[j] == va[i]);
    }
    lemma_or_all_same_values_u8(va, vb);
}

/// The result flag bits depend on the listed names only as a set: listing them
/// in another order, or more than once, gives the same bits.
pub proof fn law_result_flags_read_as_a_set(a: Seq<ResultFlagName>, b: Seq<ResultFlagName>)
    requires
        a.to_set() == b.to_set(),
    ensures
        result_flag_bits(a) == result_flag_bits(b),
{
    let va = result_flag_bits_values(a);
    let vb = result_flag_bits_values(b);
    assert forall|i: int| 0 <= i < vb.len() implies va.contains(#[trigger] vb[i]) by {
        assert(b.to_set().contains(b[i]));
        let j = choose|j: int| 0 <= j < a.len() && a[j] == b[i];
        assert(va[j] == vb[i]);
    }
    assert forall|i: int| 0 <= i < va.len() implies vb.contains(#[trigger] va[i]) by {
        assert(a.to_set().contains(a[i]));
        let j = choose|j: int| 0 <= j < b.len() && b[j] == a[i];
        assert(vb[j] == va[i]);
    }
    lemma_or_all_same_values_u16(va, vb);
}

/// Two recipes alike but for the order and repetition of the names in their
/// bit-set lists (header flags, payload kinds, session-patch fields,
/// flow-update flags, budget policies, result flags): the same kind of
/// recipe, every other field equal, each bit-set list naming the same set.
pub open spec fn alike_but_bit_set_order(r1: SemanticVectorRecipe, r2: SemanticVectorRecipe) -> bool {
    match (r1, r2) {
        (
            SemanticVectorRecipe::Header {
                name: a_name, description: a_description, version_major: a_version_major,
                wire_format: a_wire_format, message_type: a_message_type, flags: a_flags, meta_len: a_meta_len,
                body_len: a_body_len, session_id: a_session_id, frame_id: a_frame_id, view_id: a_view_id,
                route_id: a_route_id, trace_id: a_trace_id,
            },
            SemanticVectorRecipe::Header {
                name: b_name, description: b_description, version_major: b_version_major,
                wire_format: b_wire_format, message_type: b_message_type, flags: b_flags, meta_len: b_meta_len,
                body_len: b_body_len, session_id: b_session_id, frame_id: b_frame_id, view_id: b_view_id,
                route_id: b_route_id, trace_id: b_trace_id,
            },
        ) => {
            &&& a_name@ == b_name@
            &&& a_description@ == b_description@
            &&& a_version_major == b_version_major
            &&& a_wire_format == b_wire_format
            &&& a_message_type == b_message_type
            &&& a_flags@.to_set() == b_flags@.to_set()
            &&& a_meta_len == b_meta_len
            &&& a_body_len == b_body_len
            &&& a_session_id == b_session_id
            &&& a_frame_id == b_frame_id
            &&& a_view_id == b_view_id
            &&& a_route_id == b_route_id
            &&& a_trace_id == b_trace_id
        },
        (
            SemanticVectorRecipe::ClientHelloMetadata {
                name: a_name, description: a_description, min_version_major: a_min_version_major,
                max_version_major: a_max_version_major,
                supported_wire_format_bitmap: a_supported_wire_format_bitmap,
                supported_profile_bitmap: a_supported_profile_bitmap,
                supported_payload_kind_bitmap: a_supported_payload_kind_bitmap,
                supported_codec_bitmap: a_supported_codec_bitmap,
                supported_compression_bitmap: a_supported_compression_bitmap,
                supported_dtype_bitmap: a_supported_dtype_bitmap,
                supported_layout_bitmap: a_supported_layout_bitmap, cache_digest_bitmap: a_cache_digest_bitmap,
                cache_object_bitmap: a_cache_object_bitmap, cache_namespace_count: a_cache_namespace_count,
                max_lane_count: a_max_lane_count, max_cache_entries: a_max_cache_entries,
                max_cache_bytes: a_max_cache_bytes, target_cadence_x100: a_target_cadence_x100,
                latency_budget_ms: a_latency_budget_ms, quality_tier: a_quality_tier,
                degrade_policy: a_degrade_policy, requested_session_id: a_requested_session_id,
                auth_bytes: a_auth_bytes, control_extension_bytes: a_control_extension_bytes,
            },
            SemanticVectorRecipe::ClientHelloMetadata {
                name: b_name, description: b_description, min_version_major: b_min_version_major,
                max_version_major: b_max_version_major,
                supported_wire_format_bitmap: b_supported_wire_format_bitmap,
                supported_profile_bitmap: b_supported_profile_bitmap,
                supported_payload_kind_bitmap: b_supported_payload_kind_bitmap,
                supported_codec_bitmap: b_supported_codec_bitmap,
                supported_compression_bitmap: b_supported_compression_bitmap,
                supported_dtype_bitmap: b_supported_dtype_bitmap,
                supported_layout_bitmap: b_supported_layout_bitmap, cache_digest_bitmap: b_cache_digest_bitmap,
                cache_object_bitmap: b_cache_object_bitmap, cache_namespace_count: b_cache_namespace_count,
                max_lane_count: b_max_lane_count, max_cache_entries: b_max_cache_entries,
                max_cache_bytes: b_max_cache_bytes, target_cadence_x100: b_target_cadence_x100,
                latency_budget_ms: b_latency_budget_ms, quality_tier: b_quality_tier,
                degrade_policy: b_degrade_policy, requested_session_id: b_requested_session_id,
                auth_bytes: b_auth_bytes, control_extension_bytes: b_control_extension_bytes,
            },
        ) => {
            &&& a_name@ == b_name@
            &&& a_description@ == b_description@
            &&& a_min_version_major == b_min_version_major
            &&& a_max_version_major == b_max_version_major
            &&& a_supported_wire_format_bitmap == b_supported_wire_format_bitmap
            &&& a_supported_profile_bitmap == b_supported_profile_bitmap
            &&& a_supported_payload_kind_bitmap@.to_set() == b_supported_payload_kind_bitmap@.to_set()
            &&& a_supported_codec_bitmap == b_supported_codec_bitmap
            &&& a_supported_compression_bitmap == b_supported_compression_bitmap
            &&& a_supported_dtype_bitmap == b_supported_dtype_bitmap
            &&& a_supported_layout_bitmap == b_supported_layout_bitmap
            &&& a_cache_digest_bitmap == b_cache_digest_bitmap
            &&& a_cache_object_bitmap == b_cache_object_bitmap
            &&& a_cache_namespace_count == b_cache_namespace_count
            &&& a_max_lane_count == b_max_lane_count
            &&& a_max_cache_entries == b_max_cache_entries
            &&& a_max_cache_bytes == b_max_cache_bytes
            &&& a_target_cadence_x100 == b_target_cadence_x100
            &&& a_latency_budget_ms == b_latency_budget_ms
            &&& a_quality_tier == b_quality_tier
            &&& a_degrade_policy == b_degrade_policy
            &&& a_requested_session_id == b_requested_session_id
            &&& a_auth_bytes == b_auth_bytes
            &&& a_control_extension_bytes == b_control_extension_bytes
        },
        (
            SemanticVectorRecipe::SessionPatchAckMetadata {
                name: a_name, description: a_description, ack_status: a_ack_status, reject_reason: a_reject_reason,
                applied_patch_mask: a_applied_patch_mask, rejected_patch_mask: a_rejected_patch_mask,
                retry_after_ms: a_retry_after_ms, effective_profile_id: a_effective_profile_id,
                effective_target_cadence_x100: a_effective_target_cadence_x100,
                effective_quality_tier: a_effective_quality_tier,
                effective_degrade_policy: a_effective_degrade_policy, effective_lane_mask: a_effective_lane_mask,
                effective_codec_bitmap: a_effective_codec_bitmap,
                effective_compression_bitmap: a_effective_compression_bitmap,
                profile_patch_ack_bytes: a_profile_patch_ack_bytes, reserved0: a_reserved0,
            },
            SemanticVectorRecipe::SessionPatchAckMetadata {
                name: b_name, description: b_description, ack_status: b_ack_status, reject_reason: b_reject_reason,
                applied_patch_mask: b_applied_patch_mask, rejected_patch_mask: b_rejected_patch_mask,
                retry_after_ms: b_retry_after_ms, effective_profile_id: b_effective_profile_id,
                effective_target_cadence_x100: b_effective_target_cadence_x100,
                effective_quality_tier: b_effective_quality_tier,
                effective_degrade_policy: b_effective_degrade_policy, effective_lane_mask: b_effective_lane_mask,
                effective_codec_bitmap: b_effective_codec_bitmap,
                effective_compression_bitmap: b_effective_compression_bitmap,
                profile_patch_ack_bytes: b_profile_patch_ack_bytes, reserved0: b_reserved0,
            },
        ) => {
            &&& a_name@ == b_name@
            &&& a_description@ == b_description@
            &&& a_ack_status == b_ack_status
            &&& a_reject_reason == b_reject_reason
            &&& a_applied_patch_mask@.to_set() == b_applied_patch_mask@.to_set()
            &&& a_rejected_patch_mask@.to_set() == b_rejected_patch_mask@.to_set()
            &&& a_retry_after_ms == b_retry_after_ms
            &&& a_effective_profile_id == b_effective_profile_id
            &&& a_effective_target_cadence_x100 == b_effective_target_cadence_x100
            &&& a_effective_quality_tier == b_effective_quality_tier
            &&& a_effective_degrade_policy == b_effective_degrade_policy
            &&& a_effective_lane_mask == b_effective_lane_mask
            &&& a_effective_codec_bitmap == b_effective_codec_bitmap
            &&& a_effective_compression_bitmap == b_effective_compression_bitmap
            &&& a_profile_patch_ack_bytes == b_profile_patch_ack_bytes
            &&& a_reserved0 == b_reserved0
        },
        (
            SemanticVectorRecipe::FlowUpdatePacket {
                name: a_name, description: a_description, version_major: a_version_major,
                wire_format: a_wire_format, flags: a_flags, session_id: a_session_id, route_id: a_route_id,
                trace_id: a_trace_id, scope_kind: a_scope_kind, update_reason: a_update_reason,
                backpressure_level: a_backpressure_level, connection_credit: a_connection_credit,
                session_credit: a_session_credit, operation_credit: a_operation_credit,
                operation_id: a_operation_id, retry_after_ms: a_retry_after_ms, credit_epoch: a_credit_epoch,
                flow_update_flags: a_flow_update_flags,
            },
            SemanticVectorRecipe::FlowUpdatePacket {
                name: b_name, description: b_description, version_major: b_version_major,
                wire_format: b_wire_format, flags: b_flags, session_id: b_session_id, route_id: b_route_id,
                trace_id: b_trace_id, scope_kind: b_scope_kind, update_reason: b_update_reason,
                backpressure_level: b_backpressure_level, connection_credit: b_connection_credit,
                session_credit: b_session_credit, operation_credit: b_operation_credit,
                operation_id: b_operation_id, retry_after_ms: b_retry_after_ms, credit_epoch: b_credit_epoch,
                flow_update_flags: b_flow_update_flags,
            },
        ) => {
            &&& a_name@ == b_name@
            &&& a_description@ == b_description@
            &&& a_version_major == b_version_major
            &&& a_wire_format == b_wire_format
            &&& a_flags@.to_set() == b_flags@.to_set()
            &&& a_session_id == b_session_id
            &&& a_route_id == b_route_id
            &&& a_trace_id == b_trace_id
            &&& a_scope_kind == b_scope_kind
            &&& a_update_reason == b_update_reason
            &&& a_backpressure_level == b_backpressure_level
            &&& a_connection_credit == b_connection_credit
            &&& a_session_credit == b_session_credit
            &&& a_operation_credit == b_operation_credit
            &&& a_operation_id == b_operation_id
            &&& a_retry_after_ms == b_retry_after_ms
            &&& a_credit_epoch == b_credit_epoch
            &&& a_flow_update_flags@.to_set() == b_flow_update_flags@.to_set()
        },
        (
            SemanticVectorRecipe::ResultHintPacket {
                name: a_name, description: a_description, version_major: a_version_major,
                wire_format: a_wire_format, flags: a_flags, session_id: a_session_id, frame_id: a_frame_id,
                route_id: a_route_id, trace_id: a_trace_id, applied_budget_policy: a_applied_budget_policy,
                congestion_state: a_congestion_state, reason: a_reason, retry_after_ms: a_retry_after_ms,
            },
            SemanticVectorRecipe::ResultHintPacket {
                name: b_name, description: b_description, version_major: b_version_major,
                wire_format: b_wire_format, flags: b_flags, session_id: b_session_id, frame_id: b_frame_id,
                route_id: b_route_id, trace_id: b_trace_id, applied_budget_policy: b_applied_budget_policy,
                congestion_state: b_congestion_state, reason: b_reason, retry_after_ms: b_retry_after_ms,
            },
        ) => {
            &&& a_name@ == b_name@
            &&& a_description@ == b_description@
            &&& a_version_major == b_version_major
            &&& a_wire_format == b_wire_format
            &&& a_flags@.to_set() == b_flags@.to_set()
            &&& a_session_id == b_session_id
            &&& a_frame_id == b_frame_id
            &&& a_route_id == b_route_id
            &&& a_trace_id == b_trace_id
            &&& a_applied_budget_policy == b_applied_budget_policy
            &&& a_congestion_state == b_congestion_state
            &&& a_reason == b_reason
            &&& a_retry_after_ms == b_retry_after_ms
        },
        (
            SemanticVectorRecipe::FrameSubmitMetadata {
                name: a_name, description: a_description, src_width: a_src_width, src_height: a_src_height,
                tile_width: a_tile_width, tile_height: a_tile_height, tile_count: a_tile_count,
                section_count: a_section_count, frame_class: a_frame_class, input_profile: a_input_profile,
                tile_index_mode: a_tile_index_mode, reserved0: a_reserved0, latency_budget_ms: a_latency_budget_ms,
                target_fps_x100: a_target_fps_x100, retry_of_frame: a_retry_of_frame, tile_base_id: a_tile_base_id,
                camera_bytes: a_camera_bytes, tile_index_bytes: a_tile_index_bytes, submit_mode: a_submit_mode,
                budget_policy: a_budget_policy, loss_tolerance_policy: a_loss_tolerance_policy,
                object_ref_mask: a_object_ref_mask, dependency_frame_id: a_dependency_frame_id,
                payload_kind_bitmap: a_payload_kind_bitmap, payload_frame_count: a_payload_frame_count,
            },
            SemanticVectorRecipe::FrameSubmitMetadata {
                name: b_name, description: b_description, src_width: b_src_width, src_height: b_src_height,
                tile_width: b_tile_width, tile_height: b_tile_height, tile_count: b_tile_count,
                section_count: b_section_count, frame_class: b_frame_class, input_profile: b_input_profile,
                tile_index_mode: b_tile_index_mode, reserved0: b_reserved0, latency_budget_ms: b_latency_budget_ms,
                target_fps_x100: b_target_fps_x100, retry_of_frame: b_retry_of_frame, tile_base_id: b_tile_base_id,
                camera_bytes: b_camera_bytes, tile_index_bytes: b_tile_index_bytes, submit_mode: b_submit_mode,
                budget_policy: b_budget_policy, loss_tolerance_policy: b_loss_tolerance_policy,
                object_ref_mask: b_object_ref_mask, dependency_frame_id: b_dependency_frame_id,
                payload_kind_bitmap: b_payload_kind_bitmap, payload_frame_count: b_payload_frame_count,
            },
        ) => {
            &&& a_name@ == b_name@
            &&& a_description@ == b_description@
            &&& a_src_width == b_src_width
            &&& a_src_height == b_src_height
            &&& a_tile_width == b_tile_width
            &&& a_tile_height == b_tile_height
            &&& a_tile_count == b_tile_count
            &&& a_section_count == b_section_count
            &&& a_frame_class == b_frame_class
            &&& a_input_profile == b_input_profile
            &&& a_tile_index_mode == b_tile_index_mode
            &&& a_reserved0 == b_reserved0
            &&& a_latency_budget_ms == b_latency_budget_ms
            &&& a_target_fps_x100 == b_target_fps_x100
            &&& a_retry_of_frame == b_retry_of_frame
            &&& a_tile_base_id == b_tile_base_id
            &&& a_camera_bytes == b_camera_bytes
            &&& a_tile_index_bytes == b_tile_index_bytes
            &&& a_submit_mode == b_submit_mode
            &&& a_budget_policy@.to_set() == b_budget_policy@.to_set()
            &&& a_loss_tolerance_policy == b_loss_tolerance_policy
            &&& a_object_ref_mask == b_object_ref_mask
            &&& a_dependency_frame_id == b_dependency_frame_id
            &&& a_payload_kind_bitmap@.to_set() == b_payload_kind_bitmap@.to_set()
            &&& a_payload_frame_count == b_payload_frame_count
        },
        (
            SemanticVectorRecipe::ResultPushMetadata {
                name: a_name, description: a_description, status_code: a_status_code, result_flags: a_result_flags,
                section_count: a_section_count, tile_count: a_tile_count, active_profile_id: a_active_profile_id,
                reserved0: a_reserved0, inference_ms: a_inference_ms, queue_ms: a_queue_ms,
                server_total_ms: a_server_total_ms, reserved1: a_reserved1, tile_base_id: a_tile_base_id,
                tile_index_bytes: a_tile_index_bytes, result_class: a_result_class,
                applied_budget_policy: a_applied_budget_policy, reused_frame_id: a_reused_frame_id,
                covered_tile_count: a_covered_tile_count, dropped_tile_count: a_dropped_tile_count,
                payload_kind_bitmap: a_payload_kind_bitmap, payload_frame_count: a_payload_frame_count,
            },
            SemanticVectorRecipe::ResultPushMetadata {
                name: b_name, description: b_description, status_code: b_status_code, result_flags: b_result_flags,
                section_count: b_section_count, tile_count: b_tile_count, active_profile_id: b_active_profile_id,
                reserved0: b_reserved0, inference_ms: b_inference_ms, queue_ms: b_queue_ms,
                server_total_ms: b_server_total_ms, reserved1: b_reserved1, tile_base_id: b_tile_base_id,
                tile_index_bytes: b_tile_index_bytes, result_class: b_result_class,
                applied_budget_policy: b_applied_budget_policy, reused_frame_id: b_reused_frame_id,
                covered_tile_count: b_covered_tile_count, dropped_tile_count: b_dropped_tile_count,
                payload_kind_bitmap: b_payload_kind_bitmap, payload_frame_count: b_payload_frame_count,
            },
        ) => {
            &&& a_name@ == b_name@
            &&& a_description@ == b_description@
            &&& a_status_code == b_status_code
            &&& a_result_flags@.to_set() == b_result_flags@.to_set()
            &&& a_section_count == b_section_count
            &&& a_tile_count == b_tile_count
            &&& a_active_profile_id == b_active_profile_id
            &&& a_reserved0 == b_reserved0
            &&& a_inference_ms == b_inference_ms
            &&& a_queue_ms == b_queue_ms
            &&& a_server_total_ms == b_server_total_ms
            &&& a_reserved1 == b_reserved1
            &&& a_tile_base_id == b_tile_base_id
            &&& a_tile_index_bytes == b_tile_index_bytes
            &&& a_result_class == b_result_class
            &&& a_applied_budget_policy@.to_set() == b_applied_budget_policy@.to_set()
            &&& a_reused_frame_id == b_reused_frame_id
            &&& a_covered_tile_count == b_covered_tile_count
            &&& a_dropped_tile_count == b_dropped_tile_count
            &&& a_payload_kind_bitmap@.to_set() == b_payload_kind_bitmap@.to_set()
            &&& a_payload_frame_count == b_payload_frame_count
        },
        _ => r1 == r2,
    }
}

/// A recipe renders the same name, kind, description and bytes (the four
/// values `render_recipe` returns) whatever the order of the names in its
/// bit-set lists, and however often a name is repeated there.
pub proof fn law_recipes_read_bit_sets_as_sets(r1: SemanticVectorRecipe, r2: SemanticVectorRecipe)
    requires
        alike_but_bit_set_order(r1, r2),
    ensures
        recipe_name(r1) == recipe_name(r2),
        recipe_kind(r1) == recipe_kind(r2),
        recipe_description(r1) == recipe_description(r2),
        recipe_payload(r1) == recipe_payload(r2),
{
    match (r1, r2) {
        (
            SemanticVectorRecipe::Header {
                name: a_name, description: a_description, version_major: a_version_major,
                wire_format: a_wire_format, message_type: a_message_type, flags: a_flags, meta_len: a_meta_len,
                body_len: a_body_len, session_id: a_session_id, frame_id: a_frame_id, view_id: a_view_id,
                route_id: a_route_id, trace_id: a_trace_id,
            },
            SemanticVectorRecipe::Header {
                name: b_name, description: b_description, version_major: b_version_major,
                wire_format: b_wire_format, message_type: b_message_type, flags: b_flags, meta_len: b_meta_len,
                body_len: b_body_len, session_id: b_session_id, frame_id: b_frame_id, view_id: b_view_id,
                route_id: b_route_id, trace_id: b_trace_id,
            },
        ) => {
            law_header_flags_read_as_a_set(a_flags@, b_flags@);
        },
        (
            SemanticVectorRecipe::ClientHelloMetadata {
                name: a_name, description: a_description, min_version_major: a_min_version_major,
                max_version_major: a_max_version_major,
                supported_wire_format_bitmap: a_supported_wire_format_bitmap,
                supported_profile_bitmap: a_supported_profile_bitmap,
                supported_payload_kind_bitmap: a_supported_payload_kind_bitmap,
                supported_codec_bitmap: a_supported_codec_bitmap,
                supported_compression_bitmap: a_supported_compression_bitmap,
                supported_dtype_bitmap: a_supported_dtype_bitmap,
                supported_layout_bitmap: a_supported_layout_bitmap, cache_digest_bitmap: a_cache_digest_bitmap,
                cache_object_bitmap: a_cache_object_bitmap, cache_namespace_count: a_cache_namespace_count,
                max_lane_count: a_max_lane_count, max_cache_entries: a_max_cache_entries,
                max_cache_bytes: a_max_cache_bytes, target_cadence_x100: a_target_cadence_x100,
                latency_budget_ms: a_latency_budget_ms, quality_tier: a_quality_tier,
                degrade_policy: a_degrade_policy, requested_session_id: a_requested_session_id,
                auth_bytes: a_auth_bytes, control_extension_bytes: a_control_extension_bytes,
            },
            SemanticVectorRecipe::ClientHelloMetadata {
                name: b_name, description: b_description, min_version_major: b_min_version_major,
                max_version_major: b_max_version_major,
                supported_wire_format_bitmap: b_supported_wire_format_bitmap,
                supported_profile_bitmap: b_supported_profile_bitmap,
                supported_payload_kind_bitmap: b_supported_payload_kind_bitmap,
                supported_codec_bitmap: b_supported_codec_bitmap,
                supported_compression_bitmap: b_supported_compression_bitmap,
                supported_dtype_bitmap: b_supported_dtype_bitmap,
                supported_layout_bitmap: b_supported_layout_bitmap, cache_digest_bitmap: b_cache_digest_bitmap,
                cache_object_bitmap: b_cache_object_bitmap, cache_namespace_count: b_cache_namespace_count,
                max_lane_count: b_max_lane_count, max_cache_entries: b_max_cache_entries,
                max_cache_bytes: b_max_cache_bytes, target_cadence_x100: b_target_cadence_x100,
                latency_budget_ms: b_latency_budget_ms, quality_tier: b_quality_tier,
                degrade_policy: b_degrade_policy, requested_session_id: b_requested_session_id,
                auth_bytes: b_auth_bytes, control_extension_bytes: b_control_extension_bytes,
            },
        ) => {
            law_payload_kinds_read_as_a_set(a_supported_payload_kind_bitmap@, b_supported_payload_kind_bitmap@);
        },
        (
            SemanticVectorRecipe::SessionPatchAckMetadata {
                name: a_name, description: a_description, ack_status: a_ack_status, reject_reason: a_reject_reason,
                applied_patch_mask: a_applied_patch_mask, rejected_patch_mask: a_rejected_patch_mask,
                retry_after_ms: a_retry_after_ms, effective_profile_id: a_effective_profile_id,
                effective_target_cadence_x100: a_effective_target_cadence_x100,
                effective_quality_tier: a_effective_quality_tier,
                effective_degrade_policy: a_effective_degrade_policy, effective_lane_mask: a_effective_lane_mask,
                effective_codec_bitmap: a_effective_codec_bitmap,
                effective_compression_bitmap: a_effective_compression_bitmap,
                profile_patch_ack_bytes: a_profile_patch_ack_bytes, reserved0: a_reserved0,
            },
            SemanticVectorRecipe::SessionPatchAckMetadata {
                name: b_name, description: b_description, ack_status: b_ack_status, reject_reason: b_reject_reason,
                applied_patch_mask: b_applied_patch_mask, rejected_patch_mask: b_rejected_patch_mask,
                retry_after_ms: b_retry_after_ms, effective_profile_id: b_effective_profile_id,
                effective_target_cadence_x100: b_effective_target_cadence_x100,
                effective_quality_tier: b_effective_quality_tier,
                effective_degrade_policy: b_effective_degrade_policy, effective_lane_mask: b_effective_lane_mask,
                effective_codec_bitmap: b_effective_codec_bitmap,
                effective_compression_bitmap: b_effective_compression_bitmap,
                profile_patch_ack_bytes: b_profile_patch_ack_bytes, reserved0: b_reserved0,
            },
        ) => {
            law_session_patch_fields_read_as_a_set(a_applied_patch_mask@, b_applied_patch_mask@);
            law_session_patch_fields_read_as_a_set(a_rejected_patch_mask@, b_rejected_patch_mask@);
        },
        (
            SemanticVectorRecipe::FlowUpdatePacket {
                name: a_name, description: a_description, version_major: a_version_major,
                wire_format: a_wire_format, flags: a_flags, session_id: a_session_id, route_id: a_route_id,
                trace_id: a_trace_id, scope_kind: a_scope_kind, update_reason: a_update_reason,
                backpressure_level: a_backpressure_level, connection_credit: a_connection_credit,
                session_credit: a_session_credit, operation_credit: a_operation_credit,
                operation_id: a_operation_id, retry_after_ms: a_retry_after_ms, credit_epoch: a_credit_epoch,
                flow_update_flags: a_flow_update_flags,
            },
            SemanticVectorRecipe::FlowUpdatePacket {
                name: b_name, description: b_description, version_major: b_version_major,
                wire_format: b_wire_format, flags: b_flags, session_id: b_session_id, route_id: b_route_id,
                trace_id: b_trace_id, scope_kind: b_scope_kind, update_reason: b_update_reason,
                backpressure_level: b_backpressure_level, connection_credit: b_connection_credit,
                session_credit: b_session_credit, operation_credit: b_operation_credit,
                operation_id: b_operation_id, retry_after_ms: b_retry_after_ms, credit_epoch: b_credit_epoch,
                flow_update_flags: b_flow_update_flags,
            },
        ) => {
            law_header_flags_read_as_a_set(a_flags@, b_flags@);
            law_flow_update_flags_read_as_a_set(a_flow_update_flags@, b_flow_update_flags@);
        },
        (
            SemanticVectorRecipe::ResultHintPacket {
                name: a_name, description: a_description, version_major: a_version_major,
                wire_format: a_wire_format, flags: a_flags, session_id: a_session_id, frame_id: a_frame_id,
                route_id: a_route_id, trace_id: a_trace_id, applied_budget_policy: a_applied_budget_policy,
                congestion_state: a_congestion_state, reason: a_reason, retry_after_ms: a_retry_after_ms,
            },
            SemanticVectorRecipe::ResultHintPacket {
                name: b_name, description: b_description, version_major: b_version_major,
                wire_format: b_wire_format, flags: b_flags, session_id: b_session_id, frame_id: b_frame_id,
                route_id: b_route_id, trace_id: b_trace_id, applied_budget_policy: b_applied_budget_policy,
                congestion_state: b_congestion_state, reason: b_reason, retry_after_ms: b_retry_after_ms,
            },
        ) => {
            law_header_flags_read_as_a_set(a_flags@, b_flags@);
        },
        (
            SemanticVectorRecipe::FrameSubmitMetadata {
                name: a_name, description: a_description, src_width: a_src_width, src_height: a_src_height,
                tile_width: a_tile_width, tile_height: a_tile_height, tile_count: a_tile_count,
                section_count: a_section_count, frame_class: a_frame_class, input_profile: a_input_profile,
                tile_index_mode: a_tile_index_mode, reserved0: a_reserved0, latency_budget_ms: a_latency_budget_ms,
                target_fps_x100: a_target_fps_x100, retry_of_frame: a_retry_of_frame, tile_base_id: a_tile_base_id,
                camera_bytes: a_camera_bytes, tile_index_bytes: a_tile_index_bytes, submit_mode: a_submit_mode,
                budget_policy: a_budget_policy, loss_tolerance_policy: a_loss_tolerance_policy,
                object_ref_mask: a_object_ref_mask, dependency_frame_id: a_dependency_frame_id,
                payload_kind_bitmap: a_payload_kind_bitmap, payload_frame_count: a_payload_frame_count,
            },
            SemanticVectorRecipe::FrameSubmitMetadata {
                name: b_name, description: b_description, src_width: b_src_width, src_height: b_src_height,
                tile_width: b_tile_width, tile_height: b_tile_height, tile_count: b_tile_count,
                section_count: b_section_count, frame_class: b_frame_class, input_profile: b_input_profile,
                tile_index_mode: b_tile_index_mode, reserved0: b_reserved0, latency_budget_ms: b_latency_budget_ms,
                target_fps_x100: b_target_fps_x100, retry_of_frame: b_retry_of_frame, tile_base_id: b_tile_base_id,
                camera_bytes: b_camera_bytes, tile_index_bytes: b_tile_index_bytes, submit_mode: b_submit_mode,
                budget_policy: b_budget_policy, loss_tolerance_policy: b_loss_tolerance_policy,
                object_ref_mask: b_object_ref_mask, dependency_frame_id: b_dependency_frame_id,
                payload_kind_bitmap: b_payload_kind_bitmap, payload_frame_count: b_payload_frame_count,
            },
        ) => {
            law_budget_policies_read_as_a_set(a_budget_policy@, b_budget_policy@);
            law_payload_kinds_read_as_a_set(a_payload_kind_bitmap@, b_payload_kind_bitmap@);
        },
        (
            SemanticVectorRecipe::ResultPushMetadata {
                name: a_name, description: a_description, status_code: a_status_code, result_flags: a_result_flags,
                section_count: a_section_count, tile_count: a_tile_count, active_profile_id: a_active_profile_id,
                reserved0: a_reserved0, inference_ms: a_inference_ms, queue_ms: a_queue_ms,
                server_total_ms: a_server_total_ms, reserved1: a_reserved1, tile_base_id: a_tile_base_id,
                tile_index_bytes: a_tile_index_bytes, result_class: a_result_class,
                applied_budget_policy: a_applied_budget_policy, reused_frame_id: a_reused_frame_id,
                covered_tile_count: a_covered_tile_count, dropped_tile_count: a_dropped_tile_count,
                payload_kind_bitmap: a_payload_kind_bitmap, payload_frame_count: a_payload_frame_count,
            },
            SemanticVectorRecipe::ResultPushMetadata {
                name: b_name, description: b_description, status_code: b_status_code, result_flags: b_result_flags,
                section_count: b_section_count, tile_count: b_tile_count, active_profile_id: b_active_profile_id,
                reserved0: b_reserved0, inference_ms: b_inference_ms, queue_ms: b_queue_ms,
                server_total_ms: b_server_total_ms, reserved1: b_reserved1, tile_base_id: b_tile_base_id,
                tile_index_bytes: b_tile_index_bytes, result_class: b_result_class,
                applied_budget_policy: b_applied_budget_policy, reused_frame_id: b_reused_frame_id,
                covered_tile_count: b_covered_tile_count, dropped_tile_count: b_dropped_tile_count,
                payload_kind_bitmap: b_payload_kind_bitmap, payload_frame_count: b_payload_frame_count,
            },
        ) => {
            law_result_flags_read_as_a_set(a_result_flags@, b_result_flags@);
            law_budget_policies_read_as_a_set(a_applied_budget_policy@, b_applied_budget_policy@);
            law_payload_kinds_read_as_a_set(a_payload_kind_bitmap@, b_payload_kind_bitmap@);
        },
        _ => {},
    }
}

} // verus!
