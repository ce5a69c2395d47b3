use vstd::prelude::*;

use crate::semantic_vectors::{
    budget_policy_mask, flow_update_flag_bits, header_bytes, header_flag_bits, payload_kind_bits, recipe_payload,
    result_flag_bits, session_patch_bits, descriptor_bytes, HeaderFields, MessageTypeName, SemanticVectorRecipe,
    TypedPayloadFrameRecipe,
};
use vstd::utf8::encode_utf8;
use crate::semantic_vectors::{
    BudgetPolicyName, CacheObjectKindName, FlowUpdateBackpressureLevelName, FlowUpdateFlagName,
    FlowUpdateReasonName, FlowUpdateScopeKindName, HeaderFlagName, InFlightPolicyName, InputProfileName,
    LossTolerancePolicyName, PayloadKindName, ResultClassName, ResultFlagName, ResultHintBudgetPolicyName,
    ResultHintCongestionStateName, ResultHintReasonName, SessionCloseReasonName, SessionCloseStatusName,
    SessionPatchAckStatusName, SessionPatchFieldName, SessionPatchRejectReasonName, SessionPriorityClassName,
    SessionStatusName, SubmitModeName, TileIndexModeName,
};
use crate::wire_bytes::{hex_digit, b8, lemma_le_bytes_len, u16_le, u32_le, u64_le};

verus! {

proof fn lemma_widths()
    ensures
        forall|v: u8| #[trigger] b8(v).len() == 1,
        forall|v: u16| #[trigger] u16_le(v).len() == 2,
        forall|v: u32| #[trigger] u32_le(v).len() == 4,
        forall|v: u64| #[trigger] u64_le(v).len() == 8,
{
    assert forall|v: u16| #[trigger] u16_le(v).len() == 2 by {
        lemma_le_bytes_len(v as nat, 2);
    }
    assert forall|v: u32| #[trigger] u32_le(v).len() == 4 by {
        lemma_le_bytes_len(v as nat, 4);
    }
    assert forall|v: u64| #[trigger] u64_le(v).len() == 8 by {
        lemma_le_bytes_len(v as nat, 8);
    }
}

/// The client hello metadata recipe renders 64 bytes, one field after another, each little-endian:
/// min_version_major at bytes 0..1; max_version_major at bytes 1..2; supported_wire_format_bitmap at
/// bytes 2..4; supported_profile_bitmap at bytes 4..8; payload_kind_bits(supported_payload_kind_bitmap)
/// at bytes 8..12; supported_codec_bitmap at bytes 12..16; supported_compression_bitmap at bytes
/// 16..20; supported_dtype_bitmap at bytes 20..24; supported_layout_bitmap at bytes 24..28;
/// cache_digest_bitmap at bytes 28..30; cache_object_bitmap at bytes 30..32; cache_namespace_count at
/// bytes 32..34; max_lane_count at bytes 34..36; max_cache_entries at bytes 36..40; max_cache_bytes at
/// bytes 40..44; target_cadence_x100 at bytes 44..46; latency_budget_ms at bytes 46..48; quality_tier
/// at bytes 48..50; degrade_policy at bytes 50..52; requested_session_id at bytes 52..56; auth_bytes at
/// bytes 56..60; control_extension_bytes at bytes 60..64.
pub proof fn law_client_hello_metadata_layout(recipe: SemanticVectorRecipe)
    ensures
        recipe matches SemanticVectorRecipe::ClientHelloMetadata {
            min_version_major, max_version_major, supported_wire_format_bitmap, supported_profile_bitmap,
            supported_payload_kind_bitmap, supported_codec_bitmap, supported_compression_bitmap,
            supported_dtype_bitmap, supported_layout_bitmap, cache_digest_bitmap, cache_object_bitmap,
            cache_namespace_count, max_lane_count, max_cache_entries, max_cache_bytes, target_cadence_x100,
            latency_budget_ms, quality_tier, degrade_policy, requested_session_id, auth_bytes,
            control_extension_bytes, ..
        } ==> {
            let p = recipe_payload(recipe);
            &&& p.len() == 64
            &&& p.subrange(0, 1) == b8(min_version_major)
            &&& p.subrange(1, 2) == b8(max_version_major)
            &&& p.subrange(2, 4) == u16_le(supported_wire_format_bitmap)
            &&& p.subrange(4, 8) == u32_le(supported_profile_bitmap)
            &&& p.subrange(8, 12) == u32_le(payload_kind_bits(supported_payload_kind_bitmap@))
            &&& p.subrange(12, 16) == u32_le(supported_codec_bitmap)
            &&& p.subrange(16, 20) == u32_le(supported_compression_bitmap)
            &&& p.subrange(20, 24) == u32_le(supported_dtype_bitmap)
            &&& p.subrange(24, 28) == u32_le(supported_layout_bitmap)
            &&& p.subrange(28, 30) == u16_le(cache_digest_bitmap)
            &&& p.subrange(30, 32) == u16_le(cache_object_bitmap)
            &&& p.subrange(32, 34) == u16_le(cache_namespace_count)
            &&& p.subrange(34, 36) == u16_le(max_lane_count)
            &&& p.subrange(36, 40) == u32_le(max_cache_entries)
            &&& p.subrange(40, 44) == u32_le(max_cache_bytes)
            &&& p.subrange(44, 46) == u16_le(target_cadence_x100)
            &&& p.subrange(46, 48) == u16_le(latency_budget_ms)
            &&& p.subrange(48, 50) == u16_le(quality_tier)
            &&& p.subrange(50, 52) == u16_le(degrade_policy)
            &&& p.subrange(52, 56) == u32_le(requested_session_id)
            &&& p.subrange(56, 60) == u32_le(auth_bytes)
            &&& p.subrange(60, 64) == u32_le(control_extension_bytes)
        },
{
    lemma_widths();
    match recipe {
        SemanticVectorRecipe::ClientHelloMetadata {
            min_version_major, max_version_major, supported_wire_format_bitmap, supported_profile_bitmap,
            supported_payload_kind_bitmap, supported_codec_bitmap, supported_compression_bitmap,
            supported_dtype_bitmap, supported_layout_bitmap, cache_digest_bitmap, cache_object_bitmap,
            cache_namespace_count, max_lane_count, max_cache_entries, max_cache_bytes, target_cadence_x100,
            latency_budget_ms, quality_tier, degrade_policy, requested_session_id, auth_bytes,
            control_extension_bytes, ..
        } => {
            let p = recipe_payload(recipe);
            assert(p.subrange(0, 1) =~= b8(min_version_major));
            assert(p.subrange(1, 2) =~= b8(max_version_major));
            assert(p.subrange(2, 4) =~= u16_le(supported_wire_format_bitmap));
            assert(p.subrange(4, 8) =~= u32_le(supported_profile_bitmap));
            assert(p.subrange(8, 12) =~= u32_le(payload_kind_bits(supported_payload_kind_bitmap@)));
            assert(p.subrange(12, 16) =~= u32_le(supported_codec_bitmap));
            assert(p.subrange(16, 20) =~= u32_le(supported_compression_bitmap));
            assert(p.subrange(20, 24) =~= u32_le(supported_dtype_bitmap));
            assert(p.subrange(24, 28) =~= u32_le(supported_layout_bitmap));
            assert(p.subrange(28, 30) =~= u16_le(cache_digest_bitmap));
            assert(p.subrange(30, 32) =~= u16_le(cache_object_bitmap));
            assert(p.subrange(32, 34) =~= u16_le(cache_namespace_count));
            assert(p.subrange(34, 36) =~= u16_le(max_lane_count));
            assert(p.subrange(36, 40) =~= u32_le(max_cache_entries));
            assert(p.subrange(40, 44) =~= u32_le(max_cache_bytes));
            assert(p.subrange(44, 46) =~= u16_le(target_cadence_x100));
            assert(p.subrange(46, 48) =~= u16_le(latency_budget_ms));
            assert(p.subrange(48, 50) =~= u16_le(quality_tier));
            assert(p.subrange(50, 52) =~= u16_le(degrade_policy));
            assert(p.subrange(52, 56) =~= u32_le(requested_session_id));
            assert(p.subrange(56, 60) =~= u32_le(auth_bytes));
            assert(p.subrange(60, 64) =~= u32_le(control_extension_bytes));
        },
        _ => {},
    }
}

/// The session patch ack metadata recipe renders 48 bytes, one field after another, each little-endian:
/// ack_status.code() at bytes 0..2; reject_reason.code() at bytes 2..4;
/// session_patch_bits(applied_patch_mask) at bytes 4..8; session_patch_bits(rejected_patch_mask) at
/// bytes 8..12; retry_after_ms at bytes 12..16; effective_profile_id at bytes 16..18; reserved0 at
/// bytes 18..20; effective_target_cadence_x100 at bytes 20..24; effective_quality_tier at bytes 24..26;
/// effective_degrade_policy at bytes 26..28; effective_lane_mask at bytes 28..36;
/// effective_codec_bitmap at bytes 36..40; effective_compression_bitmap at bytes 40..44;
/// profile_patch_ack_bytes at bytes 44..48.
pub proof fn law_session_patch_ack_metadata_layout(recipe: SemanticVectorRecipe)
    ensures
        recipe matches SemanticVectorRecipe::SessionPatchAckMetadata {
            ack_status, reject_reason, applied_patch_mask, rejected_patch_mask, retry_after_ms,
            effective_profile_id, effective_target_cadence_x100, effective_quality_tier, effective_degrade_policy,
            effective_lane_mask, effective_codec_bitmap, effective_compression_bitmap, profile_patch_ack_bytes,
            reserved0, ..
        } ==> {
            let p = recipe_payload(recipe);
            &&& p.len() == 48
            &&& p.subrange(0, 2) == u16_le(ack_status.code())
            &&& p.subrange(2, 4) == u16_le(reject_reason.code())
            &&& p.subrange(4, 8) == u32_le(session_patch_bits(applied_patch_mask@))
            &&& p.subrange(8, 12) == u32_le(session_patch_bits(rejected_patch_mask@))
            &&& p.subrange(12, 16) == u32_le(retry_after_ms)
            &&& p.subrange(16, 18) == u16_le(effective_profile_id)
            &&& p.subrange(18, 20) == u16_le(reserved0)
            &&& p.subrange(20, 24) == u32_le(effective_target_cadence_x100)
            &&& p.subrange(24, 26) == u16_le(effective_quality_tier)
            &&& p.subrange(26, 28) == u16_le(effective_degrade_policy)
            &&& p.subrange(28, 36) == u64_le(effective_lane_mask)
            &&& p.subrange(36, 40) == u32_le(effective_codec_bitmap)
            &&& p.subrange(40, 44) == u32_le(effective_compression_bitmap)
            &&& p.subrange(44, 48) == u32_le(profile_patch_ack_bytes)
        },
{
    lemma_widths();
    match recipe {
        SemanticVectorRecipe::SessionPatchAckMetadata {
            ack_status, reject_reason, applied_patch_mask, rejected_patch_mask, retry_after_ms,
            effective_profile_id, effective_target_cadence_x100, effective_quality_tier, effective_degrade_policy,
            effective_lane_mask, effective_codec_bitmap, effective_compression_bitmap, profile_patch_ack_bytes,
            reserved0, ..
        } => {
            let p = recipe_payload(recipe);
            assert(p.subrange(0, 2) =~= u16_le(ack_status.code()));
            assert(p.subrange(2, 4) =~= u16_le(reject_reason.code()));
            assert(p.subrange(4, 8) =~= u32_le(session_patch_bits(applied_patch_mask@)));
            assert(p.subrange(8, 12) =~= u32_le(session_patch_bits(rejected_patch_mask@)));
            assert(p.subrange(12, 16) =~= u32_le(retry_after_ms));
            assert(p.subrange(16, 18) =~= u16_le(effective_profile_id));
            assert(p.subrange(18, 20) =~= u16_le(reserved0));
            assert(p.subrange(20, 24) =~= u32_le(effective_target_cadence_x100));
            assert(p.subrange(24, 26) =~= u16_le(effective_quality_tier));
            assert(p.subrange(26, 28) =~= u16_le(effective_degrade_policy));
            assert(p.subrange(28, 36) =~= u64_le(effective_lane_mask));
            assert(p.subrange(36, 40) =~= u32_le(effective_codec_bitmap));
            assert(p.subrange(40, 44) =~= u32_le(effective_compression_bitmap));
            assert(p.subrange(44, 48) =~= u32_le(profile_patch_ack_bytes));
        },
        _ => {},
    }
}

/// The session open metadata recipe renders 48 bytes, one field after another, each little-endian:
/// requested_session_id at bytes 0..4; profile_id at bytes 4..6; priority_class.code() at bytes 6..7;
/// session_flags at bytes 7..8; schema_id at bytes 8..12; schema_version at bytes 12..16;
/// default_deadline_ms at bytes 16..20; max_in_flight_operations at bytes 20..22; 0u16 at bytes 22..24;
/// lease_ttl_hint_ms at bytes 24..28; resume_token_bytes at bytes 28..32; auth_bytes at bytes 32..36;
/// session_extension_bytes at bytes 36..40; client_session_tag at bytes 40..48.
pub proof fn law_session_open_metadata_layout(recipe: SemanticVectorRecipe)
    ensures
        recipe matches SemanticVectorRecipe::SessionOpenMetadata {
            requested_session_id, profile_id, priority_class, session_flags, schema_id, schema_version,
            default_deadline_ms, max_in_flight_operations, lease_ttl_hint_ms, resume_token_bytes, auth_bytes,
            session_extension_bytes, client_session_tag, ..
        } ==> {
            let p = recipe_payload(recipe);
            &&& p.len() == 48
            &&& p.subrange(0, 4) == u32_le(requested_session_id)
            &&& p.subrange(4, 6) == u16_le(profile_id)
            &&& p.subrange(6, 7) == b8(priority_class.code())
            &&& p.subrange(7, 8) == b8(session_flags)
            &&& p.subrange(8, 12) == u32_le(schema_id)
            &&& p.subrange(12, 16) == u32_le(schema_version)
            &&& p.subrange(16, 20) == u32_le(default_deadline_ms)
            &&& p.subrange(20, 22) == u16_le(max_in_flight_operations)
            &&& p.subrange(22, 24) == u16_le(0u16)
            &&& p.subrange(24, 28) == u32_le(lease_ttl_hint_ms)
            &&& p.subrange(28, 32) == u32_le(resume_token_bytes)
            &&& p.subrange(32, 36) == u32_le(auth_bytes)
            &&& p.subrange(36, 40) == u32_le(session_extension_bytes)
            &&& p.subrange(40, 48) == u64_le(client_session_tag)
        },
{
    lemma_widths();
    match recipe {
        SemanticVectorRecipe::SessionOpenMetadata {
            requested_session_id, profile_id, priority_class, session_flags, schema_id, schema_version,
            default_deadline_ms, max_in_flight_operations, lease_ttl_hint_ms, resume_token_bytes, auth_bytes,
            session_extension_bytes, client_session_tag, ..
        } => {
            let p = recipe_payload(recipe);
            assert(p.subrange(0, 4) =~= u32_le(requested_session_id));
            assert(p.subrange(4, 6) =~= u16_le(profile_id));
            assert(p.subrange(6, 7) =~= b8(priority_class.code()));
            assert(p.subrange(7, 8) =~= b8(session_flags));
            assert(p.subrange(8, 12) =~= u32_le(schema_id));
            assert(p.subrange(12, 16) =~= u32_le(schema_version));
            assert(p.subrange(16, 20) =~= u32_le(default_deadline_ms));
            assert(p.subrange(20, 22) =~= u16_le(max_in_flight_operations));
            assert(p.subrange(22, 24) =~= u16_le(0u16));
            assert(p.subrange(24, 28) =~= u32_le(lease_ttl_hint_ms));
            assert(p.subrange(28, 32) =~= u32_le(resume_token_bytes));
            assert(p.subrange(32, 36) =~= u32_le(auth_bytes));
            assert(p.subrange(36, 40) =~= u32_le(session_extension_bytes));
            assert(p.subrange(40, 48) =~= u64_le(client_session_tag));
        },
        _ => {},
    }
}

/// The session open ack metadata recipe renders 56 bytes, one field after another, each little-endian:
/// session_id at bytes 0..4; accepted_profile_id at bytes 4..6; accepted_priority_class.code() at bytes
/// 6..7; session_status.code() at bytes 7..8; schema_id at bytes 8..12; schema_version at bytes 12..16;
/// granted_operation_credit at bytes 16..18; max_in_flight_operations at bytes 18..20; lease_ttl_ms at
/// bytes 20..24; resume_window_ms at bytes 24..28; resume_token_bytes at bytes 28..32;
/// session_extension_bytes at bytes 32..36; server_session_tag at bytes 36..44; route_scope_id at bytes
/// 44..48; session_error_code at bytes 48..52; session_flags_ack at bytes 52..56.
pub proof fn law_session_open_ack_metadata_layout(recipe: SemanticVectorRecipe)
    ensures
        recipe matches SemanticVectorRecipe::SessionOpenAckMetadata {
            session_id, accepted_profile_id, accepted_priority_class, session_status, schema_id, schema_version,
            granted_operation_credit, max_in_flight_operations, lease_ttl_ms, resume_window_ms, resume_token_bytes,
            session_extension_bytes, server_session_tag, route_scope_id, session_error_code, session_flags_ack, ..
        } ==> {
            let p = recipe_payload(recipe);
            &&& p.len() == 56
            &&& p.subrange(0, 4) == u32_le(session_id)
            &&& p.subrange(4, 6) == u16_le(accepted_profile_id)
            &&& p.subrange(6, 7) == b8(accepted_priority_class.code())
            &&& p.subrange(7, 8) == b8(session_status.code())
            &&& p.subrange(8, 12) == u32_le(schema_id)
            &&& p.subrange(12, 16) == u32_le(schema_version)
            &&& p.subrange(16, 18) == u16_le(granted_operation_credit)
            &&& p.subrange(18, 20) == u16_le(max_in_flight_operations)
            &&& p.subrange(20, 24) == u32_le(lease_ttl_ms)
            &&& p.subrange(24, 28) == u32_le(resume_window_ms)
            &&& p.subrange(28, 32) == u32_le(resume_token_bytes)
            &&& p.subrange(32, 36) == u32_le(session_extension_bytes)
            &&& p.subrange(36, 44) == u64_le(server_session_tag)
            &&& p.subrange(44, 48) == u32_le(route_scope_id)
            &&& p.subrange(48, 52) == u32_le(session_error_code)
            &&& p.subrange(52, 56) == u32_le(session_flags_ack)
        },
{
    lemma_widths();
    match recipe {
        SemanticVectorRecipe::SessionOpenAckMetadata {
            session_id, accepted_profile_id, accepted_priority_class, session_status, schema_id, schema_version,
            granted_operation_credit, max_in_flight_operations, lease_ttl_ms, resume_window_ms, resume_token_bytes,
            session_extension_bytes, server_session_tag, route_scope_id, session_error_code, session_flags_ack, ..
        } => {
            let p = recipe_payload(recipe);
            assert(p.subrange(0, 4) =~= u32_le(session_id));
            assert(p.subrange(4, 6) =~= u16_le(accepted_profile_id));
            assert(p.subrange(6, 7) =~= b8(accepted_priority_class.code()));
            assert(p.subrange(7, 8) =~= b8(session_status.code()));
            assert(p.subrange(8, 12) =~= u32_le(schema_id));
            assert(p.subrange(12, 16) =~= u32_le(schema_version));
            assert(p.subrange(16, 18) =~= u16_le(granted_operation_credit));
            assert(p.subrange(18, 20) =~= u16_le(max_in_flight_operations));
            assert(p.subrange(20, 24) =~= u32_le(lease_ttl_ms));
            assert(p.subrange(24, 28) =~= u32_le(resume_window_ms));
            assert(p.subrange(28, 32) =~= u32_le(resume_token_bytes));
            assert(p.subrange(32, 36) =~= u32_le(session_extension_bytes));
            assert(p.subrange(36, 44) =~= u64_le(server_session_tag));
            assert(p.subrange(44, 48) =~= u32_le(route_scope_id));
            assert(p.subrange(48, 52) =~= u32_le(session_error_code));
            assert(p.subrange(52, 56) =~= u32_le(session_flags_ack));
        },
        _ => {},
    }
}

/// The session close metadata recipe renders 24 bytes, one field after another, each little-endian:
/// close_reason.code() at bytes 0..2; in_flight_policy.code() at bytes 2..3; 0u8 at bytes 3..4;
/// drain_timeout_ms at bytes 4..8; last_operation_id at bytes 8..16; session_error_code at bytes
/// 16..20; session_close_tag at bytes 20..24.
pub proof fn law_session_close_metadata_layout(recipe: SemanticVectorRecipe)
    ensures
        recipe matches SemanticVectorRecipe::SessionCloseMetadata {
            close_reason, in_flight_policy, drain_timeout_ms, last_operation_id, session_error_code,
            session_close_tag, ..
        } ==> {
            let p = recipe_payload(recipe);
            &&& p.len() == 24
            &&& p.subrange(0, 2) == u16_le(close_reason.code())
            &&& p.subrange(2, 3) == b8(in_flight_policy.code())
            &&& p.subrange(3, 4) == b8(0u8)
            &&& p.subrange(4, 8) == u32_le(drain_timeout_ms)
            &&& p.subrange(8, 16) == u64_le(last_operation_id)
            &&& p.subrange(16, 20) == u32_le(session_error_code)
            &&& p.subrange(20, 24) == u32_le(session_close_tag)
        },
{
    lemma_widths();
    match recipe {
        SemanticVectorRecipe::SessionCloseMetadata {
            close_reason, in_flight_policy, drain_timeout_ms, last_operation_id, session_error_code,
            session_close_tag, ..
        } => {
            let p = recipe_payload(recipe);
            assert(p.subrange(0, 2) =~= u16_le(close_reason.code()));
            assert(p.subrange(2, 3) =~= b8(in_flight_policy.code()));
            assert(p.subrange(3, 4) =~= b8(0u8));
            assert(p.subrange(4, 8) =~= u32_le(drain_timeout_ms));
            assert(p.subrange(8, 16) =~= u64_le(last_operation_id));
            assert(p.subrange(16, 20) =~= u32_le(session_error_code));
            assert(p.subrange(20, 24) =~= u32_le(session_close_tag));
        },
        _ => {},
    }
}

/// The session close ack metadata recipe renders 16 bytes, one field after another, each little-endian:
/// close_status.code() at bytes 0..1; 0u8 at bytes 1..2; 0u16 at bytes 2..4; last_operation_id at bytes
/// 4..12; session_error_code at bytes 12..16.
pub proof fn law_session_close_ack_metadata_layout(recipe: SemanticVectorRecipe)
    ensures
        recipe matches SemanticVectorRecipe::SessionCloseAckMetadata {
            close_status, last_operation_id, session_error_code, ..
        } ==> {
            let p = recipe_payload(recipe);
            &&& p.len() == 16
            &&& p.subrange(0, 1) == b8(close_status.code())
            &&& p.subrange(1, 2) == b8(0u8)
            &&& p.subrange(2, 4) == u16_le(0u16)
            &&& p.subrange(4, 12) == u64_le(last_operation_id)
            &&& p.subrange(12, 16) == u32_le(session_error_code)
        },
{
    lemma_widths();
    match recipe {
        SemanticVectorRecipe::SessionCloseAckMetadata {
            close_status, last_operation_id, session_error_code, ..
        } => {
            let p = recipe_payload(recipe);
            assert(p.subrange(0, 1) =~= b8(close_status.code()));
            assert(p.subrange(1, 2) =~= b8(0u8));
            assert(p.subrange(2, 4) =~= u16_le(0u16));
            assert(p.subrange(4, 12) =~= u64_le(last_operation_id));
            assert(p.subrange(12, 16) =~= u32_le(session_error_code));
        },
        _ => {},
    }
}

/// The schema descriptor header recipe renders 32 bytes, one field after another, each little-endian:
/// schema_id at bytes 0..4; schema_version at bytes 4..8; profile_id at bytes 8..10; schema_flags at
/// bytes 10..12; min_version_major at bytes 12..13; max_version_major at bytes 13..14; 0u16 at bytes
/// 14..16; body_bytes at bytes 16..20; dependency_count at bytes 20..22; default_stream_semantics at
/// bytes 22..24; schema_hash at bytes 24..32.
pub proof fn law_schema_descriptor_header_layout(recipe: SemanticVectorRecipe)
    ensures
        recipe matches SemanticVectorRecipe::SchemaDescriptorHeader {
            schema_id, schema_version, profile_id, schema_flags, min_version_major, max_version_major, body_bytes,
            dependency_count, default_stream_semantics, schema_hash, ..
        } ==> {
            let p = recipe_payload(recipe);
            &&& p.len() == 32
            &&& p.subrange(0, 4) == u32_le(schema_id)
            &&& p.subrange(4, 8) == u32_le(schema_version)
            &&& p.subrange(8, 10) == u16_le(profile_id)
            &&& p.subrange(10, 12) == u16_le(schema_flags)
            &&& p.subrange(12, 13) == b8(min_version_major)
            &&& p.subrange(13, 14) == b8(max_version_major)
            &&& p.subrange(14, 16) == u16_le(0u16)
            &&& p.subrange(16, 20) == u32_le(body_bytes)
            &&& p.subrange(20, 22) == u16_le(dependency_count)
            &&& p.subrange(22, 24) == u16_le(default_stream_semantics)
            &&& p.subrange(24, 32) == u64_le(schema_hash)
        },
{
    lemma_widths();
    match recipe {
        SemanticVectorRecipe::SchemaDescriptorHeader {
            schema_id, schema_version, profile_id, schema_flags, min_version_major, max_version_major, body_bytes,
            dependency_count, default_stream_semantics, schema_hash, ..
        } => {
            let p = recipe_payload(recipe);
            assert(p.subrange(0, 4) =~= u32_le(schema_id));
            assert(p.subrange(4, 8) =~= u32_le(schema_version));
            assert(p.subrange(8, 10) =~= u16_le(profile_id));
            assert(p.subrange(10, 12) =~= u16_le(schema_flags));
            assert(p.subrange(12, 13) =~= b8(min_version_major));
            assert(p.subrange(13, 14) =~= b8(max_version_major));
            assert(p.subrange(14, 16) =~= u16_le(0u16));
            assert(p.subrange(16, 20) =~= u32_le(body_bytes));
            assert(p.subrange(20, 22) =~= u16_le(dependency_count));
            assert(p.subrange(22, 24) =~= u16_le(default_stream_semantics));
            assert(p.subrange(24, 32) =~= u64_le(schema_hash));
        },
        _ => {},
    }
}

/// The typed payload descriptor v3 recipe renders 24 bytes, one field after another, each little-
/// endian: profile_id at bytes 0..2; descriptor_flags at bytes 2..4; schema_id at bytes 4..8;
/// schema_version at bytes 8..12; stream_semantics at bytes 12..14; 0u16 at bytes 14..16; offset at
/// bytes 16..20; length at bytes 20..24.
pub proof fn law_typed_payload_descriptor_v3_layout(recipe: SemanticVectorRecipe)
    ensures
        recipe matches SemanticVectorRecipe::TypedPayloadDescriptorV3 {
            profile_id, descriptor_flags, schema_id, schema_version, stream_semantics, offset, length, ..
        } ==> {
            let p = recipe_payload(recipe);
            &&& p.len() == 24
            &&& p.subrange(0, 2) == u16_le(profile_id)
            &&& p.subrange(2, 4) == u16_le(descriptor_flags)
            &&& p.subrange(4, 8) == u32_le(schema_id)
            &&& p.subrange(8, 12) == u32_le(schema_version)
            &&& p.subrange(12, 14) == u16_le(stream_semantics)
            &&& p.subrange(14, 16) == u16_le(0u16)
            &&& p.subrange(16, 20) == u32_le(offset)
            &&& p.subrange(20, 24) == u32_le(length)
        },
{
    lemma_widths();
    match recipe {
        SemanticVectorRecipe::TypedPayloadDescriptorV3 {
            profile_id, descriptor_flags, schema_id, schema_version, stream_semantics, offset, length, ..
        } => {
            let p = recipe_payload(recipe);
            assert(p.subrange(0, 2) =~= u16_le(profile_id));
            assert(p.subrange(2, 4) =~= u16_le(descriptor_flags));
            assert(p.subrange(4, 8) =~= u32_le(schema_id));
            assert(p.subrange(8, 12) =~= u32_le(schema_version));
            assert(p.subrange(12, 14) =~= u16_le(stream_semantics));
            assert(p.subrange(14, 16) =~= u16_le(0u16));
            assert(p.subrange(16, 20) =~= u32_le(offset));
            assert(p.subrange(20, 24) =~= u32_le(length));
        },
        _ => {},
    }
}

/// The frame submit metadata recipe renders 72 bytes, one field after another, each little-endian:
/// src_width at bytes 0..2; src_height at bytes 2..4; tile_width at bytes 4..6; tile_height at bytes
/// 6..8; tile_count at bytes 8..10; section_count at bytes 10..12; frame_class at bytes 12..13;
/// input_profile.code() at bytes 13..14; tile_index_mode.code() at bytes 14..15; reserved0 at bytes
/// 15..16; latency_budget_ms at bytes 16..18; target_fps_x100 at bytes 18..20; retry_of_frame at bytes
/// 20..24; tile_base_id at bytes 24..28; camera_bytes at bytes 28..32; tile_index_bytes at bytes
/// 32..36; 0u64 at bytes 36..44; 0u64 at bytes 44..52; submit_mode.code() at bytes 52..53;
/// budget_policy_mask(budget_policy) at bytes 53..54; loss_tolerance_policy.code() at bytes 54..55; 0u8
/// at bytes 55..56; object_ref_mask at bytes 56..60; dependency_frame_id at bytes 60..64;
/// payload_kind_bits(payload_kind_bitmap) at bytes 64..68; payload_frame_count at bytes 68..70; 0u16 at
/// bytes 70..72.
#[verifier::rlimit(60)]
#[verifier::spinoff_prover]
pub proof fn law_frame_submit_metadata_layout(recipe: SemanticVectorRecipe)
    ensures
        recipe matches SemanticVectorRecipe::FrameSubmitMetadata {
            src_width, src_height, tile_width, tile_height, tile_count, section_count, frame_class, input_profile,
            tile_index_mode, reserved0, latency_budget_ms, target_fps_x100, retry_of_frame, tile_base_id,
            camera_bytes, tile_index_bytes, submit_mode, budget_policy, loss_tolerance_policy, object_ref_mask,
            dependency_frame_id, payload_kind_bitmap, payload_frame_count, ..
        } ==> {
            let p = recipe_payload(recipe);
            &&& p.len() == 72
            &&& p.subrange(0, 2) == u16_le(src_width)
            &&& p.subrange(2, 4) == u16_le(src_height)
            &&& p.subrange(4, 6) == u16_le(tile_width)
            &&& p.subrange(6, 8) == u16_le(tile_height)
            &&& p.subrange(8, 10) == u16_le(tile_count)
            &&& p.subrange(10, 12) == u16_le(section_count)
            &&& p.subrange(12, 13) == b8(frame_class)
            &&& p.subrange(13, 14) == b8(input_profile.code())
            &&& p.subrange(14, 15) == b8(tile_index_mode.code())
            &&& p.subrange(15, 16) == b8(reserved0)
            &&& p.subrange(16, 18) == u16_le(latency_budget_ms)
            &&& p.subrange(18, 20) == u16_le(target_fps_x100)
            &&& p.subrange(20, 24) == u32_le(retry_of_frame)
            &&& p.subrange(24, 28) == u32_le(tile_base_id)
            &&& p.subrange(28, 32) == u32_le(camera_bytes)
            &&& p.subrange(32, 36) == u32_le(tile_index_bytes)
            &&& p.subrange(36, 44) == u64_le(0u64)
            &&& p.subrange(44, 52) == u64_le(0u64)
            &&& p.subrange(52, 53) == b8(submit_mode.code())
            &&& p.subrange(53, 54) == b8(budget_policy_mask(budget_policy@))
            &&& p.subrange(54, 55) == b8(loss_tolerance_policy.code())
            &&& p.subrange(55, 56) == b8(0u8)
            &&& p.subrange(56, 60) == u32_le(object_ref_mask)
            &&& p.subrange(60, 64) == u32_le(dependency_frame_id)
            &&& p.subrange(64, 68) == u32_le(payload_kind_bits(payload_kind_bitmap@))
            &&& p.subrange(68, 70) == u16_le(payload_frame_count)
            &&& p.subrange(70, 72) == u16_le(0u16)
        },
{
    lemma_widths();
    match recipe {
        SemanticVectorRecipe::FrameSubmitMetadata {
            src_width, src_height, tile_width, tile_height, tile_count, section_count, frame_class, input_profile,
            tile_index_mode, reserved0, latency_budget_ms, target_fps_x100, retry_of_frame, tile_base_id,
            camera_bytes, tile_index_bytes, submit_mode, budget_policy, loss_tolerance_policy, object_ref_mask,
            dependency_frame_id, payload_kind_bitmap, payload_frame_count, ..
        } => {
            let p = recipe_payload(recipe);
            assert(p.subrange(0, 2) =~= u16_le(src_width));
            assert(p.subrange(2, 4) =~= u16_le(src_height));
            assert(p.subrange(4, 6) =~= u16_le(tile_width));
            assert(p.subrange(6, 8) =~= u16_le(tile_height));
            assert(p.subrange(8, 10) =~= u16_le(tile_count));
            assert(p.subrange(10, 12) =~= u16_le(section_count));
            assert(p.subrange(12, 13) =~= b8(frame_class));
            assert(p.subrange(13, 14) =~= b8(input_profile.code()));
            assert(p.subrange(14, 15) =~= b8(tile_index_mode.code()));
            assert(p.subrange(15, 16) =~= b8(reserved0));
            assert(p.subrange(16, 18) =~= u16_le(latency_budget_ms));
            assert(p.subrange(18, 20) =~= u16_le(target_fps_x100));
            assert(p.subrange(20, 24) =~= u32_le(retry_of_frame));
            assert(p.subrange(24, 28) =~= u32_le(tile_base_id));
            assert(p.subrange(28, 32) =~= u32_le(camera_bytes));
            assert(p.subrange(32, 36) =~= u32_le(tile_index_bytes));
            assert(p.subrange(36, 44) =~= u64_le(0u64));
            assert(p.subrange(44, 52) =~= u64_le(0u64));
            assert(p.subrange(52, 53) =~= b8(submit_mode.code()));
            assert(p.subrange(53, 54) =~= b8(budget_policy_mask(budget_policy@)));
            assert(p.subrange(54, 55) =~= b8(loss_tolerance_policy.code()));
            assert(p.subrange(55, 56) =~= b8(0u8));
            assert(p.subrange(56, 60) =~= u32_le(object_ref_mask));
            assert(p.subrange(60, 64) =~= u32_le(dependency_frame_id));
            assert(p.subrange(64, 68) =~= u32_le(payload_kind_bits(payload_kind_bitmap@)));
            assert(p.subrange(68, 70) =~= u16_le(payload_frame_count));
            assert(p.subrange(70, 72) =~= u16_le(0u16));
        },
        _ => {},
    }
}

/// The result push metadata recipe renders 64 bytes, one field after another, each little-endian:
/// status_code at bytes 0..2; result_flag_bits(result_flags) at bytes 2..4; section_count at bytes
/// 4..6; tile_count at bytes 6..8; active_profile_id at bytes 8..10; reserved0 at bytes 10..12;
/// inference_ms at bytes 12..14; queue_ms at bytes 14..16; server_total_ms at bytes 16..18; reserved1
/// at bytes 18..20; tile_base_id at bytes 20..24; tile_index_bytes at bytes 24..28; 0u64 at bytes
/// 28..36; 0u64 at bytes 36..44; result_class.code() at bytes 44..45;
/// budget_policy_mask(applied_budget_policy) at bytes 45..46; 0u16 at bytes 46..48; reused_frame_id at
/// bytes 48..52; covered_tile_count at bytes 52..54; dropped_tile_count at bytes 54..56;
/// payload_kind_bits(payload_kind_bitmap) at bytes 56..60; payload_frame_count at bytes 60..62; 0u16 at
/// bytes 62..64.
pub proof fn law_result_push_metadata_layout(recipe: SemanticVectorRecipe)
    ensures
        recipe matches SemanticVectorRecipe::ResultPushMetadata {
            status_code, result_flags, section_count, tile_count, active_profile_id, reserved0, inference_ms,
            queue_ms, server_total_ms, reserved1, tile_base_id, tile_index_bytes, result_class,
            applied_budget_policy, reused_frame_id, covered_tile_count, dropped_tile_count, payload_kind_bitmap,
            payload_frame_count, ..
        } ==> {
            let p = recipe_payload(recipe);
            &&& p.len() == 64
            &&& p.subrange(0, 2) == u16_le(status_code)
            &&& p.subrange(2, 4) == u16_le(result_flag_bits(result_flags@))
            &&& p.subrange(4, 6) == u16_le(section_count)
            &&& p.subrange(6, 8) == u16_le(tile_count)
            &&& p.subrange(8, 10) == u16_le(active_profile_id)
            &&& p.subrange(10, 12) == u16_le(reserved0)
            &&& p.subrange(12, 14) == u16_le(inference_ms)
            &&& p.subrange(14, 16) == u16_le(queue_ms)
            &&& p.subrange(16, 18) == u16_le(server_total_ms)
            &&& p.subrange(18, 20) == u16_le(reserved1)
            &&& p.subrange(20, 24) == u32_le(tile_base_id)
            &&& p.subrange(24, 28) == u32_le(tile_index_bytes)
            &&& p.subrange(28, 36) == u64_le(0u64)
            &&& p.subrange(36, 44) == u64_le(0u64)
            &&& p.subrange(44, 45) == b8(result_class.code())
            &&& p.subrange(45, 46) == b8(budget_policy_mask(applied_budget_policy@))
            &&& p.subrange(46, 48) == u16_le(0u16)
            &&& p.subrange(48, 52) == u32_le(reused_frame_id)
            &&& p.subrange(52, 54) == u16_le(covered_tile_count)
            &&& p.subrange(54, 56) == u16_le(dropped_tile_count)
            &&& p.subrange(56, 60) == u32_le(payload_kind_bits(payload_kind_bitmap@))
            &&& p.subrange(60, 62) == u16_le(payload_frame_count)
            &&& p.subrange(62, 64) == u16_le(0u16)
        },
{
    lemma_widths();
    match recipe {
        SemanticVectorRecipe::ResultPushMetadata {
            status_code, result_flags, section_count, tile_count, active_profile_id, reserved0, inference_ms,
            queue_ms, server_total_ms, reserved1, tile_base_id, tile_index_bytes, result_class,
            applied_budget_policy, reused_frame_id, covered_tile_count, dropped_tile_count, payload_kind_bitmap,
            payload_frame_count, ..
        } => {
            let p = recipe_payload(recipe);
            assert(p.subrange(0, 2) =~= u16_le(status_code));
            assert(p.subrange(2, 4) =~= u16_le(result_flag_bits(result_flags@)));
            assert(p.subrange(4, 6) =~= u16_le(section_count));
            assert(p.subrange(6, 8) =~= u16_le(tile_count));
            assert(p.subrange(8, 10) =~= u16_le(active_profile_id));
            assert(p.subrange(10, 12) =~= u16_le(reserved0));
            assert(p.subrange(12, 14) =~= u16_le(inference_ms));
            assert(p.subrange(14, 16) =~= u16_le(queue_ms));
            assert(p.subrange(16, 18) =~= u16_le(server_total_ms));
            assert(p.subrange(18, 20) =~= u16_le(reserved1));
            assert(p.subrange(20, 24) =~= u32_le(tile_base_id));
            assert(p.subrange(24, 28) =~= u32_le(tile_index_bytes));
            assert(p.subrange(28, 36) =~= u64_le(0u64));
            assert(p.subrange(36, 44) =~= u64_le(0u64));
            assert(p.subrange(44, 45) =~= b8(result_class.code()));
            assert(p.subrange(45, 46) =~= b8(budget_policy_mask(applied_budget_policy@)));
            assert(p.subrange(46, 48) =~= u16_le(0u16));
            assert(p.subrange(48, 52) =~= u32_le(reused_frame_id));
            assert(p.subrange(52, 54) =~= u16_le(covered_tile_count));
            assert(p.subrange(54, 56) =~= u16_le(dropped_tile_count));
            assert(p.subrange(56, 60) =~= u32_le(payload_kind_bits(payload_kind_bitmap@)));
            assert(p.subrange(60, 62) =~= u16_le(payload_frame_count));
            assert(p.subrange(62, 64) =~= u16_le(0u16));
        },
        _ => {},
    }
}

/// The body region prelude recipe renders 32 bytes, one field after another, each little-endian:
/// inline_object_bytes at bytes 0..4; object_reference_bytes at bytes 4..8;
/// typed_payload_descriptor_bytes at bytes 8..12; typed_payload_frame_bytes at bytes 12..16;
/// extension_descriptor_bytes at bytes 16..20; extension_payload_bytes at bytes 20..24; 0u32 at bytes
/// 24..28; 0u32 at bytes 28..32.
pub proof fn law_body_region_prelude_layout(recipe: SemanticVectorRecipe)
    ensures
        recipe matches SemanticVectorRecipe::BodyRegionPrelude {
            inline_object_bytes, object_reference_bytes, typed_payload_descriptor_bytes, typed_payload_frame_bytes,
            extension_descriptor_bytes, extension_payload_bytes, ..
        } ==> {
            let p = recipe_payload(recipe);
            &&& p.len() == 32
            &&& p.subrange(0, 4) == u32_le(inline_object_bytes)
            &&& p.subrange(4, 8) == u32_le(object_reference_bytes)
            &&& p.subrange(8, 12) == u32_le(typed_payload_descriptor_bytes)
            &&& p.subrange(12, 16) == u32_le(typed_payload_frame_bytes)
            &&& p.subrange(16, 20) == u32_le(extension_descriptor_bytes)
            &&& p.subrange(20, 24) == u32_le(extension_payload_bytes)
            &&& p.subrange(24, 28) == u32_le(0u32)
            &&& p.subrange(28, 32) == u32_le(0u32)
        },
{
    lemma_widths();
    match recipe {
        SemanticVectorRecipe::BodyRegionPrelude {
            inline_object_bytes, object_reference_bytes, typed_payload_descriptor_bytes, typed_payload_frame_bytes,
            extension_descriptor_bytes, extension_payload_bytes, ..
        } => {
            let p = recipe_payload(recipe);
            assert(p.subrange(0, 4) =~= u32_le(inline_object_bytes));
            assert(p.subrange(4, 8) =~= u32_le(object_reference_bytes));
            assert(p.subrange(8, 12) =~= u32_le(typed_payload_descriptor_bytes));
            assert(p.subrange(12, 16) =~= u32_le(typed_payload_frame_bytes));
            assert(p.subrange(16, 20) =~= u32_le(extension_descriptor_bytes));
            assert(p.subrange(20, 24) =~= u32_le(extension_payload_bytes));
            assert(p.subrange(24, 28) =~= u32_le(0u32));
            assert(p.subrange(28, 32) =~= u32_le(0u32));
        },
        _ => {},
    }
}

/// The object reference block recipe renders 16 bytes, one field after another, each little-endian:
/// object_kind.code() at bytes 0..2; ref_flags at bytes 2..4; cache_namespace at bytes 4..8;
/// cache_key_hi at bytes 8..12; cache_key_lo at bytes 12..16.
pub proof fn law_object_reference_block_layout(recipe: SemanticVectorRecipe)
    ensures
        recipe matches SemanticVectorRecipe::ObjectReferenceBlock {
            object_kind, ref_flags, cache_namespace, cache_key_hi, cache_key_lo, ..
        } ==> {
            let p = recipe_payload(recipe);
            &&& p.len() == 16
            &&& p.subrange(0, 2) == u16_le(object_kind.code())
            &&& p.subrange(2, 4) == u16_le(ref_flags)
            &&& p.subrange(4, 8) == u32_le(cache_namespace)
            &&& p.subrange(8, 12) == u32_le(cache_key_hi)
            &&& p.subrange(12, 16) == u32_le(cache_key_lo)
        },
{
    lemma_widths();
    match recipe {
        SemanticVectorRecipe::ObjectReferenceBlock {
            object_kind, ref_flags, cache_namespace, cache_key_hi, cache_key_lo, ..
        } => {
            let p = recipe_payload(recipe);
            assert(p.subrange(0, 2) =~= u16_le(object_kind.code()));
            assert(p.subrange(2, 4) =~= u16_le(ref_flags));
            assert(p.subrange(4, 8) =~= u32_le(cache_namespace));
            assert(p.subrange(8, 12) =~= u32_le(cache_key_hi));
            assert(p.subrange(12, 16) =~= u32_le(cache_key_lo));
        },
        _ => {},
    }
}

/// The typed payload descriptor recipe renders 16 bytes, one field after another, each little-endian:
/// payload_kind.code() at bytes 0..1; descriptor_flags at bytes 1..2; profile_id at bytes 2..4;
/// payload_offset at bytes 4..8; payload_length at bytes 8..12; 0u32 at bytes 12..16.
pub proof fn law_typed_payload_descriptor_layout(recipe: SemanticVectorRecipe)
    ensures
        recipe matches SemanticVectorRecipe::TypedPayloadDescriptor {
            payload_kind, descriptor_flags, profile_id, payload_offset, payload_length, ..
        } ==> {
            let p = recipe_payload(recipe);
            &&& p.len() == 16
            &&& p.subrange(0, 1) == b8(payload_kind.code())
            &&& p.subrange(1, 2) == b8(descriptor_flags)
            &&& p.subrange(2, 4) == u16_le(profile_id)
            &&& p.subrange(4, 8) == u32_le(payload_offset)
            &&& p.subrange(8, 12) == u32_le(payload_length)
            &&& p.subrange(12, 16) == u32_le(0u32)
        },
{
    lemma_widths();
    match recipe {
        SemanticVectorRecipe::TypedPayloadDescriptor {
            payload_kind, descriptor_flags, profile_id, payload_offset, payload_length, ..
        } => {
            let p = recipe_payload(recipe);
            assert(p.subrange(0, 1) =~= b8(payload_kind.code()));
            assert(p.subrange(1, 2) =~= b8(descriptor_flags));
            assert(p.subrange(2, 4) =~= u16_le(profile_id));
            assert(p.subrange(4, 8) =~= u32_le(payload_offset));
            assert(p.subrange(8, 12) =~= u32_le(payload_length));
            assert(p.subrange(12, 16) =~= u32_le(0u32));
        },
        _ => {},
    }
}

/// A fixed header is 40 bytes: the magic `NNRP`, then the major version,
/// the wire format, the message type and the header length 40, one byte
/// each; then, little-endian, the flags at bytes 8..12, the metadata length
/// at 12..16, the body length at 16..20, the session id at 20..24, the frame
/// id at 24..28, the view id at 28..30, the route id at 30..32 and the trace
/// id at 32..40.
pub proof fn law_header_layout(f: HeaderFields)
    ensures
        ({
            let p = header_bytes(f);
            &&& p.len() == 40
            &&& p.subrange(0, 4) == seq![0x4eu8, 0x4eu8, 0x52u8, 0x50u8]
            &&& p[4] == f.version_major
            &&& p[5] == f.wire_format
            &&& p[6] == f.message_type
            &&& p[7] == 40u8
            &&& p.subrange(8, 12) == u32_le(f.flags)
            &&& p.subrange(12, 16) == u32_le(f.meta_len)
            &&& p.subrange(16, 20) == u32_le(f.body_len)
            &&& p.subrange(20, 24) == u32_le(f.session_id)
            &&& p.subrange(24, 28) == u32_le(f.frame_id)
            &&& p.subrange(28, 30) == u16_le(f.view_id)
            &&& p.subrange(30, 32) == u16_le(f.route_id)
            &&& p.subrange(32, 40) == u64_le(f.trace_id)
        }),
{
    lemma_widths();
    let p = header_bytes(f);
    assert(p.subrange(0, 4) =~= seq![0x4eu8, 0x4eu8, 0x52u8, 0x50u8]);
    assert(p.subrange(8, 12) =~= u32_le(f.flags));
    assert(p.subrange(12, 16) =~= u32_le(f.meta_len));
    assert(p.subrange(16, 20) =~= u32_le(f.body_len));
    assert(p.subrange(20, 24) =~= u32_le(f.session_id));
    assert(p.subrange(24, 28) =~= u32_le(f.frame_id));
    assert(p.subrange(28, 30) =~= u16_le(f.view_id));
    assert(p.subrange(30, 32) =~= u16_le(f.route_id));
    assert(p.subrange(32, 40) =~= u64_le(f.trace_id));
}

/// A header recipe renders its fixed header from its own fields: the message
/// type's code, the OR of its flags, and its lengths and ids as given.
pub proof fn law_header_recipe_layout(recipe: SemanticVectorRecipe)
    ensures
        recipe matches SemanticVectorRecipe::Header {
            version_major, wire_format, message_type, flags, meta_len, body_len, session_id, frame_id, view_id,
            route_id, trace_id, ..
        } ==> recipe_payload(recipe) == header_bytes(
            HeaderFields {
                version_major,
                wire_format,
                message_type: message_type.code(),
                flags: header_flag_bits(flags@),
                meta_len,
                body_len,
                session_id,
                frame_id,
                view_id,
                route_id,
                trace_id,
            },
        ),
{
}

/// A flow-update packet is a 40-byte header for message type FLOW_UPDATE
/// with 32 bytes of metadata and no body (its frame and view ids zero),
/// followed by the metadata: scope kind, update reason and backpressure
/// level at bytes 40, 41 and 42, a zero byte, then little-endian the
/// connection, session and operation credits at 44..46, 46..48 and 48..50,
/// a zero word, the operation id at 52..60, the retry delay at 60..64, the
/// credit epoch at 64..68 and the flow-update flags at 68..72.
#[verifier::rlimit(40)]
pub proof fn law_flow_update_packet_layout(recipe: SemanticVectorRecipe)
    ensures
        recipe matches SemanticVectorRecipe::FlowUpdatePacket {
            version_major, wire_format, flags, session_id, route_id, trace_id, scope_kind, update_reason,
            backpressure_level, connection_credit, session_credit, operation_credit, operation_id, retry_after_ms,
            credit_epoch, flow_update_flags, ..
        } ==> {
            let p = recipe_payload(recipe);
            &&& p.len() == 72
            &&& p.subrange(0, 40) == header_bytes(
                HeaderFields {
                    version_major,
                    wire_format,
                    message_type: MessageTypeName::FlowUpdate.code(),
                    flags: header_flag_bits(flags@),
                    meta_len: 32,
                    body_len: 0,
                    session_id,
                    frame_id: 0,
                    view_id: 0,
                    route_id,
                    trace_id,
                },
            )
            &&& p[40] == scope_kind.code()
            &&& p[41] == update_reason.code()
            &&& p[42] == backpressure_level.code()
            &&& p[43] == 0u8
            &&& p.subrange(44, 46) == u16_le(connection_credit)
            &&& p.subrange(46, 48) == u16_le(session_credit)
            &&& p.subrange(48, 50) == u16_le(operation_credit)
            &&& p.subrange(50, 52) == u16_le(0u16)
            &&& p.subrange(52, 60) == u64_le(operation_id)
            &&& p.subrange(60, 64) == u32_le(retry_after_ms)
            &&& p.subrange(64, 68) == u32_le(credit_epoch)
            &&& p.subrange(68, 72) == u32_le(flow_update_flag_bits(flow_update_flags@))
        },
{
    lemma_widths();
    match recipe {
        SemanticVectorRecipe::FlowUpdatePacket {
            version_major, wire_format, flags, session_id, route_id, trace_id, scope_kind, update_reason,
            backpressure_level, connection_credit, session_credit, operation_credit, operation_id, retry_after_ms,
            credit_epoch, flow_update_flags, ..
        } => {
            let m = Seq::<u8>::empty() + b8(scope_kind.code()) + b8(update_reason.code()) + b8(backpressure_level.code())
                + b8(0u8) + u16_le(connection_credit) + u16_le(session_credit) + u16_le(operation_credit) + u16_le(0u16)
                + u64_le(operation_id) + u32_le(retry_after_ms) + u32_le(credit_epoch) + u32_le(
                flow_update_flag_bits(flow_update_flags@),
            );
            assert(u16_le(connection_credit).len() == 2 && u16_le(session_credit).len() == 2);
            assert(u16_le(operation_credit).len() == 2 && u16_le(0u16).len() == 2);
            assert(u64_le(operation_id).len() == 8 && u32_le(retry_after_ms).len() == 4);
            assert(u32_le(credit_epoch).len() == 4 && u32_le(flow_update_flag_bits(flow_update_flags@)).len() == 4);
            assert(b8(scope_kind.code()).len() == 1 && b8(update_reason.code()).len() == 1);
            assert(b8(backpressure_level.code()).len() == 1 && b8(0u8).len() == 1);
            assert(m.len() == 32);
            let h = header_bytes(
                HeaderFields {
                    version_major,
                    wire_format,
                    message_type: MessageTypeName::FlowUpdate.code(),
                    flags: header_flag_bits(flags@),
                    meta_len: 32,
                    body_len: 0,
                    session_id,
                    frame_id: 0,
                    view_id: 0,
                    route_id,
                    trace_id,
                },
            );
            let p = recipe_payload(recipe);
            assert(h.len() == 40);
            assert(p =~= h + m);
            assert(p.subrange(0, 40) =~= h);
            assert(p.subrange(44, 46) =~= u16_le(connection_credit));
            assert(p.subrange(46, 48) =~= u16_le(session_credit));
            assert(p.subrange(48, 50) =~= u16_le(operation_credit));
            assert(p.subrange(50, 52) =~= u16_le(0u16));
            assert(p.subrange(52, 60) =~= u64_le(operation_id));
            assert(p.subrange(60, 64) =~= u32_le(retry_after_ms));
            assert(p.subrange(64, 68) =~= u32_le(credit_epoch));
            assert(p.subrange(68, 72) =~= u32_le(flow_update_flag_bits(flow_update_flags@)));
        },
        _ => {},
    }
}

/// A result-hint packet is a 40-byte header for message type RESULT_HINT
/// with 16 bytes of metadata and no body (its view id zero), followed,
/// little-endian, by the applied budget policy at bytes 40..44, the
/// congestion state at 44..48, the reason at 48..52 and the retry delay at
/// 52..56.
#[verifier::rlimit(40)]
pub proof fn law_result_hint_packet_layout(recipe: SemanticVectorRecipe)
    ensures
        recipe matches SemanticVectorRecipe::ResultHintPacket {
            version_major, wire_format, flags, session_id, frame_id, route_id, trace_id, applied_budget_policy,
            congestion_state, reason, retry_after_ms, ..
        } ==> {
            let p = recipe_payload(recipe);
            &&& p.len() == 56
            &&& p.subrange(0, 40) == header_bytes(
                HeaderFields {
                    version_major,
                    wire_format,
                    message_type: MessageTypeName::ResultHint.code(),
                    flags: header_flag_bits(flags@),
                    meta_len: 16,
                    body_len: 0,
                    session_id,
                    frame_id,
                    view_id: 0,
                    route_id,
                    trace_id,
                },
            )
            &&& p.subrange(40, 44) == u32_le(applied_budget_policy.code())
            &&& p.subrange(44, 48) == u32_le(congestion_state.code())
            &&& p.subrange(48, 52) == u32_le(reason.code())
            &&& p.subrange(52, 56) == u32_le(retry_after_ms)
        },
{
    lemma_widths();
    match recipe {
        SemanticVectorRecipe::ResultHintPacket {
            version_major, wire_format, flags, session_id, frame_id, route_id, trace_id, applied_budget_policy,
            congestion_state, reason, retry_after_ms, ..
        } => {
            let m = Seq::<u8>::empty() + u32_le(applied_budget_policy.code()) + u32_le(congestion_state.code())
                + u32_le(reason.code()) + u32_le(retry_after_ms);
            assert(m.len() == 16);
            let h = header_bytes(
                HeaderFields {
                    version_major,
                    wire_format,
                    message_type: MessageTypeName::ResultHint.code(),
                    flags: header_flag_bits(flags@),
                    meta_len: 16,
                    body_len: 0,
                    session_id,
                    frame_id,
                    view_id: 0,
                    route_id,
                    trace_id,
                },
            );
            let p = recipe_payload(recipe);
            assert(h.len() == 40);
            assert(p =~= h + m);
            assert(p.subrange(0, 40) =~= h);
            assert(p.subrange(40, 44) =~= u32_le(applied_budget_policy.code()));
            assert(p.subrange(44, 48) =~= u32_le(congestion_state.code()));
            assert(p.subrange(48, 52) =~= u32_le(reason.code()));
            assert(p.subrange(52, 56) =~= u32_le(retry_after_ms));
        },
        _ => {},
    }
}

/// A 32-bit value recipe renders the value as four little-endian bytes.
pub proof fn law_u32_value_layout(recipe: SemanticVectorRecipe)
    ensures
        recipe matches SemanticVectorRecipe::U32Value { value, .. } ==> recipe_payload(recipe) == u32_le(value),
{
    match recipe {
        SemanticVectorRecipe::U32Value { value, .. } => {
            assert(Seq::<u8>::empty() + u32_le(value) =~= u32_le(value));
        },
        _ => {},
    }
}

/// The wire code of each message type name, as the protocol fixes it.
pub proof fn law_message_type_codes()
    ensures
        MessageTypeName::ClientHello.code() == 0x01,
        MessageTypeName::SessionPatchAck.code() == 0x04,
        MessageTypeName::FlowUpdate.code() == 0x17,
        MessageTypeName::ResultHint.code() == 0x18,
        MessageTypeName::FrameSubmit.code() == 0x10,
        MessageTypeName::ResultPush.code() == 0x12,
{
}

/// The wire code of each header flag name, as the protocol fixes it.
pub proof fn law_header_flag_codes()
    ensures
        HeaderFlagName::AckRequired.code() == 0x00000001,
        HeaderFlagName::CanDrop.code() == 0x00000002,
        HeaderFlagName::Stale.code() == 0x00000004,
        HeaderFlagName::Eos.code() == 0x00000008,
        HeaderFlagName::Retransmit.code() == 0x00000010,
        HeaderFlagName::Keyframe.code() == 0x00000020,
{
}

/// The wire code of each payload kind name, as the protocol fixes it.
pub proof fn law_payload_kind_codes()
    ensures
        PayloadKindName::Tensor.code() == 0x01,
        PayloadKindName::TokenChunk.code() == 0x02,
        PayloadKindName::AudioChunk.code() == 0x04,
        PayloadKindName::VideoChunk.code() == 0x08,
        PayloadKindName::StructuredEvent.code() == 0x10,
        PayloadKindName::ToolDelta.code() == 0x20,
        PayloadKindName::OpaqueBytes.code() == 0x40,
{
}

/// The wire code of each session patch field name, as the protocol fixes it.
pub proof fn law_session_patch_field_codes()
    ensures
        SessionPatchFieldName::TargetCadence.code() == 0x00000001,
        SessionPatchFieldName::QualityTier.code() == 0x00000002,
        SessionPatchFieldName::DegradePolicy.code() == 0x00000004,
        SessionPatchFieldName::ActiveLaneMask.code() == 0x00000008,
        SessionPatchFieldName::PreferredCodec.code() == 0x00000010,
        SessionPatchFieldName::PreferredCompression.code() == 0x00000020,
        SessionPatchFieldName::ProfilePatch.code() == 0x00000040,
{
}

/// The wire code of each session patch ack status name, as the protocol fixes it.
pub proof fn law_session_patch_ack_status_codes()
    ensures
        SessionPatchAckStatusName::Accepted.code() == 0,
        SessionPatchAckStatusName::PartiallyApplied.code() == 1,
        SessionPatchAckStatusName::Rejected.code() == 2,
{
}

/// The wire code of each session patch reject reason name, as the protocol fixes it.
pub proof fn law_session_patch_reject_reason_codes()
    ensures
        SessionPatchRejectReasonName::Absent.code() == 0,
        SessionPatchRejectReasonName::UnsupportedField.code() == 1,
        SessionPatchRejectReasonName::InvalidRange.code() == 2,
        SessionPatchRejectReasonName::UnsupportedStrategy.code() == 3,
        SessionPatchRejectReasonName::InvalidLaneMask.code() == 4,
        SessionPatchRejectReasonName::RateLimited.code() == 5,
{
}

/// The wire code of each flow update scope kind name, as the protocol fixes it.
pub proof fn law_flow_update_scope_kind_codes()
    ensures
        FlowUpdateScopeKindName::Connection.code() == 0,
        FlowUpdateScopeKindName::Session.code() == 1,
        FlowUpdateScopeKindName::Operation.code() == 2,
{
}

/// The wire code of each flow update reason name, as the protocol fixes it.
pub proof fn law_flow_update_reason_codes()
    ensures
        FlowUpdateReasonName::Grant.code() == 0,
        FlowUpdateReasonName::Reduce.code() == 1,
        FlowUpdateReasonName::Pause.code() == 2,
        FlowUpdateReasonName::Resume.code() == 3,
        FlowUpdateReasonName::Congestion.code() == 4,
{
}

/// The wire code of each flow update backpressure level name, as the protocol fixes it.
pub proof fn law_flow_update_backpressure_level_codes()
    ensures
        FlowUpdateBackpressureLevelName::Absent.code() == 0,
        FlowUpdateBackpressureLevelName::Soft.code() == 1,
        FlowUpdateBackpressureLevelName::Hard.code() == 2,
{
}

/// The wire code of each flow update flag name, as the protocol fixes it.
pub proof fn law_flow_update_flag_codes()
    ensures
        FlowUpdateFlagName::CreditValid.code() == 0x00000001,
        FlowUpdateFlagName::RetryAfterValid.code() == 0x00000002,
        FlowUpdateFlagName::BackgroundOnly.code() == 0x00000004,
        FlowUpdateFlagName::DrainInFlightOnly.code() == 0x00000008,
{
}

/// The wire code of each session priority class name, as the protocol fixes it.
pub proof fn law_session_priority_class_codes()
    ensures
        SessionPriorityClassName::Interactive.code() == 0,
        SessionPriorityClassName::Balanced.code() == 1,
        SessionPriorityClassName::Background.code() == 2,
{
}

/// The wire code of each session status name, as the protocol fixes it.
pub proof fn law_session_status_codes()
    ensures
        SessionStatusName::Opened.code() == 0,
        SessionStatusName::Rejected.code() == 1,
        SessionStatusName::RetryLater.code() == 2,
        SessionStatusName::Resumed.code() == 3,
{
}

/// The wire code of each session close reason name, as the protocol fixes it.
pub proof fn law_session_close_reason_codes()
    ensures
        SessionCloseReasonName::Normal.code() == 0,
        SessionCloseReasonName::ClientShutdown.code() == 1,
        SessionCloseReasonName::ServerShutdown.code() == 2,
        SessionCloseReasonName::IdleTimeout.code() == 3,
        SessionCloseReasonName::ProtocolError.code() == 4,
        SessionCloseReasonName::AuthRevoked.code() == 5,
{
}

/// The wire code of each in flight policy name, as the protocol fixes it.
pub proof fn law_in_flight_policy_codes()
    ensures
        InFlightPolicyName::Drain.code() == 0,
        InFlightPolicyName::Abort.code() == 1,
{
}

/// The wire code of each session close status name, as the protocol fixes it.
pub proof fn law_session_close_status_codes()
    ensures
        SessionCloseStatusName::Acknowledged.code() == 0,
        SessionCloseStatusName::Draining.code() == 1,
        SessionCloseStatusName::Closed.code() == 2,
        SessionCloseStatusName::Rejected.code() == 3,
{
}

/// The wire code of each result hint budget policy name, as the protocol fixes it.
pub proof fn law_result_hint_budget_policy_codes()
    ensures
        ResultHintBudgetPolicyName::Absent.code() == 0,
        ResultHintBudgetPolicyName::Full.code() == 1,
        ResultHintBudgetPolicyName::Partial.code() == 2,
        ResultHintBudgetPolicyName::StaleReuse.code() == 3,
        ResultHintBudgetPolicyName::Drop.code() == 4,
{
}

/// The wire code of each result hint congestion state name, as the protocol fixes it.
pub proof fn law_result_hint_congestion_state_codes()
    ensures
        ResultHintCongestionStateName::Absent.code() == 0,
        ResultHintCongestionStateName::Steady.code() == 1,
        ResultHintCongestionStateName::Elevated.code() == 2,
        ResultHintCongestionStateName::Saturated.code() == 3,
{
}

/// The wire code of each result hint reason name, as the protocol fixes it.
pub proof fn law_result_hint_reason_codes()
    ensures
        ResultHintReasonName::Absent.code() == 0,
        ResultHintReasonName::QueueFull.code() == 1,
        ResultHintReasonName::ServerBusy.code() == 2,
        ResultHintReasonName::BudgetExceeded.code() == 3,
        ResultHintReasonName::Superseded.code() == 4,
{
}

/// The wire code of each cache object kind name, as the protocol fixes it.
pub proof fn law_cache_object_kind_codes()
    ensures
        CacheObjectKindName::CameraBlock.code() == 0x0001,
        CacheObjectKindName::TileIndexBlock.code() == 0x0002,
        CacheObjectKindName::TensorSectionTable.code() == 0x0003,
        CacheObjectKindName::CodecTable.code() == 0x0004,
        CacheObjectKindName::ReusableResultObject.code() == 0x0005,
        CacheObjectKindName::PayloadLayoutTemplate.code() == 0x0006,
        CacheObjectKindName::PromptSegment.code() == 0x0007,
        CacheObjectKindName::ToolSchema.code() == 0x0008,
        CacheObjectKindName::StructuredEventSchema.code() == 0x0009,
{
}

/// The wire code of each input profile name, as the protocol fixes it.
pub proof fn law_input_profile_codes()
    ensures
        InputProfileName::Unspecified.code() == 0,
        InputProfileName::ChangedTilesLuma.code() == 1,
        InputProfileName::DenseLumaFrame.code() == 2,
{
}

/// The wire code of each tile index mode name, as the protocol fixes it.
pub proof fn law_tile_index_mode_codes()
    ensures
        TileIndexModeName::DenseRange.code() == 0,
        TileIndexModeName::RawU16.code() == 1,
        TileIndexModeName::DeltaU16.code() == 2,
        TileIndexModeName::Bitset.code() == 3,
{
}

/// The wire code of each submit mode name, as the protocol fixes it.
pub proof fn law_submit_mode_codes()
    ensures
        SubmitModeName::Inline.code() == 0,
        SubmitModeName::Reference.code() == 1,
        SubmitModeName::Mixed.code() == 2,
{
}

/// The wire code of each budget policy name, as the protocol fixes it.
pub proof fn law_budget_policy_codes()
    ensures
        BudgetPolicyName::Partial.code() == 0x01,
        BudgetPolicyName::StaleReuse.code() == 0x02,
        BudgetPolicyName::Degraded.code() == 0x04,
        BudgetPolicyName::Drop.code() == 0x08,
{
}

/// The wire code of each loss tolerance policy name, as the protocol fixes it.
pub proof fn law_loss_tolerance_policy_codes()
    ensures
        LossTolerancePolicyName::Strict.code() == 0,
        LossTolerancePolicyName::BestEffort.code() == 1,
        LossTolerancePolicyName::LowLatency.code() == 2,
        LossTolerancePolicyName::FireAndForget.code() == 3,
        LossTolerancePolicyName::InheritSession.code() == 0xff,
{
}

/// The wire code of each result flag name, as the protocol fixes it.
pub proof fn law_result_flag_codes()
    ensures
        ResultFlagName::Stale.code() == 0x0001,
        ResultFlagName::Fallback.code() == 0x0002,
        ResultFlagName::Partial.code() == 0x0004,
{
}

/// The wire code of each result class name, as the protocol fixes it.
pub proof fn law_result_class_codes()
    ensures
        ResultClassName::Complete.code() == 0,
        ResultClassName::Partial.code() == 1,
        ResultClassName::StaleReuse.code() == 2,
        ResultClassName::Degraded.code() == 3,
{
}

/// A typed payload descriptor is 16 bytes: the payload kind's code at byte
/// 0, a zero byte, then little-endian the profile id at 2..4, the payload's
/// offset at 4..8, the UTF-8 length of its payload at 8..12 and a zero word
/// at 12..16.
pub proof fn law_descriptor_layout(frame: TypedPayloadFrameRecipe, offset: u32)
    ensures
        ({
            let p = descriptor_bytes(frame, offset);
            &&& p.len() == 16
            &&& p[0] == frame.payload_kind.code()
            &&& p[1] == 0u8
            &&& p.subrange(2, 4) == u16_le(frame.profile_id)
            &&& p.subrange(4, 8) == u32_le(offset)
            &&& p.subrange(8, 12) == u32_le(encode_utf8(frame.payload_utf8@).len() as u32)
            &&& p.subrange(12, 16) == u32_le(0u32)
        }),
{
    lemma_widths();
    let p = descriptor_bytes(frame, offset);
    assert(p.subrange(2, 4) =~= u16_le(frame.profile_id));
    assert(p.subrange(4, 8) =~= u32_le(offset));
    assert(p.subrange(8, 12) =~= u32_le(encode_utf8(frame.payload_utf8@).len() as u32));
    assert(p.subrange(12, 16) =~= u32_le(0u32));
}

/// Hexadecimal digits are written in lower case: `0`-`9`, then `a`-`f`.
pub proof fn law_hex_digits()
    ensures
        hex_digit(0) == '0',
        hex_digit(1) == '1',
        hex_digit(2) == '2',
        hex_digit(3) == '3',
        hex_digit(4) == '4',
        hex_digit(5) == '5',
        hex_digit(6) == '6',
        hex_digit(7) == '7',
        hex_digit(8) == '8',
        hex_digit(9) == '9',
        hex_digit(10) == 'a',
        hex_digit(11) == 'b',
        hex_digit(12) == 'c',
        hex_digit(13) == 'd',
        hex_digit(14) == 'e',
        hex_digit(15) == 'f',
{
}

/// Multi-byte values are written little-endian: the first byte is the
/// value modulo 256, and each next byte is taken the same way from what is
/// left after dividing by 256.
pub proof fn law_little_endian(a: u16, b: u32, c: u64)
    ensures
        u16_le(a) == seq![
            (a as nat % 256) as u8,
            ((a as nat / 256) % 256) as u8,
        ],
        u32_le(b) == seq![
            (b as nat % 256) as u8,
            ((b as nat / 256) % 256) as u8,
            (((b as nat / 256) / 256) % 256) as u8,
            ((((b as nat / 256) / 256) / 256) % 256) as u8,
        ],
        u64_le(c) == seq![
            (c as nat % 256) as u8,
            ((c as nat / 256) % 256) as u8,
            (((c as nat / 256) / 256) % 256) as u8,
            ((((c as nat / 256) / 256) / 256) % 256) as u8,
            (((((c as nat / 256) / 256) / 256) / 256) % 256) as u8,
            ((((((c as nat / 256) / 256) / 256) / 256) / 256) % 256) as u8,
            (((((((c as nat / 256) / 256) / 256) / 256) / 256) / 256) % 256) as u8,
            ((((((((c as nat / 256) / 256) / 256) / 256) / 256) / 256) / 256) % 256) as u8,
        ],
{
    reveal_with_fuel(crate::wire_bytes::le_bytes, 9);
    assert(u16_le(a) =~= seq![
            (a as nat % 256) as u8,
            ((a as nat / 256) % 256) as u8,
        ]);
    assert(u32_le(b) =~= seq![
            (b as nat % 256) as u8,
            ((b as nat / 256) % 256) as u8,
            (((b as nat / 256) / 256) % 256) as u8,
            ((((b as nat / 256) / 256) / 256) % 256) as u8,
        ]);
    assert(u64_le(c) =~= seq![
            (c as nat % 256) as u8,
            ((c as nat / 256) % 256) as u8,
            (((c as nat / 256) / 256) % 256) as u8,
            ((((c as nat / 256) / 256) / 256) % 256) as u8,
            (((((c as nat / 256) / 256) / 256) / 256) % 256) as u8,
            ((((((c as nat / 256) / 256) / 256) / 256) / 256) % 256) as u8,
            (((((((c as nat / 256) / 256) / 256) / 256) / 256) / 256) % 256) as u8,
            ((((((((c as nat / 256) / 256) / 256) / 256) / 256) / 256) / 256) % 256) as u8,
        ]);
}

} // verus!
