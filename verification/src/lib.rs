use vstd::prelude::*;

pub mod api_profile;
pub mod benchmarks;
pub mod bit_sets;
pub mod capability_checks;
pub mod execution;
pub mod fixtures;
pub mod host_evidence;
pub mod host_route;
pub mod host_run;
pub mod json_model;
pub mod json_text;
pub mod layout_laws;
pub mod laws;
pub mod plan;
pub mod profile_body;
pub mod profile_checks;
pub mod reference_target;
pub mod results;
pub mod route_laws;
pub mod semantic_vectors;
pub mod sorted_text;
pub mod text;
pub mod validation_laws;
pub mod vector_compare;
pub mod wire_copies;
pub mod wire_evidence;
pub mod wire_frames;
pub mod wire_lists;
pub mod wire_names;
pub mod wire_plan;
pub mod wire_result_laws;
pub mod wire_results;
pub mod wire_run;
pub mod vector_laws;
pub mod vector_manifest;
pub mod wire_bytes;

verus! {

} // verus!
