use vstd::prelude::*;

use crate::fixtures::FixtureError;
use crate::semantic_vectors::{
    SemanticVectorRecipe, recipe_description, recipe_fits, recipe_fits_descriptors, recipe_kind, recipe_name,
    recipe_payload, render_recipe,
};
use crate::text::{is_blank, is_blank_str, opt_string_eq, opt_view};
use crate::wire_bytes::{encode_hex, hex_of};

verus! {

/// A checked-in list of golden byte vectors.
#[derive(Debug, Clone, PartialEq, Eq)]
pub struct VectorManifest {
    pub schema: Option<String>,
    pub protocol_version: String,
    pub generator: Option<String>,
    pub generated_from: Option<String>,
    pub vectors: Vec<GoldenVector>,
}

/// One named byte vector, as hexadecimal text and its length.
#[derive(Debug, Clone, PartialEq, Eq)]
pub struct GoldenVector {
    pub name: String,
    pub kind: String,
    pub hex: String,
    pub bytes: usize,
    pub description: String,
}

/// The recipes from which a vector manifest is rendered.
#[derive(Debug, Clone, PartialEq, Eq)]
pub struct SemanticVectorManifest {
    pub schema: Option<String>,
    pub protocol_version: String,
    pub vectors: Vec<SemanticVectorRecipe>,
}

/// The text content of a golden vector.
pub struct GoldenVectorView {
    pub name: Seq<char>,
    pub kind: Seq<char>,
    pub hex: Seq<char>,
    pub bytes: usize,
    pub description: Seq<char>,
}

/// The text content of a vector manifest.
pub struct VectorManifestView {
    pub schema: Option<Seq<char>>,
    pub protocol_version: Seq<char>,
    pub generator: Option<Seq<char>>,
    pub generated_from: Option<Seq<char>>,
    pub vectors: Seq<GoldenVectorView>,
}

impl View for GoldenVector {
    type V = GoldenVectorView;

    open spec fn view(&self) -> GoldenVectorView {
        GoldenVectorView {
            name: self.name@,
            kind: self.kind@,
            hex: self.hex@,
            bytes: self.bytes,
            description: self.description@,
        }
    }
}

impl View for VectorManifest {
    type V = VectorManifestView;

    open spec fn view(&self) -> VectorManifestView {
        VectorManifestView {
            schema: opt_view(self.schema),
            protocol_version: self.protocol_version@,
            generator: opt_view(self.generator),
            generated_from: opt_view(self.generated_from),
            vectors: self.vectors@.map_values(|v: GoldenVector| v@),
        }
    }
}

/// The golden vector a recipe renders to.
pub open spec fn golden_vector_of(recipe: SemanticVectorRecipe) -> GoldenVectorView {
    GoldenVectorView {
        name: recipe_name(recipe),
        kind: recipe_kind(recipe),
        hex: hex_of(recipe_payload(recipe)),
        bytes: recipe_payload(recipe).len() as usize,
        description: recipe_description(recipe),
    }
}

/// The vector manifest that a semantic manifest renders to, naming where its
/// recipes came from.
pub open spec fn vector_manifest_for(
    semantic_manifest: SemanticVectorManifest,
    generated_from: Seq<char>,
) -> VectorManifestView {
    VectorManifestView {
        schema: Some("../../schemas/vector-manifest.schema.json"@),
        protocol_version: semantic_manifest.protocol_version@,
        generator: Some("nnrp-conformance semantic vector generator"@),
        generated_from: Some(generated_from),
        vectors: semantic_manifest.vectors@.map_values(|r: SemanticVectorRecipe| golden_vector_of(r)),
    }
}

/// Every recipe of the manifest fits the descriptor fields.
pub open spec fn manifest_fits(semantic_manifest: SemanticVectorManifest) -> bool {
    forall|i: int| 0 <= i < semantic_manifest.vectors@.len() ==> recipe_fits(#[trigger] semantic_manifest.vectors@[i])
}

/// Whether every recipe of the manifest fits the descriptor fields.
pub fn manifest_fits_descriptors(semantic_manifest: &SemanticVectorManifest) -> (fits: bool)
    ensures
        fits == manifest_fits(*semantic_manifest),
{
    let mut i: usize = 0;
    while i < semantic_manifest.vectors.len()
        invariant
            i <= semantic_manifest.vectors@.len(),
            forall|k: int| 0 <= k < i ==> recipe_fits(#[trigger] semantic_manifest.vectors@[k]),
        decreases semantic_manifest.vectors@.len() - i,
    {
        if !recipe_fits_descriptors(&semantic_manifest.vectors[i]) {
            return false;
        }
        i = i + 1;
    }
    true
}

/// Renders every recipe of a semantic manifest into a golden vector.
pub fn build_vector_manifest(
    semantic_manifest: &SemanticVectorManifest,
    generated_from: &str,
) -> (result: Result<VectorManifest, FixtureError>)
    requires
        manifest_fits(*semantic_manifest),
    ensures
        is_blank(semantic_manifest.protocol_version@) ==> (result matches Err(e) && e.is_validation(
            "semantic vector manifest must declare a protocol_version"@,
        )),
        !is_blank(semantic_manifest.protocol_version@) ==> (result matches Ok(m) && m@ == vector_manifest_for(
            *semantic_manifest,
            generated_from@,
        )),
{
    if is_blank_str(semantic_manifest.protocol_version.as_str()) {
        let message = "semantic vector manifest must declare a protocol_version".to_owned();
        return Err(FixtureError::Validation { message });
    }
    let mut vectors: Vec<GoldenVector> = Vec::new();
    let mut i: usize = 0;
    while i < semantic_manifest.vectors.len()
        invariant
            i <= semantic_manifest.vectors@.len(),
            manifest_fits(*semantic_manifest),
            vectors@.map_values(|v: GoldenVector| v@) =~= semantic_manifest.vectors@.take(i as int).map_values(
                |r: SemanticVectorRecipe| golden_vector_of(r),
            ),
        decreases semantic_manifest.vectors@.len() - i,
    {
        let recipe = &semantic_manifest.vectors[i];
        let rendered = render_recipe(recipe);
        match rendered {
            Ok((name, kind, description, payload)) => {
                let hex = encode_hex(payload.as_slice());
                let vector = GoldenVector { name, kind, hex, bytes: payload.len(), description };
                assert(vector@ == golden_vector_of(*recipe));
                let ghost before = vectors@;
                vectors.push(vector);
                assert(vectors@.map_values(|v: GoldenVector| v@) =~= before.map_values(|v: GoldenVector| v@).push(vector@));
            },
            Err(e) => {
                return Err(e);
            },
        }
        assert(semantic_manifest.vectors@.take(i + 1).map_values(|r: SemanticVectorRecipe| golden_vector_of(r))
            =~= semantic_manifest.vectors@.take(i as int).map_values(|r: SemanticVectorRecipe| golden_vector_of(r)).push(
            golden_vector_of(semantic_manifest.vectors@[i as int])));
        i = i + 1;
    }
    assert(semantic_manifest.vectors@.take(i as int) =~= semantic_manifest.vectors@);
    let schema = "../../schemas/vector-manifest.schema.json".to_owned();
    let generator = "nnrp-conformance semantic vector generator".to_owned();
    Ok(VectorManifest {
        schema: Some(schema),
        protocol_version: semantic_manifest.protocol_version.clone(),
        generator: Some(generator),
        generated_from: Some(generated_from.to_owned()),
        vectors,
    })
}

fn golden_vector_eq(a: &GoldenVector, b: &GoldenVector) -> (equal: bool)
    ensures
        equal == (a@ == b@),
{
    a.name == b.name && a.kind == b.kind && a.hex == b.hex && a.bytes == b.bytes
        && a.description == b.description
}

/// Compares two vector manifests field by field.
pub fn vector_manifests_equal(a: &VectorManifest, b: &VectorManifest) -> (equal: bool)
    ensures
        equal == (a@ == b@),
{
    if !opt_string_eq(&a.schema, &b.schema) || a.protocol_version != b.protocol_version
        || !opt_string_eq(&a.generator, &b.generator)
        || !opt_string_eq(&a.generated_from, &b.generated_from)
        || a.vectors.len() != b.vectors.len() {
        proof {
            if a.vectors.len() != b.vectors.len() {
                assert(a@.vectors.len() != b@.vectors.len());
            }
        }
        return false;
    }
    let mut i: usize = 0;
    while i < a.vectors.len()
        invariant
            i <= a.vectors@.len(),
            a.vectors@.len() == b.vectors@.len(),
            forall|j: int| 0 <= j < i ==> a.vectors@[j]@ == #[trigger] b.vectors@[j]@,
        decreases a.vectors@.len() - i,
    {
        if !golden_vector_eq(&a.vectors[i], &b.vectors[i]) {
            assert(a@.vectors[i as int] != b@.vectors[i as int]);
            return false;
        }
        i = i + 1;
    }
    assert(a@.vectors =~= b@.vectors);
    true
}

/// Checks that a checked-in vector manifest is exactly what the recipes
/// render to.
pub fn verify_vector_manifest(
    semantic_manifest: &SemanticVectorManifest,
    checked_in_manifest: &VectorManifest,
    generated_from: &str,
) -> (result: Result<(), FixtureError>)
    requires
        manifest_fits(*semantic_manifest),
    ensures
        is_blank(semantic_manifest.protocol_version@) ==> (result matches Err(e) && e.is_validation(
            "semantic vector manifest must declare a protocol_version"@,
        )),
        !is_blank(semantic_manifest.protocol_version@) ==> (
            (result is Ok <==> checked_in_manifest@ == vector_manifest_for(*semantic_manifest, generated_from@))
            && (result matches Err(e) ==> e.is_validation("vector manifest does not match the semantic recipes"@))),
{
    let generated = build_vector_manifest(semantic_manifest, generated_from)?;
    if !vector_manifests_equal(&generated, checked_in_manifest) {
        let message = "vector manifest does not match the semantic recipes".to_owned();
        return Err(FixtureError::Validation { message });
    }
    Ok(())
}

} // verus!
