//! Context packages: what a generation gets to see of the project for one
//! artifact — the artifact, the design language it cites, the selection in
//! it, and what the result will be checked for.

use vstd::prelude::*;
use crate::mp4::verdict::lit;
use crate::project::design::{cited, selected_design_assets, views};
use crate::project::generate::{artifact_position, copy_artifact, find_artifact, same_artifact, unknown_artifact_message};
use crate::project::model::{ArtifactKind, ArtifactRefV1, ContextBuildRequest, DesignLanguageManifestV1, DesignLanguageSummaryV1};
use crate::text::texts;
use crate::project::queue::{copy_opt, opt_view};
use crate::project::selection::{build_selection_context, is_selection_for, SelectionContextV1};

verus! {

/// A context package (`capy.context.v1`).
pub struct ContextPackageV1 {
    pub schema_version: String,
    pub context_id: String,
    pub project_id: String,
    pub artifact_id: String,
    pub artifact_kind: ArtifactKind,
    pub source_path: String,
    pub selector: Option<String>,
    pub canvas_node: Option<String>,
    pub selection_context: Option<SelectionContextV1>,
    pub artifact: ArtifactRefV1,
    pub design_language_ref: String,
    pub design_language_summary: DesignLanguageSummaryV1,
    pub design_language_refs: Vec<crate::project::model::DesignLanguageAssetV1>,
    pub verification_requirements: Vec<String>,
    pub generated_at: u64,
}

/// What every context package asks of the work done with it.
pub open spec fn context_requirements() -> Seq<Seq<char>> {
    seq!["Run a visible preview check after patching."@, "Save screenshot/state evidence for PM review."@]
}

/// The context package for the artifact a request names, or the error
/// when the registry has no artifact with that id. `source` is the
/// artifact's source text (used only for a selector or JSON pointer),
/// `context_id` the package's fresh id.
pub fn build_context(
    project_id: &str,
    request: &ContextBuildRequest,
    artifacts: &[ArtifactRefV1],
    design_language: &DesignLanguageManifestV1,
    design_language_summary: DesignLanguageSummaryV1,
    source: &str,
    context_id: String,
    generated_at: u64,
) -> (r: Result<ContextPackageV1, String>)
    ensures
        match artifact_position(artifacts@, request.artifact_id@, artifacts@.len() as int) {
            None => r matches Err(m) && m@ == unknown_artifact_message(request.artifact_id@),
            Some(i) => r matches Ok(c) && {
                let a = artifacts@[i];
                &&& c.schema_version@ == "capy.context.v1"@
                &&& c.context_id@ == context_id@
                &&& c.project_id@ == project_id@
                &&& c.artifact_id@ == a.id@
                &&& c.artifact_kind == a.kind
                &&& c.source_path@ == a.source_path@
                &&& opt_view(c.selector) == opt_view(request.selector)
                &&& opt_view(c.canvas_node) == opt_view(request.canvas_node)
                &&& is_selection_for(c.selection_context, a.id@, a.kind, a.source_path@, *request, source@)
                &&& same_artifact(c.artifact, a)
                &&& c.design_language_ref@ == design_language_summary.design_language_ref@
                &&& c.design_language_summary == design_language_summary
                &&& (a.design_language_refs@.len() == 0 ==> views(c.design_language_refs@) == views(design_language.assets@))
                &&& (a.design_language_refs@.len() > 0 ==> views(c.design_language_refs@) == cited(
                    design_language.assets@,
                    a.design_language_refs@,
                ))
                &&& texts(c.verification_requirements@) == context_requirements()
                &&& c.generated_at == generated_at
            },
        },
{
    let i = match find_artifact(artifacts, request.artifact_id.as_str()) {
        Some(i) => i,
        None => {
            let mut m = lit("unknown artifact id: ");
            m.append(request.artifact_id.as_str());
            return Err(m);
        },
    };
    let a = &artifacts[i];
    let design_refs = selected_design_assets(design_language, a.design_language_refs.as_slice());
    let selection = build_selection_context(a.id.as_str(), &a.kind, a.source_path.as_str(), request, source);
    let mut requirements: Vec<String> = Vec::new();
    requirements.push(lit("Run a visible preview check after patching."));
    requirements.push(lit("Save screenshot/state evidence for PM review."));
    proof {
        assert(texts(requirements@) =~= context_requirements());
    }
    let reference = lit(design_language_summary.design_language_ref.as_str());
    Ok(ContextPackageV1 {
        schema_version: lit("capy.context.v1"),
        context_id,
        project_id: lit(project_id),
        artifact_id: lit(a.id.as_str()),
        artifact_kind: a.kind,
        source_path: lit(a.source_path.as_str()),
        selector: copy_opt(&request.selector),
        canvas_node: copy_opt(&request.canvas_node),
        selection_context: selection,
        artifact: copy_artifact(a),
        design_language_ref: reference,
        design_language_summary,
        design_language_refs: design_refs,
        verification_requirements: requirements,
        generated_at,
    })
}

} // verus!
