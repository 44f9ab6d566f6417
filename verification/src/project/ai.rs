//! Project AI: the prompt that asks a model for one artifact's new source,
//! and the checks that turn its answer into an exact-text patch.

use vstd::prelude::*;
use crate::text::append_decimal;
use crate::text::decimal_string;
use crate::mp4::verdict::lit;
use crate::project::model::{DesignLanguageAssetV1, DesignLanguageSummaryV1};
use crate::project::patch::{PatchDocumentV1, ReplaceExactTextOperationV1};
use crate::project::proposal::same_text;
use crate::project::queue::{copy_text, opt_view};
use crate::text::{chars_of, decimal, trim, trim_chars};

verus! {

/// One artifact in a model's answer.
pub struct ProjectAiArtifactV1 {
    pub artifact_id: String,
    pub source_path: String,
    pub new_source: String,
}

/// A model's answer (`capy.project-ai-response.v1`).
pub struct ProjectAiResponseV1 {
    pub schema_version: String,
    pub summary_zh: String,
    pub artifacts: Vec<ProjectAiArtifactV1>,
    pub verify_notes: Vec<String>,
}

/// Why a model's answer cannot become a patch of `target`, checked in this
/// order, or `None` when it can: the schema, one artifact, the target's id,
/// a non-blank new source.
pub open spec fn ai_response_problem(response: ProjectAiResponseV1, target: Seq<char>) -> Option<Seq<char>> {
    if response.schema_version@ != "capy.project-ai-response.v1"@ {
        Some("unsupported project AI response schema_version: "@ + response.schema_version@)
    } else if response.artifacts.len() != 1 {
        Some("project AI response must contain exactly one artifact, got "@ + decimal(response.artifacts.len() as nat))
    } else if response.artifacts@[0].artifact_id@ != target {
        Some("project AI response artifact "@ + response.artifacts@[0].artifact_id@ + " does not match target "@ + target)
    } else if trim(response.artifacts@[0].new_source@).len() == 0 {
        Some("project AI response new_source must not be empty"@)
    } else {
        None
    }
}

/// Checks a model's answer for `target`: the single artifact it changes, or
/// the first problem with it.
pub fn check_ai_response(response: ProjectAiResponseV1, target: &str) -> (r: Result<ProjectAiArtifactV1, String>)
    ensures
        match ai_response_problem(response, target@) {
            Some(m) => r matches Err(e) && e@ == m,
            None => r matches Ok(a) && a == response.artifacts@[0],
        },
{
    if !same_text(response.schema_version.as_str(), "capy.project-ai-response.v1") {
        let mut m = lit("unsupported project AI response schema_version: ");
        m.append(response.schema_version.as_str());
        return Err(m);
    }
    if response.artifacts.len() != 1 {
        let mut m = lit("project AI response must contain exactly one artifact, got ");
        let n = decimal_string(response.artifacts.len() as u64);
        m.append(n.as_str());
        return Err(m);
    }
    let ghost first = response.artifacts@[0];
    let mut artifacts = response.artifacts;
    let generated = artifacts.remove(0);
    if !same_text(generated.artifact_id.as_str(), target) {
        let mut m = lit("project AI response artifact ");
        m.append(generated.artifact_id.as_str());
        m.append(" does not match target ");
        m.append(target);
        return Err(m);
    }
    let cs = chars_of(generated.new_source.as_str());
    let t = trim_chars(cs.as_slice());
    if t.len() == 0 {
        return Err(lit("project AI response new_source must not be empty"));
    }
    Ok(generated)
}

/// The answer's source path must be the artifact's.
pub fn check_ai_source_path(generated_path: &str, artifact_path: &str) -> (r: Result<(), String>)
    ensures
        generated_path@ == artifact_path@ ==> r is Ok,
        generated_path@ != artifact_path@ ==> (r matches Err(m) && m@ == "project AI response source_path "@
            + generated_path@ + " does not match artifact source_path "@ + artifact_path@),
{
    if same_text(generated_path, artifact_path) {
        Ok(())
    } else {
        let mut m = lit("project AI response source_path ");
        m.append(generated_path);
        m.append(" does not match artifact source_path ");
        m.append(artifact_path);
        Err(m)
    }
}

/// The patch that puts the answer's source in place of the current one:
/// one `replace_exact_text` of the whole file. An answer that changes
/// nothing is refused.
pub fn ai_response_patch(
    target_artifact_id: &str,
    artifact_source_path: &str,
    old_source: String,
    new_source: String,
    project_id: &str,
    input_context_ref: Option<String>,
    actor: String,
) -> (r: Result<PatchDocumentV1, String>)
    ensures
        old_source@ == new_source@ ==> (r matches Err(m) && m@ == "project AI response did not change the source"@),
        old_source@ != new_source@ ==> (r matches Ok(p) && {
            &&& p.schema_version@ == "capy.patch.v1"@
            &&& opt_view(p.project_id) == Some(project_id@)
            &&& opt_view(p.input_context_ref) == opt_view(input_context_ref)
            &&& opt_view(p.actor) == Some(actor@)
            &&& p.operations.len() == 1
            &&& p.operations@[0].op@ == "replace_exact_text"@
            &&& p.operations@[0].artifact_id@ == target_artifact_id@
            &&& opt_view(p.operations@[0].source_path) == Some(artifact_source_path@)
            &&& p.operations@[0].old_text@ == old_source@
            &&& p.operations@[0].new_text@ == new_source@
            &&& p.operations@[0].selector_hint is None
        }),
{
    if same_text(old_source.as_str(), new_source.as_str()) {
        return Err(lit("project AI response did not change the source"));
    }
    let mut operations: Vec<ReplaceExactTextOperationV1> = Vec::new();
    operations.push(ReplaceExactTextOperationV1 {
        op: lit("replace_exact_text"),
        artifact_id: lit(target_artifact_id),
        source_path: Some(lit(artifact_source_path)),
        old_text: old_source,
        new_text: new_source,
        selector_hint: None,
    });
    Ok(PatchDocumentV1 {
        schema_version: lit("capy.patch.v1"),
        project_id: Some(lit(project_id)),
        input_context_ref,
        actor: Some(actor),
        operations,
    })
}

/// An asset's role, or `context` when it has none.
pub open spec fn role_or_context(role: Option<Seq<char>>) -> Seq<char> {
    match role {
        Some(r) => r,
        None => "context"@,
    }
}

fn role_text(role: &Option<String>) -> (s: String)
    ensures
        s@ == role_or_context(opt_view(*role)),
{
    match role {
        Some(r) => copy_text(r),
        None => lit("context"),
    }
}

/// The line that lists a design asset in the prompt.
pub open spec fn asset_ref_line(a: DesignLanguageAssetV1) -> Seq<char> {
    "- id: "@ + a.id@ + "; role: "@ + role_or_context(opt_view(a.role)) + "; kind: "@ + a.kind@ + "; path: "@ + a.path@
        + "; title: "@ + a.title@
}

/// Lines joined with `\n` between them.
pub open spec fn join_lines(lines: Seq<Seq<char>>) -> Seq<char>
    decreases lines.len(),
{
    if lines.len() == 0 {
        seq![]
    } else if lines.len() == 1 {
        lines[0]
    } else {
        join_lines(lines.drop_last()) + "\n"@ + lines.last()
    }
}

pub open spec fn asset_lines(assets: Seq<DesignLanguageAssetV1>) -> Seq<Seq<char>> {
    assets.map_values(|a: DesignLanguageAssetV1| asset_ref_line(a))
}

/// The list of selected design assets for the prompt, one line each.
pub fn design_asset_refs(assets: &[DesignLanguageAssetV1]) -> (s: String)
    ensures
        s@ == join_lines(asset_lines(assets@)),
{
    let mut s = String::new();
    let mut i: usize = 0;
    while i < assets.len()
        invariant
            i <= assets.len(),
            s@ == join_lines(asset_lines(assets@.take(i as int))),
        decreases assets.len() - i,
    {
        let a = &assets[i];
        if i > 0 {
            s.append("\n");
        }
        s.append("- id: ");
        s.append(a.id.as_str());
        s.append("; role: ");
        let role = role_text(&a.role);
        s.append(role.as_str());
        s.append("; kind: ");
        s.append(a.kind.as_str());
        s.append("; path: ");
        s.append(a.path.as_str());
        s.append("; title: ");
        s.append(a.title.as_str());
        proof {
            let prev = asset_lines(assets@.take(i as int));
            let next = asset_lines(assets@.take(i + 1));
            assert(next.drop_last() =~= prev);
            assert(next.last() == asset_ref_line(assets@[i as int]));
            if i == 0 {
                assert(next.len() == 1);
            }
        }
        i = i + 1;
    }
    proof {
        assert(assets@.take(assets.len() as int) =~= assets@);
    }
    s
}

/// The most of a design source the prompt quotes, in characters.
pub open spec fn excerpt_limit() -> nat {
    2400
}

/// A design source as the prompt quotes it: whole, or its first 2400
/// characters and a note that it was cut.
pub open spec fn excerpt(source: Seq<char>) -> Seq<char> {
    if source.len() > excerpt_limit() {
        source.take(excerpt_limit() as int) + "...\n[truncated to 2400 chars]"@
    } else {
        source
    }
}

/// A design source quoted in the prompt: a heading that names the asset,
/// then its excerpt.
pub open spec fn spec_bounded_design_source(a: DesignLanguageAssetV1, source: Seq<char>) -> Seq<char> {
    "### "@ + a.title@ + " ("@ + a.kind@ + ", role "@ + role_or_context(opt_view(a.role)) + ", id "@ + a.id@ + ", path "@
        + a.path@ + ")\n"@ + excerpt(source) + "\n"@
}

/// Quotes a design asset's source (the file's text) for the prompt.
pub fn bounded_design_source(asset: &DesignLanguageAssetV1, source: &str) -> (s: String)
    ensures
        s@ == spec_bounded_design_source(*asset, source@),
{
    let mut s = lit("### ");
    s.append(asset.title.as_str());
    s.append(" (");
    s.append(asset.kind.as_str());
    s.append(", role ");
    let role = role_text(&asset.role);
    s.append(role.as_str());
    s.append(", id ");
    s.append(asset.id.as_str());
    s.append(", path ");
    s.append(asset.path.as_str());
    s.append(")\n");
    let cs = chars_of(source);
    if cs.len() > 2400 {
        let mut k: usize = 0;
        let ghost start = s@;
        while k < 2400
            invariant
                k <= 2400,
                2400 < cs.len(),
                cs@ == source@,
                s@ == start + cs@.take(k as int),
            decreases 2400 - k,
        {
            let mut one = String::new();
            crate::text::push_char(&mut one, cs[k]);
            s.append(one.as_str());
            proof {
                assert(cs@.take(k + 1) =~= cs@.take(k as int).push(cs@[k as int]));
            }
            k = k + 1;
        }
        s.append("...\n[truncated to 2400 chars]");
    } else {
        s.append(source);
    }
    s.append("\n");
    s
}

/// What the prompt is built from, beyond the design summary: the project,
/// the target artifact, the user's request, the listed design assets, the
/// quoted design sources and the artifact's current source.
pub struct AiPromptInputs {
    pub project_name: String,
    pub project_id: String,
    pub artifact_id: String,
    pub artifact_kind: String,
    pub source_path: String,
    pub artifact_title: String,
    pub user_prompt: String,
    pub design_asset_refs: String,
    pub design_sources: String,
    pub current_source: String,
}

/// A text, or a placeholder when it is empty.
pub open spec fn or_placeholder(text: Seq<char>, placeholder: Seq<char>) -> Seq<char> {
    if text.len() == 0 {
        placeholder
    } else {
        text
    }
}

/// The instructions of the prompt.
pub open spec fn prompt_intro() -> Seq<char> {
    "You are Capybara Project AI. Return only valid JSON that matches the supplied schema.\n\nTask:\n- Update exactly one project source artifact.\n- Preserve the artifact kind and produce a complete replacement source file, not a diff.\n- Follow the project design language, tokens, and examples.\n- Do not edit .capy metadata, generated evidence, or derived export files.\n- Do not invent external network assets.\n- Keep paths, IDs, schema names, and technical identifiers literal.\n\nProject:\n- name: "@
}

/// The full prompt text.
pub open spec fn spec_ai_prompt(i: AiPromptInputs, d: DesignLanguageSummaryV1) -> Seq<char> {
    prompt_intro() + i.project_name@ + "\n- id: "@ + i.project_id@
        + "\n\nActive design language package:\n- design_language_ref: "@ + d.design_language_ref@ + "\n- name: "@
        + d.name@ + "\n- version: "@ + d.version@ + "\n- summary: "@ + d.summary@ + "\n- asset_count: "@ + decimal(
        d.asset_count as nat,
    ) + "\n- token_count: "@ + decimal(d.token_count as nat) + "\n- reference_image_count: "@ + decimal(
        d.reference_image_count as nat,
    ) + "\n- rule_count: "@ + decimal(d.rule_count as nat) + "\n- example_count: "@ + decimal(d.example_count as nat)
        + "\n\nTarget artifact:\n- artifact_id: "@ + i.artifact_id@ + "\n- kind: "@ + i.artifact_kind@
        + "\n- source_path: "@ + i.source_path@ + "\n- title: "@ + i.artifact_title@ + "\n\nUser request:\n"@
        + i.user_prompt@ + "\n\nSelected design language asset refs:\n"@ + or_placeholder(
        i.design_asset_refs@,
        "(No design-language asset refs selected.)"@,
    ) + "\n\nBounded design language context excerpts:\n"@ + or_placeholder(
        i.design_sources@,
        "(No design-language files registered.)"@,
    ) + "\n\nCurrent source file:\n----- BEGIN "@ + i.source_path@ + " -----\n"@ + i.current_source@ + "\n----- END "@
        + i.source_path@
        + " -----\n\nOutput JSON rules:\n- schema_version must be \"capy.project-ai-response.v1\".\n- artifacts must contain exactly one item for artifact_id \""@
        + i.artifact_id@ + "\" and source_path \""@ + i.source_path@
        + "\".\n- new_source must be the complete updated file contents.\n- summary_zh should explain the visible change in concise Chinese.\n- verify_notes should list practical verification checks in Chinese.\n"@
}

/// The prompt that asks the model for the target artifact's new source.
pub fn ai_prompt_text(i: &AiPromptInputs, d: &DesignLanguageSummaryV1) -> (s: String)
    ensures
        s@ == spec_ai_prompt(*i, *d),
{
    let mut s = lit("You are Capybara Project AI. Return only valid JSON that matches the supplied schema.\n\nTask:\n- Update exactly one project source artifact.\n- Preserve the artifact kind and produce a complete replacement source file, not a diff.\n- Follow the project design language, tokens, and examples.\n- Do not edit .capy metadata, generated evidence, or derived export files.\n- Do not invent external network assets.\n- Keep paths, IDs, schema names, and technical identifiers literal.\n\nProject:\n- name: ");
    s.append(i.project_name.as_str());
    s.append("\n- id: ");
    s.append(i.project_id.as_str());
    s.append("\n\nActive design language package:\n- design_language_ref: ");
    s.append(d.design_language_ref.as_str());
    s.append("\n- name: ");
    s.append(d.name.as_str());
    s.append("\n- version: ");
    s.append(d.version.as_str());
    s.append("\n- summary: ");
    s.append(d.summary.as_str());
    s.append("\n- asset_count: ");
    append_decimal(&mut s, d.asset_count as u64);
    s.append("\n- token_count: ");
    append_decimal(&mut s, d.token_count as u64);
    s.append("\n- reference_image_count: ");
    append_decimal(&mut s, d.reference_image_count as u64);
    s.append("\n- rule_count: ");
    append_decimal(&mut s, d.rule_count as u64);
    s.append("\n- example_count: ");
    append_decimal(&mut s, d.example_count as u64);
    s.append("\n\nTarget artifact:\n- artifact_id: ");
    s.append(i.artifact_id.as_str());
    s.append("\n- kind: ");
    s.append(i.artifact_kind.as_str());
    s.append("\n- source_path: ");
    s.append(i.source_path.as_str());
    s.append("\n- title: ");
    s.append(i.artifact_title.as_str());
    s.append("\n\nUser request:\n");
    s.append(i.user_prompt.as_str());
    s.append("\n\nSelected design language asset refs:\n");
    let refs_chars = chars_of(i.design_asset_refs.as_str());
    if refs_chars.len() == 0 {
        s.append("(No design-language asset refs selected.)");
    } else {
        s.append(i.design_asset_refs.as_str());
    }
    s.append("\n\nBounded design language context excerpts:\n");
    let sources_chars = chars_of(i.design_sources.as_str());
    if sources_chars.len() == 0 {
        s.append("(No design-language files registered.)");
    } else {
        s.append(i.design_sources.as_str());
    }
    s.append("\n\nCurrent source file:\n----- BEGIN ");
    s.append(i.source_path.as_str());
    s.append(" -----\n");
    s.append(i.current_source.as_str());
    s.append("\n----- END ");
    s.append(i.source_path.as_str());
    s.append(" -----\n\nOutput JSON rules:\n- schema_version must be \"capy.project-ai-response.v1\".\n- artifacts must contain exactly one item for artifact_id \"");
    s.append(i.artifact_id.as_str());
    s.append("\" and source_path \"");
    s.append(i.source_path.as_str());
    s.append("\".\n- new_source must be the complete updated file contents.\n- summary_zh should explain the visible change in concise Chinese.\n- verify_notes should list practical verification checks in Chinese.\n");
    s
}

} // verus!
