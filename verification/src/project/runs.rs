//! Run records: fresh ids, the record of an applied patch, and the design
//! language a new project starts with.

use vstd::prelude::*;
use crate::mp4::verdict::lit;
use crate::project::model::{opt_text, DesignLanguageManifestV1};
use crate::project::order::{dedupe_sorted, strictly_sorted};
use crate::text::texts;
use crate::project::patch::PatchRunV1;

verus! {

pub open spec fn is_lower_hex(c: char) -> bool {
    ('0' <= c && c <= '9') || ('a' <= c && c <= 'f')
}

/// uuid's `Uuid::new_v4().simple()` as text: a random UUID as 32
/// lower-case hex digits.
#[verifier::external_body]
fn uuid_v4_simple() -> (s: String)
    ensures
        s@.len() == 32,
        forall|i: int| 0 <= i < 32 ==> is_lower_hex(#[trigger] s@[i]),
{
    uuid::Uuid::new_v4().simple().to_string()
}

/// A fresh id: `prefix`, `_`, and 32 random lower-case hex digits.
pub fn new_id(prefix: &str) -> (s: String)
    ensures
        s@.len() == prefix@.len() + 33,
        s@.subrange(0, prefix@.len() as int) == prefix@,
        s@[prefix@.len() as int] == '_',
        forall|i: int| prefix@.len() < i < s@.len() ==> is_lower_hex(#[trigger] s@[i]),
{
    let u = uuid_v4_simple();
    let mut s = lit(prefix);
    s.append("_");
    s.append(u.as_str());
    proof {
        reveal_strlit("_");
        assert(s@.subrange(0, prefix@.len() as int) =~= prefix@);
        assert forall|i: int| prefix@.len() < i < s@.len() implies is_lower_hex(#[trigger] s@[i]) by {
            assert(s@[i] == u@[i - prefix@.len() - 1]);
        }
    }
    s
}

/// The record of a patch application (`capy.patch-run.v1`). The changed
/// artifacts are listed sorted and without repeats; the actor defaults to
/// `cli`.
pub fn patch_run_record(
    project_id: String,
    actor: Option<String>,
    input_context_ref: Option<String>,
    patch_ref: Option<String>,
    changed_artifacts: Vec<String>,
    dry_run: bool,
    generated_at: u64,
) -> (run: PatchRunV1)
    ensures
        run.schema_version@ == "capy.patch-run.v1"@,
        run.id@.subrange(0, 4) == "run_"@,
        run.id@.len() == 36,
        run.trace_id@.subrange(0, 6) == "trace_"@,
        run.trace_id@.len() == 38,
        run.project_id@ == project_id@,
        run.actor@ == match actor {
            Some(a) => a@,
            None => "cli"@,
        },
        opt_text(run.input_context_ref) == opt_text(input_context_ref),
        texts(run.patch_refs@) == match patch_ref {
            Some(p) => seq![p@],
            None => Seq::<Seq<char>>::empty(),
        },
        strictly_sorted(texts(run.changed_artifact_refs@)),
        forall|x: Seq<char>| texts(run.changed_artifact_refs@).contains(x) <==> texts(changed_artifacts@).contains(x),
        run.status@ == if dry_run {
            "dry-run"@
        } else {
            "applied"@
        },
        run.error is None,
        run.evidence_refs@.len() == 0,
        run.dry_run == dry_run,
        run.generated_at == generated_at,
{
    proof {
        reveal_strlit("run");
        reveal_strlit("run_");
        reveal_strlit("trace");
        reveal_strlit("trace_");
    }
    let id = new_id("run");
    let trace_id = new_id("trace");
    proof {
        assert(id@.subrange(0, 4) =~= "run_"@);
        assert(trace_id@.subrange(0, 6) =~= "trace_"@);
    }
    let actor = match actor {
        Some(a) => a,
        None => lit("cli"),
    };
    let mut patch_refs: Vec<String> = Vec::new();
    match patch_ref {
        Some(p) => {
            patch_refs.push(p);
            proof {
                assert(texts(patch_refs@) =~= seq![p@]);
            }
        },
        None => {
            proof {
                assert(texts(patch_refs@) =~= Seq::<Seq<char>>::empty());
            }
        },
    }
    PatchRunV1 {
        schema_version: lit("capy.patch-run.v1"),
        id,
        project_id,
        actor,
        input_context_ref,
        patch_refs,
        changed_artifact_refs: dedupe_sorted(changed_artifacts),
        status: if dry_run {
            lit("dry-run")
        } else {
            lit("applied")
        },
        trace_id,
        error: None,
        evidence_refs: Vec::new(),
        dry_run,
        generated_at,
    }
}

/// The id of the design language a new project starts with.
pub fn default_design_language_id() -> (s: String)
    ensures
        s@ == "dlpkg_default"@,
{
    lit("dlpkg_default")
}

/// The name of the design language a new project starts with.
pub fn default_design_language_name() -> (s: String)
    ensures
        s@ == "Project Design Language"@,
{
    lit("Project Design Language")
}

/// The version of the design language a new project starts with.
pub fn default_design_language_version() -> (s: String)
    ensures
        s@ == "0.1.0"@,
{
    lit("0.1.0")
}

/// The design language a new project starts with (`capy.design-language.v1`,
/// no assets), stamped `updated_at`.
pub fn initial_design_language(updated_at: u64) -> (m: DesignLanguageManifestV1)
    ensures
        m.schema_version@ == "capy.design-language.v1"@,
        m.id@ == "dlpkg_default"@,
        m.name@ == "Project Design Language"@,
        m.version@ == "0.1.0"@,
        m.summary@ == "Project-level tokens, rules, references, and examples for AI generation."@,
        m.updated_at == updated_at,
        m.assets@.len() == 0,
{
    DesignLanguageManifestV1 {
        schema_version: lit("capy.design-language.v1"),
        id: default_design_language_id(),
        name: default_design_language_name(),
        version: default_design_language_version(),
        summary: lit("Project-level tokens, rules, references, and examples for AI generation."),
        updated_at,
        assets: Vec::new(),
    }
}


} // verus!
