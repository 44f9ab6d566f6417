//! Campaigns: one brief applied to several artifacts at once, each change
//! proposed for review.

use vstd::prelude::*;
use crate::mp4::verdict::lit;
use crate::project::generate::{artifact_position, find_artifact, fixture_source, spec_fixture_source};
use crate::project::ids::is_campaign_kind;
use crate::project::json::{
    json_kind, json_kind_of, json_members_set, json_parse_failure, json_parse_problem, json_pretty, json_pretty_text,
    json_quote, json_quoted, json_set_members, member_texts, JsonKind,
};
use crate::project::model::{kind_name, ArtifactKind, ArtifactRefV1};
use crate::text::texts;
use crate::project::patch::{PatchDocumentV1, ReplaceExactTextOperationV1};
use crate::project::queue::{copy_text, copy_texts, opt_view};

verus! {

/// A campaign request: a brief and, optionally, the artifacts it covers.
pub struct ProjectCampaignRequestV1 {
    pub brief: String,
    pub artifact_ids: Vec<String>,
}

/// One artifact a campaign plans to change.
pub struct ProjectCampaignTargetV1 {
    pub artifact_id: String,
    pub kind: String,
    pub title: String,
    pub source_path: String,
    pub dependencies: Vec<String>,
    pub review_mode: String,
    pub status: String,
}

/// A campaign plan.
pub struct ProjectCampaignPlanV1 {
    pub schema_version: String,
    pub id: String,
    pub project_id: String,
    pub brief: String,
    pub design_language_ref: String,
    pub targets: Vec<ProjectCampaignTargetV1>,
    pub generated_at: u64,
}

/// The review run proposed for one artifact of a campaign.
pub struct ProjectCampaignArtifactRunV1 {
    pub artifact_id: String,
    pub source_path: String,
    pub review_run_id: String,
    pub status: String,
}

/// A campaign run.
pub struct ProjectCampaignRunV1 {
    pub schema_version: String,
    pub id: String,
    pub project_id: String,
    pub plan_id: String,
    pub brief: String,
    pub design_language_ref: String,
    pub status: String,
    pub artifact_runs: Vec<ProjectCampaignArtifactRunV1>,
    pub generated_at: u64,
}

pub open spec fn campaign_kind(k: ArtifactKind) -> bool {
    k == ArtifactKind::Html || k == ArtifactKind::PosterJson || k == ArtifactKind::PptJson || k
        == ArtifactKind::CompositionJson
}

/// `t` plans artifact `a` for review.
pub open spec fn is_target(t: ProjectCampaignTargetV1, a: ArtifactRefV1) -> bool {
    &&& t.artifact_id@ == a.id@
    &&& t.kind@ == kind_name(a.kind)
    &&& t.title@ == a.title@
    &&& t.source_path@ == a.source_path@
    &&& texts(t.dependencies@) == texts(a.source_refs@)
    &&& t.review_mode@ == "review"@
    &&& t.status@ == "planned"@
}

/// The target planned for an artifact.
pub fn campaign_target(a: &ArtifactRefV1) -> (t: ProjectCampaignTargetV1)
    ensures
        is_target(t, *a),
{
    ProjectCampaignTargetV1 {
        artifact_id: copy_text(&a.id),
        kind: lit(a.kind.as_str()),
        title: copy_text(&a.title),
        source_path: copy_text(&a.source_path),
        dependencies: copy_texts(a.source_refs.as_slice()),
        review_mode: lit("review"),
        status: lit("planned"),
    }
}

/// `t` plans the first artifact with id `id`.
pub open spec fn is_target_of(t: ProjectCampaignTargetV1, v: Seq<ArtifactRefV1>, id: Seq<char>) -> bool {
    match artifact_position(v, id, v.len() as int) {
        Some(i) => is_target(t, v[i]),
        None => false,
    }
}

/// The positions of the first `n` artifacts that a campaign can change.
pub open spec fn campaign_positions(v: Seq<ArtifactRefV1>, n: int) -> Seq<int>
    decreases n,
{
    if n <= 0 {
        seq![]
    } else if campaign_kind(v[n - 1].kind) {
        campaign_positions(v, n - 1).push(n - 1)
    } else {
        campaign_positions(v, n - 1)
    }
}

/// The first requested id (among the first `n`) that no artifact has.
pub open spec fn first_unknown(v: Seq<ArtifactRefV1>, ids: Seq<String>, n: int) -> Option<int>
    decreases n,
{
    if n <= 0 {
        None
    } else {
        match first_unknown(v, ids, n - 1) {
            Some(k) => Some(k),
            None => if artifact_position(v, ids[n - 1]@, v.len() as int) is None {
                Some(n - 1)
            } else {
                None
            },
        }
    }
}

proof fn lemma_first_unknown_stable(v: Seq<ArtifactRefV1>, ids: Seq<String>, m: int, n: int)
    requires
        0 <= m <= n,
        first_unknown(v, ids, m) is Some,
    ensures
        first_unknown(v, ids, n) == first_unknown(v, ids, m),
    decreases n - m,
{
    if n > m {
        lemma_first_unknown_stable(v, ids, m, n - 1);
    }
}

/// The targets of a campaign: every artifact it can change when none are
/// requested, else the requested artifacts in the order requested (the
/// first with each id); an unknown id is refused.
pub fn campaign_targets(artifacts: &[ArtifactRefV1], requested: &[String]) -> (r: Result<Vec<ProjectCampaignTargetV1>, String>)
    ensures
        requested.len() == 0 ==> (r matches Ok(t) && {
            let pos = campaign_positions(artifacts@, artifacts@.len() as int);
            &&& t.len() == pos.len()
            &&& forall|m: int| 0 <= m < pos.len() ==> is_target(#[trigger] t@[m], artifacts@[pos[m]])
        }),
        requested.len() > 0 ==> match first_unknown(artifacts@, requested@, requested@.len() as int) {
            Some(k) => r matches Err(e) && e@ == "unknown campaign artifact id: "@ + requested@[k]@,
            None => r matches Ok(t) && {
                &&& t.len() == requested.len()
                &&& forall|m: int| 0 <= m < requested.len() ==> is_target_of(#[trigger] t@[m], artifacts@, requested@[m]@)
            },
        },
{
    let mut t: Vec<ProjectCampaignTargetV1> = Vec::new();
    if requested.len() == 0 {
        let mut i: usize = 0;
        while i < artifacts.len()
            invariant
                i <= artifacts.len(),
                t.len() == campaign_positions(artifacts@, i as int).len(),
                forall|m: int|
                    0 <= m < t.len() ==> is_target(#[trigger] t@[m], artifacts@[campaign_positions(artifacts@, i as int)[m]]),
            decreases artifacts.len() - i,
        {
            if is_campaign_kind(&artifacts[i].kind) {
                let ghost prev = t@;
                t.push(campaign_target(&artifacts[i]));
                proof {
                    assert forall|m: int| 0 <= m < t.len() implies is_target(
                        #[trigger] t@[m],
                        artifacts@[campaign_positions(artifacts@, i + 1)[m]],
                    ) by {
                        if m < prev.len() {
                            assert(t@[m] == prev[m]);
                        }
                    }
                }
            }
            i = i + 1;
        }
        return Ok(t);
    }
    let mut k: usize = 0;
    while k < requested.len()
        invariant
            k <= requested.len(),
            t.len() == k,
            first_unknown(artifacts@, requested@, k as int) is None,
            forall|m: int| 0 <= m < k ==> is_target_of(#[trigger] t@[m], artifacts@, requested@[m]@),
        decreases requested.len() - k,
    {
        match find_artifact(artifacts, requested[k].as_str()) {
            Some(i) => {
                let ghost prev = t@;
                let target = campaign_target(&artifacts[i]);
                t.push(target);
                proof {
                    assert forall|m: int| 0 <= m < k + 1 implies is_target_of(#[trigger] t@[m], artifacts@, requested@[m]@) by {
                        if m < k {
                            assert(t@[m] == prev[m]);
                        }
                    }
                }
            },
            None => {
                proof {
                    assert(first_unknown(artifacts@, requested@, k + 1) == Some(k as int));
                    lemma_first_unknown_stable(artifacts@, requested@, k + 1, requested@.len() as int);
                }
                let mut e = lit("unknown campaign artifact id: ");
                e.append(requested[k].as_str());
                return Err(e);
            },
        }
        k = k + 1;
    }
    Ok(t)
}

/// A plan needs at least one target.
pub fn check_campaign_targets(targets: &Vec<ProjectCampaignTargetV1>) -> (r: Result<(), String>)
    ensures
        targets.len() == 0 ==> (r matches Err(e) && e@ == "campaign plan needs at least one editable artifact"@),
        targets.len() > 0 ==> r is Ok,
{
    if targets.len() == 0 {
        Err(lit("campaign plan needs at least one editable artifact"))
    } else {
        Ok(())
    }
}

/// The members a campaign puts into a JSON artifact: the brief and the
/// `fixture-proposed` status, as JSON strings.
pub open spec fn campaign_members(brief: Seq<char>) -> Seq<(Seq<char>, Seq<char>)> {
    seq![
        ("capy_campaign_brief"@, json_quoted(brief)),
        ("capy_campaign_status"@, json_quoted("fixture-proposed"@)),
    ]
}

/// The source of a JSON artifact in a campaign proposal: its JSON with the
/// brief and status put in when it is an object, reprinted as it is when it
/// is another value, or serde_json's error text when it is not JSON.
pub open spec fn json_campaign_edit(current: Seq<char>, brief: Seq<char>) -> Result<Seq<char>, Seq<char>> {
    match json_kind_of(current) {
        Some(JsonKind::Object) => Ok(json_members_set(current, campaign_members(brief))),
        Some(_) => Ok(json_pretty_text(current)),
        None => Err(json_parse_problem(current).unwrap()),
    }
}

fn json_with_campaign(current: &str, brief: &str) -> (r: Result<String, String>)
    ensures
        match r {
            Ok(t) => json_campaign_edit(current@, brief@) == Ok::<Seq<char>, Seq<char>>(t@),
            Err(e) => json_campaign_edit(current@, brief@) == Err::<Seq<char>, Seq<char>>(e@),
        },
{
    match json_kind(current) {
        Some(JsonKind::Object) => {
            let mut members: Vec<(String, String)> = Vec::new();
            members.push((lit("capy_campaign_brief"), json_quote(brief)));
            members.push((lit("capy_campaign_status"), json_quote("fixture-proposed")));
            proof {
                assert(member_texts(members@) =~= campaign_members(brief@));
            }
            Ok(json_set_members(current, members.as_slice()))
        },
        Some(_) => Ok(json_pretty(current)),
        None => match json_parse_failure(current) {
            Some(e) => Err(e),
            None => Err(String::new()),
        },
    }
}

/// The proposed source of a campaign target: an HTML page gets the fixture
/// draft for the brief, anything else is edited as JSON.
pub open spec fn spec_campaign_source(
    kind: ArtifactKind,
    source_path: Seq<char>,
    current: Seq<char>,
    brief: Seq<char>,
    generated_at: u64,
) -> Result<Seq<char>, Seq<char>> {
    if kind == ArtifactKind::Html {
        spec_fixture_source(kind, source_path, current, brief, generated_at)
    } else {
        match json_campaign_edit(current, brief) {
            Ok(t) => Ok(t),
            Err(e) => Err("parse campaign JSON artifact "@ + source_path + ": "@ + e),
        }
    }
}

/// The proposed source of a campaign target.
pub fn campaign_fixture_source(kind: &ArtifactKind, source_path: &str, current: &str, brief: &str, generated_at: u64) -> (r: Result<String, String>)
    ensures
        match spec_campaign_source(*kind, source_path@, current@, brief@, generated_at) {
            Ok(t) => r matches Ok(s) && s@ == t,
            Err(m) => r matches Err(e) && e@ == m,
        },
{
    if matches!(kind, ArtifactKind::Html) {
        return fixture_source(kind, source_path, current, brief, generated_at);
    }
    match json_with_campaign(current, brief) {
        Ok(t) => Ok(t),
        Err(e) => {
            let mut m = lit("parse campaign JSON artifact ");
            m.append(source_path);
            m.append(": ");
            m.append(e.as_str());
            Err(m)
        },
    }
}

/// The review patch of one campaign target: the whole source replaced by
/// the proposal, under the plan's id.
pub fn campaign_patch(
    project_id: &str,
    plan_id: &str,
    artifact_id: &str,
    source_path: &str,
    current: String,
    proposed: String,
) -> (p: PatchDocumentV1)
    ensures
        p.schema_version@ == "capy.patch.v1"@,
        opt_view(p.project_id) == Some(project_id@),
        opt_view(p.input_context_ref) == Some(plan_id@),
        opt_view(p.actor) == Some("project-campaign:fixture"@),
        p.operations.len() == 1,
        p.operations@[0].op@ == "replace_exact_text"@,
        p.operations@[0].artifact_id@ == artifact_id@,
        opt_view(p.operations@[0].source_path) == Some(source_path@),
        p.operations@[0].old_text@ == current@,
        p.operations@[0].new_text@ == proposed@,
        p.operations@[0].selector_hint is None,
{
    let mut operations: Vec<ReplaceExactTextOperationV1> = Vec::new();
    operations.push(ReplaceExactTextOperationV1 {
        op: lit("replace_exact_text"),
        artifact_id: lit(artifact_id),
        source_path: Some(lit(source_path)),
        old_text: current,
        new_text: proposed,
        selector_hint: None,
    });
    PatchDocumentV1 {
        schema_version: lit("capy.patch.v1"),
        project_id: Some(lit(project_id)),
        input_context_ref: Some(lit(plan_id)),
        actor: Some(lit("project-campaign:fixture")),
        operations,
    }
}

/// The prompt recorded for a campaign proposal.
pub fn campaign_prompt(brief: &str) -> (s: String)
    ensures
        s@ == "Campaign brief: "@ + brief@,
{
    let mut s = lit("Campaign brief: ");
    s.append(brief);
    s
}

} // verus!
