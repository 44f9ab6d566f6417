//! Where a project package keeps its records: everything lives under the
//! `.capy` directory of the project root.

use vstd::prelude::*;
use crate::mp4::verdict::lit;
use crate::project::paths::{candidate_path, spec_candidate_path};

verus! {

/// A project package, known by its (resolved) root directory.
#[derive(Debug, Clone)]
pub struct ProjectPackage {
    root: String,
}

/// `name` under the records directory of the project at `root`.
pub open spec fn record_path(root: Seq<char>, name: Seq<char>) -> Seq<char> {
    spec_candidate_path(spec_candidate_path(root, ".capy"@), name)
}

impl ProjectPackage {
    /// The root directory, as given.
    pub closed spec fn root_text(&self) -> Seq<char> {
        self.root@
    }

    /// The package at the resolved root `root`.
    pub fn at(root: &str) -> (p: Self)
        ensures
            p.root_text() == root@,
    {
        ProjectPackage { root: lit(root) }
    }

    /// The project root.
    pub fn root(&self) -> (r: &str)
        ensures
            r@ == self.root_text(),
    {
        self.root.as_str()
    }

    fn record(&self, name: &str) -> (s: String)
        ensures
            s@ == record_path(self.root_text(), name@),
    {
        let d = candidate_path(self.root.as_str(), ".capy");
        candidate_path(d.as_str(), name)
    }

    /// `.capy/project.json`: the project manifest.
    pub fn project_manifest_path(&self) -> (s: String)
        ensures
            s@ == record_path(self.root_text(), "project.json"@),
    {
        self.record("project.json")
    }

    /// `.capy/artifacts.json`: the artifact registry.
    pub fn artifacts_path(&self) -> (s: String)
        ensures
            s@ == record_path(self.root_text(), "artifacts.json"@),
    {
        self.record("artifacts.json")
    }

    /// `.capy/design-language.json`: the design language manifest.
    pub fn design_language_path(&self) -> (s: String)
        ensures
            s@ == record_path(self.root_text(), "design-language.json"@),
    {
        self.record("design-language.json")
    }

    /// `.capy/runs`: the run records.
    pub fn runs_dir(&self) -> (s: String)
        ensures
            s@ == record_path(self.root_text(), "runs"@),
    {
        self.record("runs")
    }

    /// `.capy/evidence`: the evidence records.
    pub fn evidence_dir(&self) -> (s: String)
        ensures
            s@ == record_path(self.root_text(), "evidence"@),
    {
        self.record("evidence")
    }

    /// `.capy/video-clip-queue.json`: the clip queue.
    pub fn video_clip_queue_path(&self) -> (s: String)
        ensures
            s@ == record_path(self.root_text(), "video-clip-queue.json"@),
    {
        self.record("video-clip-queue.json")
    }

    /// `.capy/video-clip-proposal.json`: the current proposal.
    pub fn video_clip_proposal_path(&self) -> (s: String)
        ensures
            s@ == record_path(self.root_text(), "video-clip-proposal.json"@),
    {
        self.record("video-clip-proposal.json")
    }

    /// `.capy/video-clip-proposal-history.json`: every proposal made.
    pub fn video_clip_proposal_history_path(&self) -> (s: String)
        ensures
            s@ == record_path(self.root_text(), "video-clip-proposal-history.json"@),
    {
        self.record("video-clip-proposal-history.json")
    }

    /// `.capy/video-clip-feedback.json`: the PM's clip feedback.
    pub fn video_clip_feedback_path(&self) -> (s: String)
        ensures
            s@ == record_path(self.root_text(), "video-clip-feedback.json"@),
    {
        self.record("video-clip-feedback.json")
    }

    /// `.capy/video-clip-semantics.json`: the clip notes.
    pub fn video_clip_semantics_path(&self) -> (s: String)
        ensures
            s@ == record_path(self.root_text(), "video-clip-semantics.json"@),
    {
        self.record("video-clip-semantics.json")
    }
}

/// Where a run record is written, relative to the root:
/// `.capy/runs/<id>.json`.
pub fn run_record_path(run_id: &str) -> (s: String)
    ensures
        s@ == ".capy/runs/"@ + run_id@ + ".json"@,
{
    let mut s = lit(".capy/runs/");
    s.append(run_id);
    s.append(".json");
    s
}

} // verus!
