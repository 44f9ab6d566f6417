//! Records of the project package (`.capy/*.json`), as the rules read them.

use vstd::prelude::*;
use crate::mp4::verdict::lit;
use crate::render_source::eq_lit;
use crate::text::chars_of;

verus! {

/// What an artifact of the project is.
#[derive(Debug, Clone, Copy, PartialEq, Eq, Structural)]
pub enum ArtifactKind {
    Html,
    Css,
    Js,
    Markdown,
    Image,
    Audio,
    Video,
    PosterJson,
    PptJson,
    CompositionJson,
    Other,
}

/// The canonical (kebab-case) name of an artifact kind.
pub open spec fn kind_name(k: ArtifactKind) -> Seq<char> {
    match k {
        ArtifactKind::Html => "html"@,
        ArtifactKind::Css => "css"@,
        ArtifactKind::Js => "js"@,
        ArtifactKind::Markdown => "markdown"@,
        ArtifactKind::Image => "image"@,
        ArtifactKind::Audio => "audio"@,
        ArtifactKind::Video => "video"@,
        ArtifactKind::PosterJson => "poster-json"@,
        ArtifactKind::PptJson => "ppt-json"@,
        ArtifactKind::CompositionJson => "composition-json"@,
        ArtifactKind::Other => "other"@,
    }
}

/// The kind a name denotes: the canonical names and their aliases
/// (`javascript`, `md`, snake_case forms, `deck-json`/`deck_json`).
pub open spec fn kind_named(s: Seq<char>) -> Option<ArtifactKind> {
    if s == "html"@ {
        Some(ArtifactKind::Html)
    } else if s == "css"@ {
        Some(ArtifactKind::Css)
    } else if s == "js"@ || s == "javascript"@ {
        Some(ArtifactKind::Js)
    } else if s == "markdown"@ || s == "md"@ {
        Some(ArtifactKind::Markdown)
    } else if s == "image"@ {
        Some(ArtifactKind::Image)
    } else if s == "audio"@ {
        Some(ArtifactKind::Audio)
    } else if s == "video"@ {
        Some(ArtifactKind::Video)
    } else if s == "poster-json"@ || s == "poster_json"@ {
        Some(ArtifactKind::PosterJson)
    } else if s == "ppt-json"@ || s == "ppt_json"@ || s == "deck-json"@ || s == "deck_json"@ {
        Some(ArtifactKind::PptJson)
    } else if s == "composition-json"@ || s == "composition_json"@ {
        Some(ArtifactKind::CompositionJson)
    } else if s == "other"@ {
        Some(ArtifactKind::Other)
    } else {
        None
    }
}

impl ArtifactKind {
    /// The canonical name.
    pub fn as_str(&self) -> (s: &'static str)
        ensures
            s@ == kind_name(*self),
    {
        match self {
            ArtifactKind::Html => "html",
            ArtifactKind::Css => "css",
            ArtifactKind::Js => "js",
            ArtifactKind::Markdown => "markdown",
            ArtifactKind::Image => "image",
            ArtifactKind::Audio => "audio",
            ArtifactKind::Video => "video",
            ArtifactKind::PosterJson => "poster-json",
            ArtifactKind::PptJson => "ppt-json",
            ArtifactKind::CompositionJson => "composition-json",
            ArtifactKind::Other => "other",
        }
    }

    /// Parses a kind name; `invalid artifact kind: <value>` otherwise.
    pub fn parse(value: &str) -> (r: Result<ArtifactKind, String>)
        ensures
            match kind_named(value@) {
                Some(k) => r == Ok::<ArtifactKind, String>(k),
                None => r matches Err(m) && m@ == "invalid artifact kind: "@ + value@,
            },
    {
        let cs = chars_of(value);
        let v = cs.as_slice();
        if eq_lit(v, "html") {
            Ok(ArtifactKind::Html)
        } else if eq_lit(v, "css") {
            Ok(ArtifactKind::Css)
        } else if eq_lit(v, "js") || eq_lit(v, "javascript") {
            Ok(ArtifactKind::Js)
        } else if eq_lit(v, "markdown") || eq_lit(v, "md") {
            Ok(ArtifactKind::Markdown)
        } else if eq_lit(v, "image") {
            Ok(ArtifactKind::Image)
        } else if eq_lit(v, "audio") {
            Ok(ArtifactKind::Audio)
        } else if eq_lit(v, "video") {
            Ok(ArtifactKind::Video)
        } else if eq_lit(v, "poster-json") || eq_lit(v, "poster_json") {
            Ok(ArtifactKind::PosterJson)
        } else if eq_lit(v, "ppt-json") || eq_lit(v, "ppt_json") || eq_lit(v, "deck-json") || eq_lit(
            v,
            "deck_json",
        ) {
            Ok(ArtifactKind::PptJson)
        } else if eq_lit(v, "composition-json") || eq_lit(v, "composition_json") {
            Ok(ArtifactKind::CompositionJson)
        } else if eq_lit(v, "other") {
            Ok(ArtifactKind::Other)
        } else {
            let mut m = lit("invalid artifact kind: ");
            m.append(value);
            Err(m)
        }
    }
}

impl std::str::FromStr for ArtifactKind {
    type Err = String;

    fn from_str(value: &str) -> (r: Result<Self, Self::Err>)
        ensures
            match kind_named(value@) {
                Some(k) => r == Ok::<ArtifactKind, String>(k),
                None => r matches Err(m) && m@ == "invalid artifact kind: "@ + value@,
            },
    {
        ArtifactKind::parse(value)
    }
}

/// Every kind's canonical name parses back to that kind.
pub proof fn lemma_kind_name_round_trip(k: ArtifactKind)
    ensures
        kind_named(kind_name(k)) == Some(k),
{
    reveal_strlit("html");
    reveal_strlit("css");
    reveal_strlit("js");
    reveal_strlit("javascript");
    reveal_strlit("markdown");
    reveal_strlit("md");
    reveal_strlit("image");
    reveal_strlit("audio");
    reveal_strlit("video");
    reveal_strlit("poster-json");
    reveal_strlit("poster_json");
    reveal_strlit("ppt-json");
    reveal_strlit("ppt_json");
    reveal_strlit("deck-json");
    reveal_strlit("deck_json");
    reveal_strlit("composition-json");
    reveal_strlit("composition_json");
    reveal_strlit("other");
    assert("html"@.len() == 4);
    assert("css"@.len() == 3);
    assert("js"@.len() == 2);
    assert("javascript"@.len() == 10);
    assert("markdown"@.len() == 8);
    assert("md"@.len() == 2);
    assert("image"@.len() == 5);
    assert("audio"@.len() == 5);
    assert("video"@.len() == 5);
    assert("poster-json"@.len() == 11);
    assert("poster_json"@.len() == 11);
    assert("ppt-json"@.len() == 8);
    assert("ppt_json"@.len() == 8);
    assert("deck-json"@.len() == 9);
    assert("deck_json"@.len() == 9);
    assert("composition-json"@.len() == 16);
    assert("composition_json"@.len() == 16);
    assert("other"@.len() == 5);
    match k {
        ArtifactKind::Html => {},
        ArtifactKind::Css => {},
        ArtifactKind::Js => {},
        ArtifactKind::Markdown => {},
        ArtifactKind::Image => {},
        ArtifactKind::Audio => {
            assert("audio"@[0] != "image"@[0]);
        },
        ArtifactKind::Video => {
            assert("video"@[0] != "image"@[0]);
            assert("video"@[0] != "audio"@[0]);
        },
        ArtifactKind::PosterJson => {},
        ArtifactKind::PptJson => {
            assert("ppt-json"@[0] != "markdown"@[0]);
        },
        ArtifactKind::CompositionJson => {},
        ArtifactKind::Other => {
            assert("other"@[0] != "image"@[0]);
            assert("other"@[0] != "audio"@[0]);
            assert("other"@[0] != "video"@[0]);
        },
    }
}

/// Every name that parses is either that kind's canonical name or an alias
/// of it, and parsing is a function of the name: distinct kinds have
/// distinct canonical names.
pub proof fn lemma_kind_names_distinct(a: ArtifactKind, b: ArtifactKind)
    ensures
        kind_name(a) == kind_name(b) ==> a == b,
{
    lemma_kind_name_round_trip(a);
    lemma_kind_name_round_trip(b);
}

/// The project's own record (`.capy/project.json`).
#[derive(Debug, Clone)]
pub struct ProjectManifestV1 {
    pub schema_version: String,
    pub id: String,
    pub name: String,
    pub root: String,
    pub created_at: u64,
    pub updated_at: u64,
}

/// The design language of the project (`.capy/design-language.json`).
#[derive(Debug, Clone)]
pub struct DesignLanguageManifestV1 {
    pub schema_version: String,
    pub id: String,
    pub name: String,
    pub version: String,
    pub summary: String,
    pub updated_at: u64,
    pub assets: Vec<DesignLanguageAssetV1>,
}

/// One asset of the design language: tokens, rules, references, examples.
#[derive(Debug, Clone)]
pub struct DesignLanguageAssetV1 {
    pub id: String,
    pub kind: String,
    pub role: Option<String>,
    pub path: String,
    pub title: String,
    pub description: Option<String>,
}

/// The text fields of an asset: id, kind, role, path, title, description.
pub type AssetView = (Seq<char>, Seq<char>, Option<Seq<char>>, Seq<char>, Seq<char>, Option<Seq<char>>);

pub open spec fn opt_text(o: Option<String>) -> Option<Seq<char>> {
    match o {
        Some(s) => Some(s@),
        None => None,
    }
}

pub open spec fn asset_view(a: DesignLanguageAssetV1) -> AssetView {
    (a.id@, a.kind@, opt_text(a.role), a.path@, a.title@, opt_text(a.description))
}

/// Counts of the design language's assets by what they serve as.
#[derive(Debug, Clone)]
pub struct DesignLanguageSummaryV1 {
    pub name: String,
    pub version: String,
    pub summary: String,
    pub design_language_ref: String,
    pub asset_count: usize,
    pub token_count: usize,
    pub reference_image_count: usize,
    pub rule_count: usize,
    pub example_count: usize,
}

/// What was found on disk for one design language asset.
#[derive(Debug, Clone)]
pub struct DesignLanguageAssetStatusV1 {
    pub id: String,
    pub kind: String,
    pub role: Option<String>,
    pub path: String,
    pub title: String,
    pub exists: bool,
    pub bytes: Option<u64>,
    pub error: Option<String>,
}

/// Report of `capy design-language validate`.
#[derive(Debug, Clone)]
pub struct DesignLanguageValidationV1 {
    pub schema_version: String,
    pub ok: bool,
    pub project_id: String,
    pub project_name: String,
    pub design_language_ref: String,
    pub summary: DesignLanguageSummaryV1,
    pub assets: Vec<DesignLanguageAssetStatusV1>,
    pub errors: Vec<String>,
    pub generated_at: u64,
}

/// Report of `capy design-language inspect`.
#[derive(Debug, Clone)]
pub struct DesignLanguageInspectionV1 {
    pub schema_version: String,
    pub project_id: String,
    pub project_name: String,
    pub design_language_ref: String,
    pub summary: DesignLanguageSummaryV1,
    pub manifest: DesignLanguageManifestV1,
    pub assets: Vec<DesignLanguageAssetStatusV1>,
    pub generated_at: u64,
}

/// What a context package is built for: an artifact and an optional
/// selection in it.
#[derive(Debug, Clone)]
pub struct ContextBuildRequest {
    pub artifact_id: String,
    pub selector: Option<String>,
    pub canvas_node: Option<String>,
    pub json_pointer: Option<String>,
}

/// One artifact of the project registry (`.capy/artifacts.json`). Its
/// provenance record is carried as JSON text.
#[derive(Debug, Clone)]
pub struct ArtifactRefV1 {
    pub id: String,
    pub kind: ArtifactKind,
    pub title: String,
    pub source_path: String,
    pub source_refs: Vec<String>,
    pub output_refs: Vec<String>,
    pub design_language_refs: Vec<String>,
    pub asset_refs: Vec<String>,
    pub provenance: Option<String>,
    pub evidence_refs: Vec<String>,
    pub updated_at: u64,
}

} // verus!
