//! Selection context: what part of an artifact a request points at (an
//! HTML section, a JSON pointer or a canvas node), with the selected text
//! when it resolves and the reason when it does not.

use vstd::prelude::*;
use crate::mp4::verdict::lit;
use crate::project::ids::{copy_span, strip_scan, strip_tags};
use crate::project::model::{ArtifactKind, ContextBuildRequest};
use crate::project::queue::{copy_opt, copy_text, opt_view};
use crate::render_source::{starts_with, starts_with_chars};
use crate::text::{chars_of, find, find_chars, find_chars_from, find_from, is_whitespace, is_ws, string_from_chars, trim, trim_chars};

verus! {

/// The selection context of a request (bounds are not part of it: nothing
/// here measures them).
pub struct SelectionContextV1 {
    pub schema_version: String,
    pub scope: String,
    pub kind: String,
    pub artifact_id: String,
    pub source_path: String,
    pub surface_node_id: Option<String>,
    pub selector: Option<String>,
    pub json_pointer: Option<String>,
    pub selected_text: Option<String>,
    pub selected_json: Option<String>,
    pub fallback_reason: Option<String>,
    pub verification_requirements: Vec<String>,
}

/// The section name in a `[data-capy-section="<name>"]` selector.
pub open spec fn section_attr(selector: Seq<char>) -> Option<Seq<char>> {
    let p = "[data-capy-section=\""@;
    let s = "\"]"@;
    if starts_with(selector, p) && selector.len() >= p.len() + s.len() && selector.subrange(
        selector.len() - s.len(),
        selector.len() as int,
    ) == s {
        Some(selector.subrange(p.len() as int, selector.len() - s.len()))
    } else {
        None
    }
}

/// The last `<` before index `end`.
pub open spec fn last_open_before(s: Seq<char>, end: int) -> Option<int>
    decreases end,
{
    if end <= 0 {
        None
    } else if s[end - 1] == '<' {
        Some(end - 1)
    } else {
        last_open_before(s, end - 1)
    }
}

/// The first index at or after `from` that ends a tag name: whitespace,
/// `>` or `/`.
pub open spec fn tag_name_end(s: Seq<char>, from: int) -> Option<int>
    decreases s.len() - from,
{
    if from < 0 || from >= s.len() {
        None
    } else if is_ws(s[from]) || s[from] == '>' || s[from] == '/' {
        Some(from)
    } else {
        tag_name_end(s, from + 1)
    }
}

/// The text of the element that carries `data-capy-section="<name>"`: the
/// tags of its content stripped and the result trimmed, or nothing when
/// the selector has another form, the element is not found, or its text is
/// blank.
pub open spec fn spec_selected_html_text(source: Seq<char>, selector: Seq<char>) -> Option<Seq<char>> {
    match section_attr(selector) {
        None => None,
        Some(attr) => match find(source, "data-capy-section=\""@ + attr + "\""@) {
            None => None,
            Some(at) => match last_open_before(source, at) {
                None => None,
                Some(tag_start) => match tag_name_end(source, tag_start + 1) {
                    None => None,
                    Some(name_end) => match find_from(source, ">"@, at) {
                        None => None,
                        Some(gt) => match find_from(
                            source,
                            "</"@ + source.subrange(tag_start + 1, name_end) + ">"@,
                            gt + 1,
                        ) {
                            None => None,
                            Some(close) => {
                                let t = trim(strip_scan(source.subrange(gt + 1, close)).0);
                                if t.len() > 0 {
                                    Some(t)
                                } else {
                                    None
                                }
                            },
                        },
                    },
                },
            },
        },
    }
}

fn last_open(s: &[char], end: usize) -> (r: Option<usize>)
    requires
        end <= s.len(),
    ensures
        match r {
            Some(i) => last_open_before(s@, end as int) == Some(i as int) && i < end,
            None => last_open_before(s@, end as int) is None,
        },
{
    let mut i: usize = end;
    while i > 0
        invariant
            i <= end,
            end <= s.len(),
            last_open_before(s@, end as int) == last_open_before(s@, i as int),
        decreases i,
    {
        if s[i - 1] == '<' {
            return Some(i - 1);
        }
        i = i - 1;
    }
    None
}

fn name_end(s: &[char], from: usize) -> (r: Option<usize>)
    ensures
        match r {
            Some(i) => tag_name_end(s@, from as int) == Some(i as int) && from <= i < s.len(),
            None => tag_name_end(s@, from as int) is None,
        },
{
    let mut i: usize = from;
    while i < s.len()
        invariant
            from <= i,
            tag_name_end(s@, from as int) == tag_name_end(s@, i as int),
        decreases s.len() - i,
    {
        if is_whitespace(s[i]) || s[i] == '>' || s[i] == '/' {
            return Some(i);
        }
        i = i + 1;
    }
    None
}

fn ends_with_lit(s: &[char], p: &str) -> (r: bool)
    ensures
        r == (s@.len() >= p@.len() && s@.subrange(s@.len() - p@.len(), s@.len() as int) == p@),
{
    let pc = chars_of(p);
    if pc.len() > s.len() {
        return false;
    }
    let off = s.len() - pc.len();
    let mut i: usize = 0;
    while i < pc.len()
        invariant
            i <= pc.len(),
            off + pc.len() == s.len(),
            pc@ == p@,
            forall|k: int| 0 <= k < i ==> s@[off + k] == pc@[k],
        decreases pc.len() - i,
    {
        if s[off + i] != pc[i] {
            proof {
                assert(s@.subrange(off as int, s@.len() as int)[i as int] != p@[i as int]);
            }
            return false;
        }
        i = i + 1;
    }
    assert(s@.subrange(off as int, s@.len() as int) =~= pc@);
    true
}

/// The text of the HTML element a `[data-capy-section="<name>"]` selector
/// names.
pub fn selected_html_text(source: &str, selector: &str) -> (r: Option<String>)
    ensures
        opt_view(r) == spec_selected_html_text(source@, selector@),
{
    let sel = chars_of(selector);
    let prefix = "[data-capy-section=\"";
    proof {
        reveal_strlit("[data-capy-section=\"");
        reveal_strlit("\"]");
    }
    if !starts_with_chars(sel.as_slice(), prefix) || !ends_with_lit(sel.as_slice(), "\"]") || sel.len() < 22 {
        return None;
    }
    let attr = copy_span(sel.as_slice(), 20, sel.len() - 2);
    let mut needle = chars_of("data-capy-section=\"");
    let mut k: usize = 0;
    while k < attr.len()
        invariant
            k <= attr.len(),
            needle@ == "data-capy-section=\""@ + attr@.take(k as int),
        decreases attr.len() - k,
    {
        needle.push(attr[k]);
        proof {
            assert(attr@.take(k + 1) =~= attr@.take(k as int).push(attr@[k as int]));
        }
        k = k + 1;
    }
    needle.push('"');
    proof {
        assert(attr@.take(attr.len() as int) =~= attr@);
        reveal_strlit("\"");
        assert(needle@ =~= "data-capy-section=\""@ + attr@ + "\""@);
    }
    let src = chars_of(source);
    let s = src.as_slice();
    let at = match find_chars(s, needle.as_slice()) {
        Some(i) => i,
        None => {
            return None;
        },
    };
    let tag_start = match last_open(s, at) {
        Some(i) => i,
        None => {
            return None;
        },
    };
    let end = match name_end(s, tag_start + 1) {
        Some(i) => i,
        None => {
            return None;
        },
    };
    let gt_needle = chars_of(">");
    let gt = match find_chars_from(s, gt_needle.as_slice(), at) {
        Some(i) => i,
        None => {
            return None;
        },
    };
    proof {
        reveal_strlit(">");
    }
    let open_end = gt + 1;
    let name = copy_span(s, tag_start + 1, end);
    let mut close = chars_of("</");
    let mut j: usize = 0;
    while j < name.len()
        invariant
            j <= name.len(),
            close@ == "</"@ + name@.take(j as int),
        decreases name.len() - j,
    {
        close.push(name[j]);
        proof {
            assert(name@.take(j + 1) =~= name@.take(j as int).push(name@[j as int]));
        }
        j = j + 1;
    }
    close.push('>');
    proof {
        assert(name@.take(name.len() as int) =~= name@);
        assert(close@ =~= "</"@ + name@ + ">"@);
    }
    let close_start = match find_chars_from(s, close.as_slice(), open_end) {
        Some(i) => i,
        None => {
            return None;
        },
    };
    let inner = copy_span(s, open_end, close_start);
    let inner_s = string_from_chars(inner.as_slice());
    let text = strip_tags(inner_s.as_str());
    let tc = chars_of(text.as_str());
    let t = trim_chars(tc.as_slice());
    if t.len() > 0 {
        Some(string_from_chars(t.as_slice()))
    } else {
        None
    }
}

/// What serde_json finds at `pointer` in the JSON text `source`: `None`
/// when `source` is not JSON, else the compact JSON text of the value there,
/// if any.
pub uninterp spec fn json_pointer_text(source: Seq<char>, pointer: Seq<char>) -> Option<Option<Seq<char>>>;

/// serde_json: parses `source` (`from_str`), looks up `pointer`
/// (`Value::pointer`) and writes what it finds as compact JSON
/// (`to_string`).
#[verifier::external_body]
fn json_pointer_select(source: &str, pointer: &str) -> (r: Option<Option<String>>)
    ensures
        match r {
            None => json_pointer_text(source@, pointer@) is None,
            Some(None) => json_pointer_text(source@, pointer@) == Some(None::<Seq<char>>),
            Some(Some(t)) => json_pointer_text(source@, pointer@) == Some(Some(t@)),
        },
{
    let value: serde_json::Value = match serde_json::from_str(source) {
        Ok(v) => v,
        Err(_) => return None,
    };
    match value.pointer(pointer) {
        Some(v) => Some(Some(match serde_json::to_string(v) {
            Ok(t) => t,
            Err(_) => "null".to_string(),
        })),
        None => Some(None),
    }
}

/// The checks every selection context asks of the work done on it.
pub open spec fn verification_requirements() -> Seq<Seq<char>> {
    seq![
        "Prompt must name the selected target and containing artifact."@,
        "Review diff must not silently mutate unrelated source."@,
    ]
}

/// `c` is a selection context with the given fields.
pub open spec fn context_is(
    c: SelectionContextV1,
    scope: Seq<char>,
    kind: Seq<char>,
    artifact_id: Seq<char>,
    source_path: Seq<char>,
    surface_node_id: Option<Seq<char>>,
    selector: Option<Seq<char>>,
    json_pointer: Option<Seq<char>>,
    selected_text: Option<Seq<char>>,
    selected_json: Option<Seq<char>>,
    fallback_reason: Option<Seq<char>>,
) -> bool {
    &&& c.schema_version@ == "capy.selection-context.v1"@
    &&& c.scope@ == scope
    &&& c.kind@ == kind
    &&& c.artifact_id@ == artifact_id
    &&& c.source_path@ == source_path
    &&& opt_view(c.surface_node_id) == surface_node_id
    &&& opt_view(c.selector) == selector
    &&& opt_view(c.json_pointer) == json_pointer
    &&& opt_view(c.selected_text) == selected_text
    &&& opt_view(c.selected_json) == selected_json
    &&& opt_view(c.fallback_reason) == fallback_reason
    &&& c.verification_requirements@.map_values(|s: String| s@) == verification_requirements()
}

fn base_context(artifact_id: &str, source_path: &str, canvas_node: &Option<String>, scope: &str, kind: &str) -> (c: SelectionContextV1)
    ensures
        context_is(c, scope@, kind@, artifact_id@, source_path@, opt_view(*canvas_node), None, None, None, None, None),
{
    let mut reqs: Vec<String> = Vec::new();
    reqs.push(lit("Prompt must name the selected target and containing artifact."));
    reqs.push(lit("Review diff must not silently mutate unrelated source."));
    proof {
        assert(reqs@.map_values(|s: String| s@) =~= verification_requirements());
    }
    SelectionContextV1 {
        schema_version: lit("capy.selection-context.v1"),
        scope: lit(scope),
        kind: lit(kind),
        artifact_id: lit(artifact_id),
        source_path: lit(source_path),
        surface_node_id: copy_opt(canvas_node),
        selector: None,
        json_pointer: None,
        selected_text: None,
        selected_json: None,
        fallback_reason: None,
        verification_requirements: reqs,
    }
}

/// `r` is the selection context a request asks for in an artifact.
pub open spec fn is_selection_for(
    r: Option<SelectionContextV1>,
    artifact_id: Seq<char>,
    artifact_kind: ArtifactKind,
    source_path: Seq<char>,
    request: ContextBuildRequest,
    source: Seq<char>,
) -> bool {
    let canvas = opt_view(request.canvas_node);
    match (opt_view(request.selector), opt_view(request.json_pointer)) {
        (Some(sel), _) => r matches Some(c) && if !(artifact_kind is Html) {
            context_is(c, "artifact"@, "file"@, artifact_id, source_path, canvas, None, None, None, None,
                Some("selector "@ + sel + " is only deeply supported for html artifacts"@))
        } else {
            match spec_selected_html_text(source, sel) {
                Some(t) => context_is(c, "sub-artifact"@, "html-section"@, artifact_id, source_path, canvas,
                    Some(sel), None, Some(t), None, None),
                None => context_is(c, "artifact"@, "file"@, artifact_id, source_path, canvas, Some(sel), None,
                    None, None, Some("selector "@ + sel + " did not resolve in source"@)),
            }
        },
        (None, Some(p)) => r matches Some(c) && match json_pointer_text(source, p) {
            None => context_is(c, "artifact"@, "file"@, artifact_id, source_path, canvas, None, None, None,
                None, Some("json pointer "@ + p + " requires a JSON artifact source"@)),
            Some(Some(t)) => context_is(c, "sub-artifact"@, "json-pointer"@, artifact_id, source_path, canvas,
                None, Some(p), Some(t), Some(t), None),
            Some(None) => context_is(c, "artifact"@, "file"@, artifact_id, source_path, canvas, None, Some(p),
                None, None, Some("json pointer "@ + p + " did not resolve"@)),
        },
        (None, None) => match canvas {
            Some(n) => r matches Some(c) && context_is(c, "artifact"@, "canvas-node"@, artifact_id,
                source_path, Some(n), None, None, None, None, None),
            None => r is None,
        },
    }
}

/// The selection context a request asks for, in order of precedence: an
/// HTML section selector (resolved in HTML sources only), a JSON pointer
/// (resolved in JSON sources), a canvas node; none when the request names
/// none of them. `source` is the artifact's source text (read only for a
/// selector or a pointer). When a selection does not resolve the context
/// falls back to the whole file and says why.
pub fn build_selection_context(
    artifact_id: &str,
    artifact_kind: &ArtifactKind,
    source_path: &str,
    request: &ContextBuildRequest,
    source: &str,
) -> (r: Option<SelectionContextV1>)
    ensures
        is_selection_for(r, artifact_id@, *artifact_kind, source_path@, *request, source@),
{
    if let Some(sel) = &request.selector {
        if !matches!(artifact_kind, ArtifactKind::Html) {
            let mut c = base_context(artifact_id, source_path, &request.canvas_node, "artifact", "file");
            let mut reason = lit("selector ");
            reason.append(sel.as_str());
            reason.append(" is only deeply supported for html artifacts");
            c.fallback_reason = Some(reason);
            return Some(c);
        }
        let text = selected_html_text(source, sel.as_str());
        match text {
            Some(t) => {
                let mut c = base_context(artifact_id, source_path, &request.canvas_node, "sub-artifact", "html-section");
                c.selector = Some(copy_text(sel));
                c.selected_text = Some(t);
                return Some(c);
            },
            None => {
                let mut c = base_context(artifact_id, source_path, &request.canvas_node, "artifact", "file");
                c.selector = Some(copy_text(sel));
                let mut reason = lit("selector ");
                reason.append(sel.as_str());
                reason.append(" did not resolve in source");
                c.fallback_reason = Some(reason);
                return Some(c);
            },
        }
    }
    if let Some(p) = &request.json_pointer {
        match json_pointer_select(source, p.as_str()) {
            None => {
                let mut c = base_context(artifact_id, source_path, &request.canvas_node, "artifact", "file");
                let mut reason = lit("json pointer ");
                reason.append(p.as_str());
                reason.append(" requires a JSON artifact source");
                c.fallback_reason = Some(reason);
                return Some(c);
            },
            Some(Some(t)) => {
                let mut c = base_context(artifact_id, source_path, &request.canvas_node, "sub-artifact", "json-pointer");
                c.json_pointer = Some(copy_text(p));
                c.selected_text = Some(copy_text(&t));
                c.selected_json = Some(t);
                return Some(c);
            },
            Some(None) => {
                let mut c = base_context(artifact_id, source_path, &request.canvas_node, "artifact", "file");
                c.json_pointer = Some(copy_text(p));
                let mut reason = lit("json pointer ");
                reason.append(p.as_str());
                reason.append(" did not resolve");
                c.fallback_reason = Some(reason);
                return Some(c);
            },
        }
    }
    if request.canvas_node.is_some() {
        return Some(base_context(artifact_id, source_path, &request.canvas_node, "artifact", "canvas-node"));
    }
    None
}

} // verus!
