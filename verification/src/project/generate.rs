//! Generation requests: their checks, the command a live provider would
//! run, the offline fixture edit of a source file, and the registry update
//! that records a generation run.

use vstd::prelude::*;
use crate::mp4::verdict::lit;
use crate::project::json::{
    json_compact, json_kind, json_kind_of, json_members_set, json_parse_failure, json_parse_problem, json_set_members,
    json_text, json_view, member_texts, JsonKind, JsonValue, JsonView,
};
use crate::project::model::{opt_text, ArtifactKind, ArtifactRefV1};
use crate::text::texts;
use crate::project::proposal::same_text;
use crate::project::queue::{copy_opt, copy_text, copy_texts};
use crate::text::{chars_of, find_chars_from, push_char, find_from, lemma_find_from_spec, string_from_chars, trim, trim_chars};

verus! {

/// A request to generate a new version of one artifact.
#[derive(Debug, Clone)]
pub struct ProjectGenerateRequestV1 {
    pub artifact_id: String,
    pub provider: String,
    pub prompt: String,
    pub dry_run: bool,
    pub review: bool,
}

/// The list of names in prose: `a`, `a or b`, `a, b, or c`.
pub open spec fn names_in_prose(names: Seq<Seq<char>>) -> Seq<char>
    decreases names.len(),
{
    if names.len() == 0 {
        seq![]
    } else if names.len() == 1 {
        names[0]
    } else if names.len() == 2 {
        names[0] + " or "@ + names[1]
    } else {
        names[0] + ", "@ + names_tail_in_prose(names.drop_first())
    }
}

/// The rest of a list of three or more names in prose: `b, or c`.
pub open spec fn names_tail_in_prose(names: Seq<Seq<char>>) -> Seq<char>
    decreases names.len(),
{
    if names.len() <= 1 {
        "or "@ + (if names.len() == 1 {
            names[0]
        } else {
            seq![]
        })
    } else {
        names[0] + ", "@ + names_tail_in_prose(names.drop_first())
    }
}

pub open spec fn str_texts(v: Seq<&str>) -> Seq<Seq<char>> {
    v.map_values(|s: &str| s@)
}

/// Why a generation request is refused, in the order checked, or `None`:
/// a blank artifact id, a blank prompt, a provider not among `providers`.
pub open spec fn request_problem(artifact_id: Seq<char>, prompt: Seq<char>, provider: Seq<char>, providers: Seq<Seq<char>>) -> Option<Seq<char>> {
    if trim(artifact_id).len() == 0 {
        Some("artifact id is required"@)
    } else if trim(prompt).len() == 0 {
        Some("prompt is required"@)
    } else if !providers.contains(provider) {
        Some("invalid provider "@ + provider + "; expected "@ + names_in_prose(providers))
    } else {
        None
    }
}

fn prose_list(names: &[&str]) -> (s: String)
    ensures
        s@ == names_in_prose(str_texts(names@)),
{
    let ghost all = str_texts(names@);
    if names.len() == 0 {
        return String::new();
    }
    if names.len() == 1 {
        return lit(names[0]);
    }
    if names.len() == 2 {
        let mut s = lit(names[0]);
        s.append(" or ");
        s.append(names[1]);
        return s;
    }
    let mut s = lit(names[0]);
    s.append(", ");
    let mut i: usize = 1;
    while i + 1 < names.len()
        invariant
            1 <= i < names.len(),
            names.len() >= 3,
            all == str_texts(names@),
            s@ + names_tail_in_prose(all.subrange(i as int, all.len() as int)) == names_in_prose(all),
        decreases names.len() - i,
    {
        proof {
            let rest = all.subrange(i as int, all.len() as int);
            assert(rest.drop_first() =~= all.subrange(i + 1, all.len() as int));
        }
        s.append(names[i]);
        s.append(", ");
        i = i + 1;
    }
    proof {
        let rest = all.subrange(i as int, all.len() as int);
        assert(rest.len() == 1);
        assert(all.drop_first() =~= all.subrange(1, all.len() as int));
    }
    s.append("or ");
    s.append(names[i]);
    s
}

fn has_name(names: &[&str], name: &str) -> (r: bool)
    ensures
        r == str_texts(names@).contains(name@),
{
    let mut i: usize = 0;
    while i < names.len()
        invariant
            i <= names.len(),
            forall|k: int| 0 <= k < i ==> str_texts(names@)[k] != name@,
        decreases names.len() - i,
    {
        if same_text(names[i], name) {
            proof {
                assert(str_texts(names@)[i as int] == name@);
            }
            return true;
        }
        i = i + 1;
    }
    false
}

/// Checks a generation request against the providers the tool knows.
pub fn validate_request(request: &ProjectGenerateRequestV1, providers: &[&str]) -> (r: Result<(), String>)
    ensures
        match request_problem(request.artifact_id@, request.prompt@, request.provider@, str_texts(providers@)) {
            Some(m) => r matches Err(e) && e@ == m,
            None => r is Ok,
        },
{
    let id = chars_of(request.artifact_id.as_str());
    let id_t = trim_chars(id.as_slice());
    if id_t.len() == 0 {
        return Err(lit("artifact id is required"));
    }
    let p = chars_of(request.prompt.as_str());
    let p_t = trim_chars(p.as_slice());
    if p_t.len() == 0 {
        return Err(lit("prompt is required"));
    }
    if !has_name(providers, request.provider.as_str()) {
        let mut m = lit("invalid provider ");
        m.append(request.provider.as_str());
        m.append("; expected ");
        let list = prose_list(providers);
        m.append(list.as_str());
        return Err(m);
    }
    Ok(())
}

/// The prompt handed to a live provider.
pub open spec fn spec_live_prompt(artifact_id: Seq<char>, source_path: Seq<char>, prompt: Seq<char>) -> Seq<char> {
    "Use Capybara project context. Update only artifact "@ + artifact_id + " at "@ + source_path + ". User request: "@
        + prompt
}

/// The prompt handed to a live provider.
pub fn live_prompt(artifact_id: &str, source_path: &str, prompt: &str) -> (s: String)
    ensures
        s@ == spec_live_prompt(artifact_id@, source_path@, prompt@),
{
    let mut s = lit("Use Capybara project context. Update only artifact ");
    s.append(artifact_id);
    s.append(" at ");
    s.append(source_path);
    s.append(". User request: ");
    s.append(prompt);
    s
}

/// The command a generation runs (or would run): the offline fixture
/// command, or the agent SDK run of a live provider in the project root.
pub open spec fn spec_command_preview(
    provider: Seq<char>,
    root: Seq<char>,
    artifact_id: Seq<char>,
    source_path: Seq<char>,
    prompt: Seq<char>,
) -> Seq<Seq<char>> {
    if provider == "fixture"@ {
        seq!["capy"@, "project"@, "generate"@, "--provider"@, "fixture"@, "--artifact"@, artifact_id]
    } else {
        seq![
            "target/debug/capy"@,
            "agent"@,
            "sdk"@,
            "run"@,
            "--provider"@,
            provider,
            "--cwd"@,
            root,
            "--write-code"@,
            "--prompt"@,
            spec_live_prompt(artifact_id, source_path, prompt),
        ]
    }
}

/// The command a generation runs. `root` is the project root as printed.
pub fn command_preview(provider: &str, root: &str, artifact_id: &str, source_path: &str, prompt: &str) -> (v: Vec<String>)
    ensures
        texts(v@) == spec_command_preview(provider@, root@, artifact_id@, source_path@, prompt@),
{
    let mut v: Vec<String> = Vec::new();
    if same_text(provider, "fixture") {
        v.push(lit("capy"));
        v.push(lit("project"));
        v.push(lit("generate"));
        v.push(lit("--provider"));
        v.push(lit("fixture"));
        v.push(lit("--artifact"));
        v.push(lit(artifact_id));
        proof {
            assert(texts(v@) =~= spec_command_preview(provider@, root@, artifact_id@, source_path@, prompt@));
        }
    } else {
        v.push(lit("target/debug/capy"));
        v.push(lit("agent"));
        v.push(lit("sdk"));
        v.push(lit("run"));
        v.push(lit("--provider"));
        v.push(lit(provider));
        v.push(lit("--cwd"));
        v.push(lit(root));
        v.push(lit("--write-code"));
        v.push(lit("--prompt"));
        v.push(live_prompt(artifact_id, source_path, prompt));
        proof {
            assert(texts(v@) =~= spec_command_preview(provider@, root@, artifact_id@, source_path@, prompt@));
        }
    }
    v
}

/// Every occurrence of `pat` at or after `from`, found left to right, with
/// `with` in its place (`str::replace`), for a non-empty `pat`.
pub open spec fn replace_all_from(s: Seq<char>, pat: Seq<char>, with: Seq<char>, from: int) -> Seq<char>
    decreases s.len() - from,
{
    if from < 0 || from > s.len() || pat.len() == 0 {
        seq![]
    } else {
        match find_from(s, pat, from) {
            None => s.subrange(from, s.len() as int),
            Some(i) => {
                proof {
                    lemma_find_from_spec(s, pat, from);
                }
                s.subrange(from, i) + with + replace_all_from(s, pat, with, i + pat.len())
            },
        }
    }
}

/// `with` before every character of `s` and once more at its end: what
/// `str::replace` gives for an empty pattern, which matches at every
/// character boundary.
pub open spec fn interleave(s: Seq<char>, with: Seq<char>) -> Seq<char>
    decreases s.len(),
{
    if s.len() == 0 {
        with
    } else {
        with + seq![s[0]] + interleave(s.drop_first(), with)
    }
}

/// `s` with every occurrence of `pat` replaced by `with`.
pub open spec fn replace_all(s: Seq<char>, pat: Seq<char>, with: Seq<char>) -> Seq<char> {
    if pat.len() == 0 {
        interleave(s, with)
    } else {
        replace_all_from(s, pat, with, 0)
    }
}

fn push_span(out: &mut Vec<char>, cs: &[char], a: usize, b: usize)
    requires
        a <= b <= cs.len(),
    ensures
        final(out)@ == old(out)@ + cs@.subrange(a as int, b as int),
{
    let mut k: usize = a;
    while k < b
        invariant
            a <= k <= b,
            b <= cs.len(),
            out@ == old(out)@ + cs@.subrange(a as int, k as int),
        decreases b - k,
    {
        out.push(cs[k]);
        proof {
            assert(cs@.subrange(a as int, k + 1) =~= cs@.subrange(a as int, k as int).push(cs@[k as int]));
        }
        k = k + 1;
    }
}

proof fn lemma_replace_step(s: Seq<char>, pat: Seq<char>, with: Seq<char>, from: int)
    requires
        0 <= from <= s.len(),
        pat.len() > 0,
    ensures
        match find_from(s, pat, from) {
            None => replace_all_from(s, pat, with, from) == s.subrange(from, s.len() as int),
            Some(i) => from <= i && i + pat.len() <= s.len() && replace_all_from(s, pat, with, from) == s.subrange(from, i)
                + with + replace_all_from(s, pat, with, i + pat.len()),
        },
{
    lemma_find_from_spec(s, pat, from);
}

fn interleave_text(cs: &[char], with: &str) -> (r: String)
    ensures
        r@ == interleave(cs@, with@),
{
    let mut out = String::new();
    let mut i: usize = 0;
    proof {
        assert(cs@.skip(0) =~= cs@);
        assert(out@ + interleave(cs@.skip(0), with@) =~= interleave(cs@, with@));
    }
    while i < cs.len()
        invariant
            i <= cs.len(),
            out@ + interleave(cs@.skip(i as int), with@) == interleave(cs@, with@),
        decreases cs.len() - i,
    {
        proof {
            assert(cs@.skip(i as int).drop_first() =~= cs@.skip(i + 1));
            assert(cs@.skip(i as int)[0] == cs@[i as int]);
        }
        let ghost before = out@;
        out.append(with);
        push_char(&mut out, cs[i]);
        proof {
            assert(out@ + interleave(cs@.skip(i + 1), with@) =~= before + interleave(cs@.skip(i as int), with@));
        }
        i = i + 1;
    }
    proof {
        assert(cs@.skip(cs@.len() as int) =~= Seq::<char>::empty());
    }
    out.append(with);
    out
}

/// `s` with every occurrence of `pat` replaced by `with` (`str::replace`;
/// an empty pattern matches at every character boundary).
pub fn replace_text(s: &str, pat: &str, with: &str) -> (r: String)
    ensures
        r@ == replace_all(s@, pat@, with@),
{
    let cs = chars_of(s);
    let pc = chars_of(pat);
    if pc.len() == 0 {
        return interleave_text(cs.as_slice(), with);
    }
    let wc = chars_of(with);
    let mut out: Vec<char> = Vec::new();
    let mut from: usize = 0;
    loop
        invariant
            from <= cs.len(),
            pc@ == pat@,
            cs@ == s@,
            wc@ == with@,
            pat@.len() > 0,
            out@ + replace_all_from(s@, pat@, with@, from as int) == replace_all(s@, pat@, with@),
        decreases cs.len() - from,
    {
        proof {
            lemma_replace_step(s@, pat@, with@, from as int);
        }
        match find_chars_from(cs.as_slice(), pc.as_slice(), from) {
            None => {
                let ghost before = out@;
                push_span(&mut out, cs.as_slice(), from, cs.len());
                proof {
                    assert(out@ =~= before + replace_all_from(s@, pat@, with@, from as int));
                }
                return string_from_chars(out.as_slice());
            },
            Some(i) => {
                let ghost before = out@;
                push_span(&mut out, cs.as_slice(), from, i);
                push_span(&mut out, wc.as_slice(), 0, wc.len());
                proof {
                    assert(wc@.subrange(0, wc@.len() as int) =~= wc@);
                    let rest = replace_all_from(s@, pat@, with@, i + pat@.len());
                    assert(out@ + rest =~= before + replace_all_from(s@, pat@, with@, from as int));
                }
                from = i + pc.len();
            },
        }
    }
}

/// The prompt as it is put in markup: `<` and `>` escaped.
pub open spec fn escape_angles(s: Seq<char>) -> Seq<char>
    decreases s.len(),
{
    if s.len() == 0 {
        seq![]
    } else {
        escape_angles(s.drop_last()) + if s.last() == '<' {
            "&lt;"@
        } else if s.last() == '>' {
            "&gt;"@
        } else {
            seq![s.last()]
        }
    }
}

fn escape_angles_text(s: &str) -> (r: String)
    ensures
        r@ == escape_angles(s@),
{
    let cs = chars_of(s);
    let mut out = String::new();
    let mut i: usize = 0;
    while i < cs.len()
        invariant
            i <= cs.len(),
            cs@ == s@,
            out@ == escape_angles(cs@.take(i as int)),
        decreases cs.len() - i,
    {
        proof {
            assert(cs@.take(i + 1).drop_last() =~= cs@.take(i as int));
        }
        if cs[i] == '<' {
            out.append("&lt;");
        } else if cs[i] == '>' {
            out.append("&gt;");
        } else {
            crate::text::push_char(&mut out, cs[i]);
            proof {
                assert(seq![cs@[i as int]] =~= Seq::<char>::empty().push(cs@[i as int]));
            }
        }
        i = i + 1;
    }
    proof {
        assert(cs@.take(cs.len() as int) =~= cs@);
    }
    out
}

/// The generation record put into a JSON artifact: when, with which
/// prompt, by the fixture provider (keys in ascending order).
pub open spec fn generation_record(prompt: Seq<char>, generated_at: u64) -> JsonView {
    JsonView::Object(
        seq![
            ("generated_at"@, JsonView::Number(generated_at)),
            ("prompt"@, JsonView::Text(prompt)),
            ("provider"@, JsonView::Text("fixture"@)),
        ],
    )
}

/// The source a JSON artifact has after an offline generation: its JSON
/// (an object, or null taken as an empty object) with the generation
/// record under `capy_generation`, pretty-printed with a final newline;
/// serde_json's error text when it is not JSON; a refusal when it is
/// another value, which has no key to set.
pub open spec fn json_generation_edit(current: Seq<char>, prompt: Seq<char>, generated_at: u64) -> Result<Seq<char>, Seq<char>> {
    match json_kind_of(current) {
        Some(JsonKind::Other) => Err("the artifact JSON is neither an object nor null"@),
        Some(_) => Ok(
            json_members_set(current, seq![("capy_generation"@, json_compact(generation_record(prompt, generated_at)))])
                + "\n"@,
        ),
        None => Err(json_parse_problem(current).unwrap()),
    }
}

fn json_with_generation(current: &str, prompt: &str, generated_at: u64) -> (r: Result<String, String>)
    ensures
        match r {
            Ok(t) => json_generation_edit(current@, prompt@, generated_at) == Ok::<Seq<char>, Seq<char>>(t@),
            Err(e) => json_generation_edit(current@, prompt@, generated_at) == Err::<Seq<char>, Seq<char>>(e@),
        },
{
    match json_kind(current) {
        Some(JsonKind::Other) => Err(lit("the artifact JSON is neither an object nor null")),
        Some(_) => {
            let mut fields: Vec<(String, JsonValue)> = Vec::new();
            fields.push((lit("generated_at"), JsonValue::Number(generated_at)));
            fields.push((lit("prompt"), JsonValue::Text(lit(prompt))));
            fields.push((lit("provider"), JsonValue::Text(lit("fixture"))));
            let record = JsonValue::Object(fields);
            proof {
                let w = json_view(record);
                assert(json_view(fields@[0].1) == JsonView::Number(generated_at));
                assert(json_view(fields@[1].1) == JsonView::Text(prompt@));
                assert(json_view(fields@[2].1) == JsonView::Text("fixture"@));
                assert(w->Object_0 =~= generation_record(prompt@, generated_at)->Object_0);
                assert(w == generation_record(prompt@, generated_at));
            }
            let text = json_text(&record);
            let mut members: Vec<(String, String)> = Vec::new();
            members.push((lit("capy_generation"), text));
            proof {
                assert(member_texts(members@) =~= seq![("capy_generation"@, json_compact(generation_record(prompt@, generated_at)))]);
            }
            let mut out = json_set_members(current, members.as_slice());
            out.append("\n");
            Ok(out)
        },
        None => match json_parse_failure(current) {
            Some(e) => Err(e),
            None => Err(String::new()),
        },
    }
}

/// The source an artifact has after an offline (fixture) generation: a
/// draft section before `</body>` in HTML, a draft heading after Markdown,
/// a description before `</svg>` in an image, a generation record in JSON,
/// and a note after anything else.
pub open spec fn spec_fixture_source(
    kind: ArtifactKind,
    source_path: Seq<char>,
    current: Seq<char>,
    prompt: Seq<char>,
    generated_at: u64,
) -> Result<Seq<char>, Seq<char>> {
    let safe = escape_angles(prompt);
    match kind {
        ArtifactKind::Html => Ok(
            replace_all(
                current,
                "</body>"@,
                "  <section data-capy-generated=\"fixture\"><h2>Capybara CLI draft</h2><p>"@ + safe
                    + "</p></section>\n</body>"@,
            ),
        ),
        ArtifactKind::Markdown => Ok(current + "\n\n## Capybara CLI Draft\n\n"@ + prompt + "\n"@),
        ArtifactKind::Image => Ok(
            replace_all(current, "</svg>"@, "<desc>Capybara fixture generation: "@ + safe + "</desc></svg>"@),
        ),
        ArtifactKind::PosterJson | ArtifactKind::PptJson | ArtifactKind::CompositionJson => match json_generation_edit(
            current,
            prompt,
            generated_at,
        ) {
            Ok(t) => Ok(t),
            Err(e) => Err("parse artifact JSON "@ + source_path + ": "@ + e),
        },
        _ => Ok(current + "\n\nCapybara fixture generation: "@ + prompt + "\n"@),
    }
}

/// The source an artifact has after an offline (fixture) generation.
/// `generated_at` stamps the record put into JSON artifacts.
pub fn fixture_source(kind: &ArtifactKind, source_path: &str, current: &str, prompt: &str, generated_at: u64) -> (r: Result<String, String>)
    ensures
        match spec_fixture_source(*kind, source_path@, current@, prompt@, generated_at) {
            Ok(t) => r matches Ok(s) && s@ == t,
            Err(m) => r matches Err(e) && e@ == m,
        },
{
    proof {
        reveal_strlit("</body>");
        reveal_strlit("</svg>");
    }
    match kind {
        ArtifactKind::Html => {
            let safe = escape_angles_text(prompt);
            let mut with = lit("  <section data-capy-generated=\"fixture\"><h2>Capybara CLI draft</h2><p>");
            with.append(safe.as_str());
            with.append("</p></section>\n</body>");
            Ok(replace_text(current, "</body>", with.as_str()))
        },
        ArtifactKind::Markdown => {
            let mut s = lit(current);
            s.append("\n\n## Capybara CLI Draft\n\n");
            s.append(prompt);
            s.append("\n");
            Ok(s)
        },
        ArtifactKind::Image => {
            let safe = escape_angles_text(prompt);
            let mut with = lit("<desc>Capybara fixture generation: ");
            with.append(safe.as_str());
            with.append("</desc></svg>");
            Ok(replace_text(current, "</svg>", with.as_str()))
        },
        ArtifactKind::PosterJson | ArtifactKind::PptJson | ArtifactKind::CompositionJson => {
            match json_with_generation(current, prompt, generated_at) {
                Ok(t) => Ok(t),
                Err(e) => {
                    let mut m = lit("parse artifact JSON ");
                    m.append(source_path);
                    m.append(": ");
                    m.append(e.as_str());
                    Err(m)
                },
            }
        },
        _ => {
            let mut s = lit(current);
            s.append("\n\nCapybara fixture generation: ");
            s.append(prompt);
            s.append("\n");
            Ok(s)
        },
    }
}

/// Whether a generation writes the source: only a fixture run that is not
/// a dry run does; everything else only plans.
pub open spec fn spec_writes_source(provider: Seq<char>, dry_run: bool) -> bool {
    !dry_run && provider == "fixture"@
}

/// The status a generation run is recorded with.
pub open spec fn spec_generate_status(dry_run: bool) -> Seq<char> {
    if dry_run {
        "planned"@
    } else {
        "completed"@
    }
}

/// What a generation does: whether it writes the source, and the status
/// its run is recorded with.
pub fn generate_plan(request: &ProjectGenerateRequestV1) -> (r: (bool, &'static str))
    ensures
        r.0 == spec_writes_source(request.provider@, request.dry_run),
        r.1@ == spec_generate_status(request.dry_run),
{
    let writes = !request.dry_run && same_text(request.provider.as_str(), "fixture");
    let status = if request.dry_run {
        "planned"
    } else {
        "completed"
    };
    (writes, status)
}

/// The note recorded as the output of a generation that only plans.
pub fn plan_message() -> (s: &'static str)
    ensures
        s@ == "No source file was changed. Use --write with provider fixture for no-spend writes, or run command_preview for a live CLI provider."@,
{
    "No source file was changed. Use --write with provider fixture for no-spend writes, or run command_preview for a live CLI provider."
}

/// A run recorded from outside must belong to this project.
pub fn check_generate_run_project(run_project_id: &str, project_id: &str) -> (r: Result<(), String>)
    ensures
        run_project_id@ == project_id@ ==> r is Ok,
        run_project_id@ != project_id@ ==> (r matches Err(m) && m@ == "generate run project_id "@ + run_project_id@
            + " does not match "@ + project_id@),
{
    if same_text(run_project_id, project_id) {
        Ok(())
    } else {
        let mut m = lit("generate run project_id ");
        m.append(run_project_id);
        m.append(" does not match ");
        m.append(project_id);
        Err(m)
    }
}

/// The provenance a generated artifact records: the run that produced it
/// and the generator (keys in ascending order).
pub open spec fn provenance_record(run_path: Seq<char>) -> JsonView {
    JsonView::Object(
        seq![
            ("last_run"@, JsonView::Text(run_path)),
            ("source"@, JsonView::Text("capy.project.generate"@)),
        ],
    )
}

/// The JSON text of the provenance a generated artifact records.
pub open spec fn generation_provenance_text(run_path: Seq<char>) -> Seq<char> {
    json_compact(provenance_record(run_path))
}

fn generation_provenance(run_path: &str) -> (r: String)
    ensures
        r@ == generation_provenance_text(run_path@),
{
    let mut fields: Vec<(String, JsonValue)> = Vec::new();
    fields.push((lit("last_run"), JsonValue::Text(lit(run_path))));
    fields.push((lit("source"), JsonValue::Text(lit("capy.project.generate"))));
    let record = JsonValue::Object(fields);
    proof {
        let w = json_view(record);
        assert(json_view(fields@[0].1) == JsonView::Text(run_path@));
        assert(json_view(fields@[1].1) == JsonView::Text("capy.project.generate"@));
        assert(w->Object_0 =~= provenance_record(run_path@)->Object_0);
        assert(w == provenance_record(run_path@));
    }
    json_text(&record)
}

/// Two artifact records hold the same text in every field.
pub open spec fn same_artifact(a: ArtifactRefV1, b: ArtifactRefV1) -> bool {
    &&& a.id@ == b.id@
    &&& a.kind == b.kind
    &&& a.title@ == b.title@
    &&& a.source_path@ == b.source_path@
    &&& texts(a.source_refs@) == texts(b.source_refs@)
    &&& texts(a.output_refs@) == texts(b.output_refs@)
    &&& texts(a.design_language_refs@) == texts(b.design_language_refs@)
    &&& texts(a.asset_refs@) == texts(b.asset_refs@)
    &&& opt_text(a.provenance) == opt_text(b.provenance)
    &&& texts(a.evidence_refs@) == texts(b.evidence_refs@)
    &&& a.updated_at == b.updated_at
}

/// A copy of an artifact record.
pub fn copy_artifact(a: &ArtifactRefV1) -> (r: ArtifactRefV1)
    ensures
        same_artifact(r, *a),
{
    ArtifactRefV1 {
        id: copy_text(&a.id),
        kind: a.kind,
        title: copy_text(&a.title),
        source_path: copy_text(&a.source_path),
        source_refs: copy_texts(a.source_refs.as_slice()),
        output_refs: copy_texts(a.output_refs.as_slice()),
        design_language_refs: copy_texts(a.design_language_refs.as_slice()),
        asset_refs: copy_texts(a.asset_refs.as_slice()),
        provenance: copy_opt(&a.provenance),
        evidence_refs: copy_texts(a.evidence_refs.as_slice()),
        updated_at: a.updated_at,
    }
}

/// The first of the first `n` artifacts with id `id`.
pub open spec fn artifact_position(v: Seq<ArtifactRefV1>, id: Seq<char>, n: int) -> Option<int>
    decreases n,
{
    if n <= 0 {
        None
    } else {
        match artifact_position(v, id, n - 1) {
            Some(i) => Some(i),
            None => if v[n - 1].id@ == id {
                Some(n - 1)
            } else {
                None
            },
        }
    }
}

proof fn lemma_artifact_position_stable(v: Seq<ArtifactRefV1>, id: Seq<char>, m: int, n: int)
    requires
        0 <= m <= n,
        artifact_position(v, id, m) is Some,
    ensures
        artifact_position(v, id, n) == artifact_position(v, id, m),
    decreases n - m,
{
    if n > m {
        lemma_artifact_position_stable(v, id, m, n - 1);
    }
}

/// The position of the first artifact with id `id`.
pub fn find_artifact(artifacts: &[ArtifactRefV1], id: &str) -> (r: Option<usize>)
    ensures
        match r {
            Some(i) => artifact_position(artifacts@, id@, artifacts@.len() as int) == Some(i as int) && i < artifacts.len(),
            None => artifact_position(artifacts@, id@, artifacts@.len() as int) is None,
        },
{
    let mut i: usize = 0;
    while i < artifacts.len()
        invariant
            i <= artifacts.len(),
            artifact_position(artifacts@, id@, i as int) is None,
        decreases artifacts.len() - i,
    {
        if same_text(artifacts[i].id.as_str(), id) {
            proof {
                assert(artifact_position(artifacts@, id@, i + 1) == Some(i as int));
                lemma_artifact_position_stable(artifacts@, id@, i + 1, artifacts@.len() as int);
            }
            return Some(i);
        }
        i = i + 1;
    }
    None
}

/// The error for an artifact id the registry does not have.
pub open spec fn unknown_artifact_message(id: Seq<char>) -> Seq<char> {
    "unknown artifact id: "@ + id
}

/// `b` is artifact `a` once a generation run at `run_path` is recorded on
/// it: the run among its evidence (once), its update time, and provenance
/// naming the run.
pub open spec fn is_marked(b: ArtifactRefV1, a: ArtifactRefV1, run_path: Seq<char>, generated_at: u64) -> bool {
    let ev = texts(a.evidence_refs@);
    &&& same_artifact(
        b,
        ArtifactRefV1 {
            evidence_refs: b.evidence_refs,
            updated_at: generated_at,
            provenance: b.provenance,
            ..a
        },
    )
    &&& texts(b.evidence_refs@) == (if ev.contains(run_path) {
        ev
    } else {
        ev.push(run_path)
    })
    &&& opt_text(b.provenance) == Some(generation_provenance_text(run_path))
}

fn contains_text(v: &[String], t: &str) -> (r: bool)
    ensures
        r == texts(v@).contains(t@),
{
    let mut i: usize = 0;
    while i < v.len()
        invariant
            i <= v.len(),
            forall|k: int| 0 <= k < i ==> texts(v@)[k] != t@,
        decreases v.len() - i,
    {
        if same_text(v[i].as_str(), t) {
            proof {
                assert(texts(v@)[i as int] == t@);
            }
            return true;
        }
        i = i + 1;
    }
    false
}

/// Records a generation run on an artifact of the registry; the updated
/// record is returned. The other artifacts are left as they were.
pub fn mark_generated_artifact(
    artifacts: &mut Vec<ArtifactRefV1>,
    artifact_id: &str,
    run_path: &str,
    generated_at: u64,
) -> (r: Result<ArtifactRefV1, String>)
    ensures
        match artifact_position(old(artifacts)@, artifact_id@, old(artifacts)@.len() as int) {
            None => (r matches Err(m) && m@ == unknown_artifact_message(artifact_id@)) && final(artifacts)@ == old(
                artifacts,
            )@,
            Some(i) => r matches Ok(b) && {
                &&& final(artifacts)@.len() == old(artifacts)@.len()
                &&& forall|k: int| 0 <= k < old(artifacts)@.len() && k != i ==> final(artifacts)@[k] == old(artifacts)@[k]
                &&& is_marked(final(artifacts)@[i], old(artifacts)@[i], run_path@, generated_at)
                &&& same_artifact(b, final(artifacts)@[i])
            },
        },
{
    let i = match find_artifact(artifacts.as_slice(), artifact_id) {
        Some(i) => i,
        None => {
            let mut m = lit("unknown artifact id: ");
            m.append(artifact_id);
            return Err(m);
        },
    };
    let mut a = artifacts.remove(i);
    if !contains_text(a.evidence_refs.as_slice(), run_path) {
        let ghost ev = a.evidence_refs@;
        a.evidence_refs.push(lit(run_path));
        proof {
            assert(texts(a.evidence_refs@) =~= texts(ev).push(run_path@));
        }
    }
    a.updated_at = generated_at;
    a.provenance = Some(generation_provenance(run_path));
    let out = copy_artifact(&a);
    artifacts.insert(i, a);
    Ok(out)
}

} // verus!
