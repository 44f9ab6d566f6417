//! The design language: what each asset serves as, the summary counts, the
//! assets an artifact cites, and the checks of `design-language validate`.

use vstd::prelude::*;
use crate::text::texts;
use crate::mp4::verdict::lit;
use crate::project::model::{asset_view, opt_text, AssetView, DesignLanguageAssetStatusV1, DesignLanguageValidationV1, DesignLanguageAssetV1, DesignLanguageManifestV1, DesignLanguageSummaryV1};
use crate::render_source::eq_lit;
use crate::text::{ascii_lower, ascii_lower_chars, chars_eq, chars_of, contains_chars, seq_contains, trim};
use crate::project::dlref::spec_design_language_ref;

verus! {

/// `s` ends with `p`.
pub open spec fn ends_with(s: Seq<char>, p: Seq<char>) -> bool {
    p.len() <= s.len() && s.subrange(s.len() - p.len(), s.len() as int) == p
}

/// The asset's role is exactly `expected`.
pub open spec fn spec_role_is(a: DesignLanguageAssetV1, expected: Seq<char>) -> bool {
    opt_text(a.role) == Some(expected)
}

/// Design tokens: role `tokens`, kind `css`, or `token` in the path or
/// (any case) in the title.
pub open spec fn spec_is_token(a: DesignLanguageAssetV1) -> bool {
    spec_role_is(a, "tokens"@) || a.kind@ == "css"@ || seq_contains(a.path@, "token"@) || seq_contains(
        ascii_lower(a.title@),
        "token"@,
    )
}

/// Reference images: role `reference-image`, or kind `image`, `svg`, `png`.
pub open spec fn spec_is_reference_image(a: DesignLanguageAssetV1) -> bool {
    spec_role_is(a, "reference-image"@) || a.kind@ == "image"@ || a.kind@ == "svg"@ || a.kind@
        == "png"@
}

/// Rules: a role ending in `rule` (or `anti-slop-rule`), or kind
/// `markdown` or `json`.
pub open spec fn spec_is_rule(a: DesignLanguageAssetV1) -> bool {
    (a.role matches Some(r) && (ends_with(r@, "rule"@) || r@ == "anti-slop-rule"@)) || a.kind@
        == "markdown"@ || a.kind@ == "json"@
}

/// Examples: role `example`, or kind `html`, `poster-json`, `ppt-json`,
/// `composition-json`.
pub open spec fn spec_is_example(a: DesignLanguageAssetV1) -> bool {
    spec_role_is(a, "example"@) || a.kind@ == "html"@ || a.kind@ == "poster-json"@ || a.kind@
        == "ppt-json"@ || a.kind@ == "composition-json"@
}

/// Number of elements of `s` that satisfy `p`.
pub open spec fn count_where<A>(s: Seq<A>, p: spec_fn(A) -> bool) -> nat
    decreases s.len(),
{
    if s.len() == 0 {
        0
    } else {
        count_where(s.drop_last(), p) + if p(s.last()) {
            1nat
        } else {
            0nat
        }
    }
}

proof fn lemma_count_where_bound<A>(s: Seq<A>, p: spec_fn(A) -> bool)
    ensures
        count_where(s, p) <= s.len(),
    decreases s.len(),
{
    if s.len() > 0 {
        lemma_count_where_bound(s.drop_last(), p);
    }
}

fn ends_with_chars(s: &[char], p: &str) -> (r: bool)
    ensures
        r == ends_with(s@, p@),
{
    let pc = chars_of(p);
    if pc.len() > s.len() {
        return false;
    }
    let tail = &s[s.len() - pc.len()..s.len()];
    chars_eq(tail, pc.as_slice())
}

fn text_is(s: &String, p: &str) -> (r: bool)
    ensures
        r == (s@ == p@),
{
    let cs = chars_of(s.as_str());
    eq_lit(cs.as_slice(), p)
}

fn text_contains(s: &String, p: &str) -> (r: bool)
    ensures
        r == seq_contains(s@, p@),
{
    let cs = chars_of(s.as_str());
    let pc = chars_of(p);
    contains_chars(cs.as_slice(), pc.as_slice())
}

/// Whether the asset's role is exactly `expected`.
pub fn role_is(asset: &DesignLanguageAssetV1, expected: &str) -> (r: bool)
    ensures
        r == spec_role_is(*asset, expected@),
{
    match &asset.role {
        Some(role) => text_is(role, expected),
        None => false,
    }
}

/// Whether the asset holds design tokens.
pub fn is_token(asset: &DesignLanguageAssetV1) -> (r: bool)
    ensures
        r == spec_is_token(*asset),
{
    if role_is(asset, "tokens") || text_is(&asset.kind, "css") || text_contains(&asset.path, "token") {
        return true;
    }
    let title = chars_of(asset.title.as_str());
    let lower = ascii_lower_chars(title.as_slice());
    let needle = chars_of("token");
    contains_chars(lower.as_slice(), needle.as_slice())
}

/// Whether the asset is a reference image.
pub fn is_reference_image(asset: &DesignLanguageAssetV1) -> (r: bool)
    ensures
        r == spec_is_reference_image(*asset),
{
    role_is(asset, "reference-image") || text_is(&asset.kind, "image") || text_is(&asset.kind, "svg")
        || text_is(&asset.kind, "png")
}

/// Whether the asset is a rule.
pub fn is_rule(asset: &DesignLanguageAssetV1) -> (r: bool)
    ensures
        r == spec_is_rule(*asset),
{
    let by_role = match &asset.role {
        Some(role) => {
            let rc = chars_of(role.as_str());
            ends_with_chars(rc.as_slice(), "rule") || eq_lit(rc.as_slice(), "anti-slop-rule")
        },
        None => false,
    };
    by_role || text_is(&asset.kind, "markdown") || text_is(&asset.kind, "json")
}

/// Whether the asset is an example.
pub fn is_example(asset: &DesignLanguageAssetV1) -> (r: bool)
    ensures
        r == spec_is_example(*asset),
{
    role_is(asset, "example") || text_is(&asset.kind, "html") || text_is(&asset.kind, "poster-json")
        || text_is(&asset.kind, "ppt-json") || text_is(&asset.kind, "composition-json")
}

/// Which of the four asset classes a count is for.
#[derive(Debug, Clone, Copy, PartialEq, Eq, Structural)]
pub enum AssetClass {
    Token,
    ReferenceImage,
    Rule,
    Example,
}

pub open spec fn class_pred(c: AssetClass) -> spec_fn(DesignLanguageAssetV1) -> bool {
    match c {
        AssetClass::Token => |a: DesignLanguageAssetV1| spec_is_token(a),
        AssetClass::ReferenceImage => |a: DesignLanguageAssetV1| spec_is_reference_image(a),
        AssetClass::Rule => |a: DesignLanguageAssetV1| spec_is_rule(a),
        AssetClass::Example => |a: DesignLanguageAssetV1| spec_is_example(a),
    }
}

fn in_class(asset: &DesignLanguageAssetV1, c: AssetClass) -> (r: bool)
    ensures
        r == (class_pred(c))(*asset),
{
    match c {
        AssetClass::Token => is_token(asset),
        AssetClass::ReferenceImage => is_reference_image(asset),
        AssetClass::Rule => is_rule(asset),
        AssetClass::Example => is_example(asset),
    }
}

/// How many of the assets are of class `c`.
pub fn count_class(assets: &Vec<DesignLanguageAssetV1>, c: AssetClass) -> (n: usize)
    ensures
        n == count_where(assets@, class_pred(c)),
{
    let mut n: usize = 0;
    let mut i: usize = 0;
    while i < assets.len()
        invariant
            i <= assets.len(),
            n == count_where(assets@.take(i as int), class_pred(c)),
        decreases assets.len() - i,
    {
        proof {
            assert(assets@.take(i + 1).drop_last() =~= assets@.take(i as int));
            lemma_count_where_bound(assets@.take(i as int), class_pred(c));
        }
        if in_class(&assets[i], c) {
            n = n + 1;
        }
        i = i + 1;
    }
    proof {
        assert(assets@.take(assets.len() as int) =~= assets@);
    }
    n
}

/// The summary of a design language whose content ref is `design_language_ref`.
pub fn design_language_summary(manifest: &DesignLanguageManifestV1, design_language_ref: String) -> (s:
    DesignLanguageSummaryV1)
    ensures
        s.name@ == manifest.name@,
        s.version@ == manifest.version@,
        s.summary@ == manifest.summary@,
        s.design_language_ref@ == design_language_ref@,
        s.asset_count == manifest.assets@.len(),
        s.token_count == count_where(manifest.assets@, class_pred(AssetClass::Token)),
        s.reference_image_count == count_where(manifest.assets@, class_pred(AssetClass::ReferenceImage)),
        s.rule_count == count_where(manifest.assets@, class_pred(AssetClass::Rule)),
        s.example_count == count_where(manifest.assets@, class_pred(AssetClass::Example)),
{
    DesignLanguageSummaryV1 {
        name: manifest.name.clone(),
        version: manifest.version.clone(),
        summary: manifest.summary.clone(),
        design_language_ref,
        asset_count: manifest.assets.len(),
        token_count: count_class(&manifest.assets, AssetClass::Token),
        reference_image_count: count_class(&manifest.assets, AssetClass::ReferenceImage),
        rule_count: count_class(&manifest.assets, AssetClass::Rule),
        example_count: count_class(&manifest.assets, AssetClass::Example),
    }
}

// ───────────────────────── selection by ref ─────────────────────────

/// Some string of `refs` reads `id`.
pub open spec fn names(refs: Seq<String>, id: Seq<char>) -> bool {
    exists|j: int| 0 <= j < refs.len() && (#[trigger] refs[j])@ == id
}

fn cites(refs: &[String], id: &String) -> (r: bool)
    ensures
        r == names(refs@, id@),
{
    let idc = chars_of(id.as_str());
    let mut j: usize = 0;
    while j < refs.len()
        invariant
            j <= refs.len(),
            idc@ == id@,
            forall|k: int| 0 <= k < j ==> (#[trigger] refs@[k])@ != id@,
        decreases refs.len() - j,
    {
        let rc = chars_of(refs[j].as_str());
        if chars_eq(rc.as_slice(), idc.as_slice()) {
            assert((refs@[j as int])@ == id@);
            return true;
        }
        j = j + 1;
    }
    false
}

/// The assets of `s` whose id is one of `refs`, in order.
pub open spec fn cited(s: Seq<DesignLanguageAssetV1>, refs: Seq<String>) -> Seq<AssetView>
    decreases s.len(),
{
    if s.len() == 0 {
        seq![]
    } else {
        let rest = cited(s.drop_last(), refs);
        if names(refs, s.last().id@) {
            rest.push(asset_view(s.last()))
        } else {
            rest
        }
    }
}

pub open spec fn views(s: Seq<DesignLanguageAssetV1>) -> Seq<AssetView> {
    s.map_values(|a: DesignLanguageAssetV1| asset_view(a))
}

fn copy_text(o: &Option<String>) -> (r: Option<String>)
    ensures
        opt_text(r) == opt_text(*o),
{
    match o {
        Some(s) => Some(s.clone()),
        None => None,
    }
}

/// A copy of an asset.
pub fn copy_asset(a: &DesignLanguageAssetV1) -> (b: DesignLanguageAssetV1)
    ensures
        asset_view(b) == asset_view(*a),
{
    DesignLanguageAssetV1 {
        id: a.id.clone(),
        kind: a.kind.clone(),
        role: copy_text(&a.role),
        path: a.path.clone(),
        title: a.title.clone(),
        description: copy_text(&a.description),
    }
}

/// The design assets an artifact cites: all of them when it cites none,
/// otherwise those whose id it cites, in manifest order.
pub fn selected_design_assets(manifest: &DesignLanguageManifestV1, design_refs: &[String]) -> (r: Vec<
    DesignLanguageAssetV1,
>)
    ensures
        design_refs@.len() == 0 ==> views(r@) == views(manifest.assets@),
        design_refs@.len() > 0 ==> views(r@) == cited(manifest.assets@, design_refs@),
{
    let all = design_refs.len() == 0;
    let s = &manifest.assets;
    let mut out: Vec<DesignLanguageAssetV1> = Vec::new();
    let mut i: usize = 0;
    while i < s.len()
        invariant
            i <= s.len(),
            all == (design_refs@.len() == 0),
            all ==> views(out@) == views(s@.take(i as int)),
            !all ==> views(out@) == cited(s@.take(i as int), design_refs@),
        decreases s.len() - i,
    {
        let a = &s[i];
        proof {
            assert(s@.take(i + 1).drop_last() =~= s@.take(i as int));
            assert(views(s@.take(i + 1)) =~= views(s@.take(i as int)).push(asset_view(s@[i as int])));
        }
        if all || cites(design_refs, &a.id) {
            let ghost before = out@;
            out.push(copy_asset(a));
            proof {
                assert(views(out@) =~= views(before).push(asset_view(*a)));
            }
        }
        i = i + 1;
    }
    proof {
        assert(s@.take(s.len() as int) =~= s@);
    }
    out
}

// ───────────────────────── checks ─────────────────────────

/// Some asset of `s` has the id `id`.
pub open spec fn has_asset(s: Seq<DesignLanguageAssetV1>, id: Seq<char>) -> bool {
    exists|k: int| 0 <= k < s.len() && (#[trigger] s[k]).id@ == id
}

/// The refs that name no asset, in order.
pub open spec fn unknown_refs(refs: Seq<String>, s: Seq<DesignLanguageAssetV1>) -> Seq<Seq<char>>
    decreases refs.len(),
{
    if refs.len() == 0 {
        seq![]
    } else {
        let rest = unknown_refs(refs.drop_last(), s);
        if has_asset(s, refs.last()@) {
            rest
        } else {
            rest.push(refs.last()@)
        }
    }
}

/// The items of `items` joined by `, `.
pub open spec fn join_comma(items: Seq<Seq<char>>) -> Seq<char>
    decreases items.len(),
{
    if items.len() == 0 {
        seq![]
    } else if items.len() == 1 {
        items[0]
    } else {
        join_comma(items.drop_last()) + ", "@ + items.last()
    }
}

fn has_asset_exec(s: &Vec<DesignLanguageAssetV1>, id: &String) -> (r: bool)
    ensures
        r == has_asset(s@, id@),
{
    let idc = chars_of(id.as_str());
    let mut k: usize = 0;
    while k < s.len()
        invariant
            k <= s.len(),
            idc@ == id@,
            forall|j: int| 0 <= j < k ==> (#[trigger] s@[j]).id@ != id@,
        decreases s.len() - k,
    {
        let kc = chars_of(s[k].id.as_str());
        if chars_eq(kc.as_slice(), idc.as_slice()) {
            assert(s@[k as int].id@ == id@);
            return true;
        }
        k = k + 1;
    }
    false
}

/// Checks that every design ref names an asset of the manifest;
/// `unknown design language refs: a, b` lists the others.
pub fn validate_design_refs(manifest: &DesignLanguageManifestV1, refs: &[String]) -> (r: Result<(), String>)
    ensures
        unknown_refs(refs@, manifest.assets@).len() == 0 ==> r is Ok,
        unknown_refs(refs@, manifest.assets@).len() > 0 ==> (r matches Err(m) && m@
            == "unknown design language refs: "@ + join_comma(unknown_refs(refs@, manifest.assets@))),
{
    let mut joined = String::new();
    let mut count: usize = 0;
    proof {
        assert(refs@.take(0) =~= Seq::<String>::empty());
    }
    let mut i: usize = 0;
    while i < refs.len()
        invariant
            i <= refs.len(),
            count == unknown_refs(refs@.take(i as int), manifest.assets@).len(),
            count <= i,
            joined@ == join_comma(unknown_refs(refs@.take(i as int), manifest.assets@)),
        decreases refs.len() - i,
    {
        proof {
            assert(refs@.take(i + 1).drop_last() =~= refs@.take(i as int));
        }
        if !has_asset_exec(&manifest.assets, &refs[i]) {
            if count > 0 {
                joined.append(", ");
            }
            joined.append(refs[i].as_str());
            proof {
                let u = unknown_refs(refs@.take(i + 1), manifest.assets@);
                assert(u.drop_last() =~= unknown_refs(refs@.take(i as int), manifest.assets@));
                if count == 0 {
                    assert(joined@ =~= u[0]);
                }
            }
            count = count + 1;
        }
        i = i + 1;
    }
    proof {
        assert(refs@.take(refs.len() as int) =~= refs@);
    }
    if count == 0 {
        Ok(())
    } else {
        let mut m = lit("unknown design language refs: ");
        m.append(joined.as_str());
        Err(m)
    }
}

/// What a look at an asset's path found.
#[derive(Debug, Clone)]
pub enum AssetProbe {
    /// A file of this many bytes.
    File(u64),
    /// Something that is not a file.
    NotFile,
    /// Nothing could be read; the reason as text.
    Missing(String),
}

/// The status reported for an asset given what was found at its path.
pub fn asset_status(asset: &DesignLanguageAssetV1, probe: AssetProbe) -> (s: DesignLanguageAssetStatusV1)
    ensures
        s.id@ == asset.id@,
        s.kind@ == asset.kind@,
        opt_text(s.role) == opt_text(asset.role),
        s.path@ == asset.path@,
        s.title@ == asset.title@,
        s.exists == (probe is File),
        s.bytes == match probe {
            AssetProbe::File(n) => Some(n),
            _ => None::<u64>,
        },
        match probe {
            AssetProbe::File(_) => s.error is None,
            AssetProbe::NotFile => s.error matches Some(e) && e@ == "design language asset is not a file: "@
                + asset.path@,
            AssetProbe::Missing(why) => s.error matches Some(e) && e@ == "missing design language asset "@
                + asset.path@ + ": "@ + why@,
        },
        s.error matches Some(e) ==> seq_contains(e@, asset.path@),
{
    let (exists, bytes, error) = match probe {
        AssetProbe::File(n) => (true, Some(n), None),
        AssetProbe::NotFile => {
            let mut e = lit("design language asset is not a file: ");
            let ghost n = e@.len();
            e.append(asset.path.as_str());
            proof {
                assert(e@.subrange(n as int, (n + asset.path@.len()) as int) =~= asset.path@);
            }
            (false, None, Some(e))
        },
        AssetProbe::Missing(why) => {
            let mut e = lit("missing design language asset ");
            let ghost n = e@.len();
            e.append(asset.path.as_str());
            proof {
                assert(e@.subrange(n as int, (n + asset.path@.len()) as int) =~= asset.path@);
            }
            e.append(": ");
            e.append(why.as_str());
            proof {
                assert(e@.subrange(n as int, (n + asset.path@.len()) as int) =~= asset.path@);
            }
            (false, None, Some(e))
        },
    };
    DesignLanguageAssetStatusV1 {
        id: asset.id.clone(),
        kind: asset.kind.clone(),
        role: copy_text(&asset.role),
        path: asset.path.clone(),
        title: asset.title.clone(),
        exists,
        bytes,
        error,
    }
}

/// The errors of errors-carrying statuses, in order.
pub open spec fn status_errors(s: Seq<DesignLanguageAssetStatusV1>) -> Seq<Seq<char>>
    decreases s.len(),
{
    if s.len() == 0 {
        seq![]
    } else {
        let rest = status_errors(s.drop_last());
        match s.last().error {
            Some(e) => rest.push(e@),
            None => rest,
        }
    }
}

/// The problems `design-language validate` reports, in order: a blank name,
/// a blank version, no assets, then each asset's error.
pub open spec fn spec_validation_errors(m: DesignLanguageManifestV1, s: Seq<DesignLanguageAssetStatusV1>) -> Seq<
    Seq<char>,
> {
    let a: Seq<Seq<char>> = if trim(m.name@).len() == 0 {
        seq!["design language name is required"@]
    } else {
        seq![]
    };
    let b: Seq<Seq<char>> = if trim(m.version@).len() == 0 {
        seq!["design language version is required"@]
    } else {
        seq![]
    };
    let c: Seq<Seq<char>> = if m.assets@.len() == 0 {
        seq!["at least one design language asset is required"@]
    } else {
        seq![]
    };
    a + b + c + status_errors(s)
}

fn is_blank(s: &String) -> (r: bool)
    ensures
        r == (trim(s@).len() == 0),
{
    let cs = chars_of(s.as_str());
    let t = crate::text::trim_chars(cs.as_slice());
    t.len() == 0
}

fn push_text(v: &mut Vec<String>, s: String)
    ensures
        texts(final(v)@) == texts(old(v)@).push(s@),
{
    let ghost before = v@;
    v.push(s);
    proof {
        assert(texts(v@) =~= texts(before).push(s@));
    }
}

/// The problems of a design language given its assets' statuses; it is
/// valid when there are none.
pub fn design_language_validation_errors(
    manifest: &DesignLanguageManifestV1,
    statuses: &Vec<DesignLanguageAssetStatusV1>,
) -> (errors: Vec<String>)
    ensures
        texts(errors@) == spec_validation_errors(*manifest, statuses@),
{
    let mut errors: Vec<String> = Vec::new();
    if is_blank(&manifest.name) {
        push_text(&mut errors, lit("design language name is required"));
    }
    if is_blank(&manifest.version) {
        push_text(&mut errors, lit("design language version is required"));
    }
    if manifest.assets.len() == 0 {
        push_text(&mut errors, lit("at least one design language asset is required"));
    }
    let ghost head = texts(errors@);
    proof {
        let m = *manifest;
        let a: Seq<Seq<char>> = if trim(m.name@).len() == 0 {
            seq!["design language name is required"@]
        } else {
            seq![]
        };
        let b: Seq<Seq<char>> = if trim(m.version@).len() == 0 {
            seq!["design language version is required"@]
        } else {
            seq![]
        };
        let c: Seq<Seq<char>> = if m.assets@.len() == 0 {
            seq!["at least one design language asset is required"@]
        } else {
            seq![]
        };
        assert(head =~= a + b + c);
    }
    let mut i: usize = 0;
    while i < statuses.len()
        invariant
            i <= statuses.len(),
            texts(errors@) == head + status_errors(statuses@.take(i as int)),
        decreases statuses.len() - i,
    {
        proof {
            assert(statuses@.take(i + 1).drop_last() =~= statuses@.take(i as int));
        }
        match &statuses[i].error {
            Some(e) => {
                push_text(&mut errors, e.clone());
                proof {
                    assert(head + status_errors(statuses@.take(i + 1)) =~= (head + status_errors(
                        statuses@.take(i as int),
                    )).push(e@));
                }
            },
            None => {},
        }
        i = i + 1;
    }
    proof {
        assert(statuses@.take(statuses.len() as int) =~= statuses@);
    }
    errors
}

/// The errors of the statuses are none exactly when every status has no
/// error.
proof fn lemma_status_errors_empty(s: Seq<DesignLanguageAssetStatusV1>)
    ensures
        status_errors(s).len() == 0 <==> forall|i: int| 0 <= i < s.len() ==> (#[trigger] s[i]).error is None,
    decreases s.len(),
{
    if s.len() > 0 {
        lemma_status_errors_empty(s.drop_last());
        if status_errors(s).len() == 0 {
            assert forall|i: int| 0 <= i < s.len() implies (#[trigger] s[i]).error is None by {
                if i < s.len() - 1 {
                    assert(s.drop_last()[i] == s[i]);
                }
            }
        } else {
            if s.last().error is None {
                let k = choose|i: int| 0 <= i < s.drop_last().len() && (#[trigger] s.drop_last()[i]).error is Some;
                assert(s[k] == s.drop_last()[k]);
            }
        }
    }
}

/// A design language validates clean exactly when its name and version
/// are not blank, it has an asset, and every asset path is a regular file
/// (statuses as `asset_status` makes them: an error exactly when the path
/// is not a file).
pub proof fn lemma_validation_clean(m: DesignLanguageManifestV1, s: Seq<DesignLanguageAssetStatusV1>)
    requires
        forall|i: int| 0 <= i < s.len() ==> ((#[trigger] s[i]).error is None <==> s[i].exists),
    ensures
        spec_validation_errors(m, s).len() == 0 <==> {
            &&& trim(m.name@).len() > 0
            &&& trim(m.version@).len() > 0
            &&& m.assets@.len() > 0
            &&& forall|i: int| 0 <= i < s.len() ==> (#[trigger] s[i]).exists
        },
{
    lemma_status_errors_empty(s);
}

/// An asset whose status has an error has that error among the status
/// errors.
proof fn lemma_status_error_listed(s: Seq<DesignLanguageAssetStatusV1>, i: int)
    requires
        0 <= i < s.len(),
        s[i].error is Some,
    ensures
        exists|k: int| 0 <= k < status_errors(s).len() && status_errors(s)[k] == s[i].error.unwrap()@,
    decreases s.len(),
{
    let rest = status_errors(s.drop_last());
    if i == s.len() - 1 {
        assert(status_errors(s)[rest.len() as int] == s[i].error.unwrap()@);
    } else {
        assert(s.drop_last()[i] == s[i]);
        lemma_status_error_listed(s.drop_last(), i);
        let k = choose|k: int| 0 <= k < rest.len() && rest[k] == s[i].error.unwrap()@;
        assert(status_errors(s)[k] == rest[k]);
    }
}

/// `statuses` report on the assets of `m`, one each and in order, as
/// `asset_status` makes them: no error exactly for an asset that is a
/// regular file, and otherwise an error that names the asset's path.
pub open spec fn statuses_report(m: DesignLanguageManifestV1, s: Seq<DesignLanguageAssetStatusV1>) -> bool {
    &&& s.len() == m.assets@.len()
    &&& forall|i: int|
        0 <= i < s.len() ==> {
            &&& (#[trigger] s[i]).path@ == m.assets@[i].path@
            &&& (s[i].error is None <==> s[i].exists)
            &&& (s[i].error matches Some(e) ==> seq_contains(e@, m.assets@[i].path@))
        }
}

/// `v` is the validation report of `m` with the asset statuses `statuses`
/// and the summary `summary`.
pub open spec fn is_validation_report(
    v: DesignLanguageValidationV1,
    m: DesignLanguageManifestV1,
    statuses: Seq<DesignLanguageAssetStatusV1>,
    summary: DesignLanguageSummaryV1,
) -> bool {
    &&& texts(v.errors@) == spec_validation_errors(m, statuses)
    &&& (v.ok <==> v.errors@.len() == 0)
    &&& v.design_language_ref@ == summary.design_language_ref@
    &&& v.assets@ == statuses
}

/// The validation law: a report is `ok` exactly when it lists no error,
/// and that is exactly when the name and the version are not blank, there
/// is an asset and every asset path is a regular file; each asset that is
/// not a file has an error naming its path; and the report carries the
/// content ref of the manifest and the asset contents.
pub proof fn lemma_validation_law(
    m: DesignLanguageManifestV1,
    contents: Seq<Option<Vec<u8>>>,
    statuses: Seq<DesignLanguageAssetStatusV1>,
    summary: DesignLanguageSummaryV1,
    v: DesignLanguageValidationV1,
)
    requires
        statuses_report(m, statuses),
        summary.design_language_ref@ == spec_design_language_ref(m, contents),
        is_validation_report(v, m, statuses, summary),
    ensures
        v.ok <==> v.errors@.len() == 0,
        v.ok <==> {
            &&& trim(m.name@).len() > 0
            &&& trim(m.version@).len() > 0
            &&& m.assets@.len() > 0
            &&& forall|i: int| 0 <= i < statuses.len() ==> (#[trigger] statuses[i]).exists
        },
        forall|i: int|
            0 <= i < statuses.len() && !(#[trigger] statuses[i]).exists ==> exists|k: int|
                0 <= k < v.errors@.len() && seq_contains(v.errors@[k]@, m.assets@[i].path@),
        v.design_language_ref@ == spec_design_language_ref(m, contents),
{
    lemma_validation_clean(m, statuses);
    assert(v.errors@.len() == texts(v.errors@).len());
    assert forall|i: int|
        0 <= i < statuses.len() && !(#[trigger] statuses[i]).exists implies exists|k: int|
            0 <= k < v.errors@.len() && seq_contains(v.errors@[k]@, m.assets@[i].path@) by {
        let e = statuses[i].error.unwrap();
        lemma_status_error_listed(statuses, i);
        let j = choose|j: int| 0 <= j < status_errors(statuses).len() && status_errors(statuses)[j] == e@;
        let all = spec_validation_errors(m, statuses);
        let head = all.len() - status_errors(statuses).len();
        assert(all[head + j] == e@);
        assert(texts(v.errors@)[head + j] == v.errors@[head + j]@);
        assert(seq_contains(v.errors@[head + j]@, m.assets@[i].path@));
    }
}

/// Validating twice with nothing changed (the same manifest, asset contents
/// and statuses) gives the same verdict, the same errors and the same
/// content ref.
pub proof fn lemma_validation_stable(
    m: DesignLanguageManifestV1,
    contents: Seq<Option<Vec<u8>>>,
    statuses: Seq<DesignLanguageAssetStatusV1>,
    s1: DesignLanguageSummaryV1,
    v1: DesignLanguageValidationV1,
    s2: DesignLanguageSummaryV1,
    v2: DesignLanguageValidationV1,
)
    requires
        s1.design_language_ref@ == spec_design_language_ref(m, contents),
        s2.design_language_ref@ == spec_design_language_ref(m, contents),
        is_validation_report(v1, m, statuses, s1),
        is_validation_report(v2, m, statuses, s2),
    ensures
        v1.ok == v2.ok,
        texts(v1.errors@) == texts(v2.errors@),
        v1.design_language_ref@ == v2.design_language_ref@,
{
    assert(v1.errors@.len() == texts(v1.errors@).len());
    assert(v2.errors@.len() == texts(v2.errors@).len());
}

/// The `design-language validate` report: the errors in order, `ok`
/// exactly when there are none, with the summary and the statuses.
pub fn design_language_validation(
    project_id: String,
    project_name: String,
    manifest: &DesignLanguageManifestV1,
    summary: DesignLanguageSummaryV1,
    statuses: Vec<DesignLanguageAssetStatusV1>,
    generated_at: u64,
) -> (v: DesignLanguageValidationV1)
    ensures
        v.schema_version@ == "capy.design-language.validation.v1"@,
        is_validation_report(v, *manifest, statuses@, summary),
        texts(v.errors@) == spec_validation_errors(*manifest, statuses@),
        v.ok <==> v.errors@.len() == 0,
        v.project_id@ == project_id@,
        v.project_name@ == project_name@,
        v.design_language_ref@ == summary.design_language_ref@,
        v.summary == summary,
        v.assets@ == statuses@,
        v.generated_at == generated_at,
{
    let errors = design_language_validation_errors(manifest, &statuses);
    let ok = errors.len() == 0;
    DesignLanguageValidationV1 {
        schema_version: lit("capy.design-language.validation.v1"),
        ok,
        project_id,
        project_name,
        design_language_ref: lit(summary.design_language_ref.as_str()),
        summary,
        assets: statuses,
        errors,
        generated_at,
    }
}

} // verus!
