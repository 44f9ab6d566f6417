//! The deterministic reading of video clips: feedback classes, tags,
//! rhythm and use-case notes, and the decisions on clip proposals.

use vstd::prelude::*;
use crate::text::texts;
use crate::mp4::verdict::lit;
use crate::render_source::eq_lit;
use crate::text::{chars_of, contains_chars, is_whitespace, is_ws, seq_contains, trim, trim_chars, string_from_chars};

verus! {

/// What std's `str::to_lowercase` gives for `s`.
pub uninterp spec fn unicode_lowercase(s: Seq<char>) -> Seq<char>;

/// std's `str::to_lowercase`: the Unicode lower case of `s`.
#[verifier::external_body]
fn to_lowercase(s: &str) -> (r: String)
    ensures
        r@ == unicode_lowercase(s@),
{
    s.to_lowercase()
}

/// `s` without its whitespace characters.
pub open spec fn remove_ws(s: Seq<char>) -> Seq<char>
    decreases s.len(),
{
    if s.len() == 0 {
        seq![]
    } else if is_ws(s.last()) {
        remove_ws(s.drop_last())
    } else {
        remove_ws(s.drop_last()).push(s.last())
    }
}

fn remove_ws_chars(s: &[char]) -> (v: Vec<char>)
    ensures
        v@ == remove_ws(s@),
{
    let mut v: Vec<char> = Vec::new();
    let mut i: usize = 0;
    while i < s.len()
        invariant
            i <= s.len(),
            v@ == remove_ws(s@.take(i as int)),
        decreases s.len() - i,
    {
        proof {
            assert(s@.take(i + 1).drop_last() =~= s@.take(i as int));
        }
        if !is_whitespace(s[i]) {
            v.push(s[i]);
        }
        i = i + 1;
    }
    proof {
        assert(s@.take(s.len() as int) =~= s@);
    }
    v
}

fn has(hay: &Vec<char>, needle: &str) -> (r: bool)
    ensures
        r == seq_contains(hay@, needle@),
{
    let n = chars_of(needle);
    contains_chars(hay.as_slice(), n.as_slice())
}

/// Feedback that keeps a clip from the opening (compact forms of the
/// Chinese phrases, or English phrases).
pub open spec fn rejects_opening(lower: Seq<char>, compact: Seq<char>) -> bool {
    seq_contains(compact, "不适合开场"@) || seq_contains(compact, "不要开场"@) || seq_contains(compact, "别放开场"@)
        || seq_contains(compact, "不放开场"@) || seq_contains(lower, "not opening"@) || seq_contains(
        lower,
        "not opener"@,
    ) || seq_contains(lower, "avoid opening"@)
}

/// Feedback that recommends a clip for the opening.
pub open spec fn prefers_opening(lower: Seq<char>, compact: Seq<char>) -> bool {
    seq_contains(compact, "适合开场"@) || seq_contains(compact, "开场好"@) || seq_contains(lower, "good opener"@)
        || seq_contains(lower, "use as opening"@)
}

/// The kind of a piece of clip feedback and its effect on recommendations.
pub open spec fn spec_classify_feedback(feedback: Seq<char>) -> (Seq<char>, Seq<char>) {
    let lower = unicode_lowercase(feedback);
    let compact = remove_ws(lower);
    if rejects_opening(lower, compact) {
        ("opening_reject"@, "deprioritize_opening"@)
    } else if prefers_opening(lower, compact) {
        ("opening_prefer"@, "prefer_opening"@)
    } else {
        ("general"@, "cite_context"@)
    }
}

/// Classifies PM feedback on a clip: (kind, recommendation effect).
pub fn classify_feedback(feedback: &str) -> (r: (String, String))
    ensures
        (r.0@, r.1@) == spec_classify_feedback(feedback@),
{
    let lower_s = to_lowercase(feedback);
    let lower = chars_of(lower_s.as_str());
    let compact = remove_ws_chars(lower.as_slice());
    if has(&compact, "不适合开场") || has(&compact, "不要开场") || has(&compact, "别放开场") || has(&compact, "不放开场")
        || has(&lower, "not opening") || has(&lower, "not opener") || has(&lower, "avoid opening") {
        return (lit("opening_reject"), lit("deprioritize_opening"));
    }
    if has(&compact, "适合开场") || has(&compact, "开场好") || has(&lower, "good opener") || has(
        &lower,
        "use as opening",
    ) {
        return (lit("opening_prefer"), lit("prefer_opening"));
    }
    (lit("general"), lit("cite_context"))
}

/// The pacing tag of a clip length.
pub open spec fn pace_tag(duration_ms: u64) -> Seq<char> {
    if duration_ms <= 1500 {
        "快节奏"@
    } else if duration_ms <= 3000 {
        "说明段"@
    } else {
        "铺垫"@
    }
}

pub open spec fn when(c: bool, tag: Seq<char>) -> Seq<Seq<char>> {
    if c {
        seq![tag]
    } else {
        seq![]
    }
}

/// The tags of a clip, in string order without repeats: product detail,
/// wide shot, multi-camera, opening, then its pace. `lower` is the lower
/// case of `<scene> <filename>`.
pub open spec fn spec_tags(lower: Seq<char>, duration_ms: u64, index: usize) -> Seq<Seq<char>> {
    let opening = index == 1 || seq_contains(lower, "open"@) || seq_contains(lower, "wide"@);
    let wide = seq_contains(lower, "wide"@) || seq_contains(lower, "全景"@);
    let detail = seq_contains(lower, "close"@) || seq_contains(lower, "detail"@) || seq_contains(
        lower,
        "product"@,
    );
    let camera = seq_contains(lower, "camera"@);
    when(detail, "产品细节"@) + when(wide, "全景"@) + when(camera, "多机位"@) + when(opening, "开场"@) + seq![
        pace_tag(duration_ms),
    ]
}

fn push_when(tags: &mut Vec<String>, c: bool, tag: &str)
    ensures
        texts(final(tags)@) == texts(old(tags)@) + when(c, tag@),
{
    let ghost before = tags@;
    if c {
        tags.push(lit(tag));
        proof {
            assert(texts(tags@) =~= texts(before) + seq![tag@]);
        }
    } else {
        proof {
            assert(texts(tags@) =~= texts(before) + Seq::<Seq<char>>::empty());
        }
    }
}

/// The semantic tags of a clip: `scene` and `filename` decide the shot
/// tags, `duration_ms` the pace, and the first clip (`index` 1) is an
/// opening candidate.
pub fn tags_for(scene: &str, filename: &str, duration_ms: u64, index: usize) -> (tags: Vec<String>)
    ensures
        texts(tags@) == spec_tags(unicode_lowercase(scene@ + " "@ + filename@), duration_ms, index),
{
    let mut joined = lit(scene);
    joined.append(" ");
    joined.append(filename);
    let lower_s = to_lowercase(joined.as_str());
    let lower = chars_of(lower_s.as_str());
    let opening = index == 1 || has(&lower, "open") || has(&lower, "wide");
    let wide = has(&lower, "wide") || has(&lower, "全景");
    let detail = has(&lower, "close") || has(&lower, "detail") || has(&lower, "product");
    let camera = has(&lower, "camera");
    let mut tags: Vec<String> = Vec::new();
    proof {
        assert(texts(tags@) =~= Seq::<Seq<char>>::empty());
    }
    push_when(&mut tags, detail, "产品细节");
    push_when(&mut tags, wide, "全景");
    push_when(&mut tags, camera, "多机位");
    push_when(&mut tags, opening, "开场");
    let pace = if duration_ms <= 1500 {
        "快节奏"
    } else if duration_ms <= 3000 {
        "说明段"
    } else {
        "铺垫"
    };
    push_when(&mut tags, true, pace);
    tags
}

/// The rhythm note of a clip length.
pub open spec fn spec_rhythm(duration_ms: u64) -> Seq<char> {
    if duration_ms <= 1500 {
        "快节奏 hook，可用于抓住开头注意力"@
    } else if duration_ms <= 3000 {
        "中速说明，适合承接信息和产品证明"@
    } else {
        "慢速铺垫，适合建立背景或收束情绪"@
    }
}

/// Describes the rhythm a clip of `duration_ms` gives.
pub fn rhythm_for_duration(duration_ms: u64) -> (s: String)
    ensures
        s@ == spec_rhythm(duration_ms),
{
    if duration_ms <= 1500 {
        lit("快节奏 hook，可用于抓住开头注意力")
    } else if duration_ms <= 3000 {
        lit("中速说明，适合承接信息和产品证明")
    } else {
        lit("慢速铺垫，适合建立背景或收束情绪")
    }
}

/// What a clip is good for, from its scene (`lower` is its lower case) and
/// place.
pub open spec fn spec_use_case(lower: Seq<char>, index: usize) -> Seq<char> {
    if index == 1 || seq_contains(lower, "open"@) || seq_contains(lower, "opening"@) {
        "开场吸引注意"@
    } else if seq_contains(lower, "close"@) || seq_contains(lower, "detail"@) || seq_contains(lower, "product"@) {
        "产品细节证明"@
    } else {
        "承接段落或转场补充"@
    }
}

/// Suggests what a clip is for.
pub fn use_case_for(scene: &str, index: usize) -> (s: String)
    ensures
        s@ == spec_use_case(unicode_lowercase(scene@), index),
{
    let lower_s = to_lowercase(scene);
    let lower = chars_of(lower_s.as_str());
    if index == 1 || has(&lower, "open") || has(&lower, "opening") {
        lit("开场吸引注意")
    } else if has(&lower, "close") || has(&lower, "detail") || has(&lower, "product") {
        lit("产品细节证明")
    } else {
        lit("承接段落或转场补充")
    }
}

/// The length a clip is recorded with: its stated length, but at least its
/// span and at least 1 ms.
pub open spec fn spec_clip_duration(duration_ms: u64, start_ms: u64, end_ms: u64) -> u64 {
    let span: u64 = if end_ms >= start_ms {
        (end_ms - start_ms) as u64
    } else {
        0
    };
    let d = if duration_ms >= span {
        duration_ms
    } else {
        span
    };
    if d >= 1 {
        d
    } else {
        1
    }
}

/// The recorded length of a clip.
pub fn clip_duration(duration_ms: u64, start_ms: u64, end_ms: u64) -> (d: u64)
    ensures
        d == spec_clip_duration(duration_ms, start_ms, end_ms),
        d >= 1,
        d >= duration_ms,
{
    let span = end_ms.saturating_sub(start_ms);
    let d = if duration_ms >= span {
        duration_ms
    } else {
        span
    };
    if d >= 1 {
        d
    } else {
        1
    }
}

/// The label of a proposal change.
pub open spec fn spec_action_label(action: Seq<char>) -> Seq<char> {
    if action == "keep"@ {
        "保留"@
    } else if action == "deprioritize"@ {
        "降权"@
    } else if action == "replace"@ {
        "替换"@
    } else if action == "reorder"@ {
        "重排"@
    } else {
        "调整"@
    }
}

/// The label shown for a proposal change action.
pub fn action_label(action: &str) -> (s: &'static str)
    ensures
        s@ == spec_action_label(action@),
{
    let cs = chars_of(action);
    let a = cs.as_slice();
    if eq_lit(a, "keep") {
        "保留"
    } else if eq_lit(a, "deprioritize") {
        "降权"
    } else if eq_lit(a, "replace") {
        "替换"
    } else if eq_lit(a, "reorder") {
        "重排"
    } else {
        "调整"
    }
}

/// The reason recorded with a proposal decision when the PM gives none.
pub fn default_decision_reason(decision: &str) -> (s: String)
    ensures
        decision@ == "accept"@ ==> s@ == "PM 接受 proposal diff，允许写回剪辑队列。"@,
        decision@ != "accept"@ ==> s@ == "PM 拒绝 proposal diff，保持原剪辑队列。"@,
{
    let cs = chars_of(decision);
    if eq_lit(cs.as_slice(), "accept") {
        lit("PM 接受 proposal diff，允许写回剪辑队列。")
    } else {
        lit("PM 拒绝 proposal diff，保持原剪辑队列。")
    }
}

/// The decision a PM's word stands for, from its trimmed lower case.
pub open spec fn spec_decision(lower: Seq<char>) -> Option<Seq<char>> {
    if lower == "accept"@ || lower == "accepted"@ {
        Some("accept"@)
    } else if lower == "reject"@ || lower == "rejected"@ {
        Some("reject"@)
    } else {
        None
    }
}

/// Reads a proposal decision: `accept`/`accepted` or `reject`/`rejected`,
/// whatever the case and surrounding whitespace.
pub fn normalize_decision(decision: &str) -> (r: Result<&'static str, String>)
    ensures
        match spec_decision(unicode_lowercase(trim(decision@))) {
            Some(d) => r matches Ok(s) && s@ == d,
            None => r matches Err(m) && m@ == "unsupported video clip proposal decision: "@
                + unicode_lowercase(trim(decision@)) + "; expected accept or reject"@,
        },
{
    let cs = chars_of(decision);
    let t = trim_chars(cs.as_slice());
    let ts = string_from_chars(t.as_slice());
    let lower_s = to_lowercase(ts.as_str());
    let lower = chars_of(lower_s.as_str());
    let l = lower.as_slice();
    if eq_lit(l, "accept") || eq_lit(l, "accepted") {
        Ok("accept")
    } else if eq_lit(l, "reject") || eq_lit(l, "rejected") {
        Ok("reject")
    } else {
        let mut m = lit("unsupported video clip proposal decision: ");
        m.append(lower_s.as_str());
        m.append("; expected accept or reject");
        Err(m)
    }
}

} // verus!
