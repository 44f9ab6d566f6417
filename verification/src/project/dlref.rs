//! The content ref of a design language: an FNV-1a hash over the manifest
//! and its assets, taken in id order, with each asset's file bytes.

use vstd::prelude::*;
use vstd::utf8::encode_utf8;
use crate::project::hash::{fnv_fold, fnv_offset, hex16, lemma_fnv_fold_append, prefixed_hex, Fnv1a64};
use crate::project::model::{DesignLanguageAssetV1, DesignLanguageManifestV1};
use crate::project::order::{lemma_lt_total, lemma_lt_transitive, seq_lt, text_lt};
use crate::text::chars_of;

verus! {

/// Where a stable insertion puts index `i` into `order`: before the first
/// entry whose id sorts after `ids[i]`.
pub open spec fn insert_pos(ids: Seq<Seq<char>>, order: Seq<int>, i: int, k: int) -> int
    decreases order.len() - k,
{
    if k >= order.len() || k < 0 {
        order.len() as int
    } else if seq_lt(ids[i], ids[order[k]]) {
        k
    } else {
        insert_pos(ids, order, i, k + 1)
    }
}

/// The indices `0..n` ordered by id, ties kept in index order (a stable
/// sort, as `sort_by` on the ids).
pub open spec fn id_order(ids: Seq<Seq<char>>, n: nat) -> Seq<int>
    decreases n,
{
    if n == 0 {
        seq![]
    } else {
        let o = id_order(ids, (n - 1) as nat);
        o.insert(insert_pos(ids, o, n - 1, 0), n - 1)
    }
}

/// Index `a` comes before index `b`: smaller id, or the same id and a
/// smaller index.
pub open spec fn key_lt(ids: Seq<Seq<char>>, a: int, b: int) -> bool {
    seq_lt(ids[a], ids[b]) || (ids[a] == ids[b] && a < b)
}

/// `order` holds each of `0..n` once, in increasing key order.
pub open spec fn sorted_permutation(ids: Seq<Seq<char>>, order: Seq<int>, n: nat) -> bool {
    &&& order.len() == n
    &&& forall|k: int| 0 <= k < n ==> 0 <= #[trigger] order[k] < n
    &&& forall|k: int, l: int| 0 <= k < l < n ==> key_lt(ids, #[trigger] order[k], #[trigger] order[l])
}

proof fn lemma_insert_pos(ids: Seq<Seq<char>>, order: Seq<int>, i: int, k: int)
    requires
        0 <= k <= order.len(),
    ensures
        k <= insert_pos(ids, order, i, k) <= order.len(),
        forall|j: int| k <= j < insert_pos(ids, order, i, k) ==> !seq_lt(ids[i], ids[#[trigger] order[j]]),
        insert_pos(ids, order, i, k) < order.len() ==> seq_lt(ids[i], ids[order[insert_pos(ids, order, i, k)]]),
    decreases order.len() - k,
{
    if k < order.len() && !seq_lt(ids[i], ids[order[k]]) {
        lemma_insert_pos(ids, order, i, k + 1);
    }
}

/// The id order is a sorted permutation of the indices.
pub proof fn lemma_id_order_sorted(ids: Seq<Seq<char>>, n: nat)
    requires
        n <= ids.len(),
    ensures
        sorted_permutation(ids, id_order(ids, n), n),
    decreases n,
{
    if n > 0 {
        let m = (n - 1) as nat;
        lemma_id_order_sorted(ids, m);
        let o = id_order(ids, m);
        let i = n - 1;
        lemma_insert_pos(ids, o, i, 0);
        let p = insert_pos(ids, o, i, 0);
        o.insert_ensures(p, i);
        let r = o.insert(p, i);
        assert(r == id_order(ids, n));
        assert forall|k: int| 0 <= k < n implies 0 <= #[trigger] r[k] < n by {
            if k < p {
            } else if k > p {
                assert(r[k] == o[k - 1]);
            }
        }
        // Everything before the insertion point sorts before `i`.
        assert forall|k: int| 0 <= k < p implies key_lt(ids, #[trigger] o[k], i) by {
            assert(!seq_lt(ids[i], ids[o[k]]));
            lemma_lt_total(ids[i], ids[o[k]]);
        }
        // Everything from the insertion point on sorts after `i`.
        assert forall|k: int| p <= k < m implies key_lt(ids, i, #[trigger] o[k]) by {
            if k > p {
                assert(key_lt(ids, o[p], o[k]));
                if seq_lt(ids[o[p]], ids[o[k]]) {
                    lemma_lt_transitive(ids[i], ids[o[p]], ids[o[k]]);
                }
            }
        }
        assert forall|k: int, l: int| 0 <= k < l < n implies key_lt(ids, #[trigger] r[k], #[trigger] r[l]) by {
            if l < p {
            } else if k < p && l == p {
            } else if k < p {
                assert(r[l] == o[l - 1]);
            } else if k == p {
                assert(r[l] == o[l - 1]);
            } else {
                assert(r[k] == o[k - 1]);
                assert(r[l] == o[l - 1]);
            }
        }
    }
}

/// The bytes a hasher is fed for a string field: UTF-8 and a zero byte.
pub open spec fn field_bytes(s: Seq<char>) -> Seq<u8> {
    encode_utf8(s).push(0u8)
}

pub open spec fn or_empty(o: Option<String>) -> Seq<char> {
    match o {
        Some(s) => s@,
        None => seq![],
    }
}

/// A file's bytes, or the field `<missing>` when it could not be read.
pub open spec fn content_bytes(content: Option<Vec<u8>>) -> Seq<u8> {
    match content {
        Some(b) => b@,
        None => field_bytes("<missing>"@),
    }
}

/// The bytes fed for one asset: its fields, then its file's content.
pub open spec fn asset_bytes(a: DesignLanguageAssetV1, content: Option<Vec<u8>>) -> Seq<u8> {
    field_bytes(a.id@) + field_bytes(a.kind@) + field_bytes(or_empty(a.role)) + field_bytes(a.path@)
        + field_bytes(a.title@) + field_bytes(or_empty(a.description)) + content_bytes(content)
}

/// The bytes fed for the manifest's own fields.
pub open spec fn header_bytes(m: DesignLanguageManifestV1) -> Seq<u8> {
    field_bytes(m.schema_version@) + field_bytes(m.id@) + field_bytes(m.name@) + field_bytes(m.version@)
        + field_bytes(m.summary@)
}

/// The hasher state after the assets at `order`, in that order.
pub open spec fn feed_assets(h: u64, m: DesignLanguageManifestV1, contents: Seq<Option<Vec<u8>>>, order: Seq<int>) -> u64
    decreases order.len(),
{
    if order.len() == 0 {
        h
    } else {
        fnv_fold(
            feed_assets(h, m, contents, order.drop_last()),
            asset_bytes(m.assets@[order.last()], contents[order.last()]),
        )
    }
}

pub open spec fn asset_ids(m: DesignLanguageManifestV1) -> Seq<Seq<char>> {
    m.assets@.map_values(|a: DesignLanguageAssetV1| a.id@)
}

/// The ref of a design language whose asset files hold `contents` (in
/// manifest order): `dlpkg-fnv1a64-` and the 16 hex digits of the hash of
/// the manifest fields and the assets in id order.
pub open spec fn spec_design_language_ref(m: DesignLanguageManifestV1, contents: Seq<Option<Vec<u8>>>) -> Seq<char> {
    let order = id_order(asset_ids(m), m.assets@.len());
    "dlpkg-fnv1a64-"@ + hex16(feed_assets(fnv_fold(fnv_offset(), header_bytes(m)), m, contents, order))
}

fn write_field(h: &mut Fnv1a64, s: &str)
    ensures
        final(h)@ == fnv_fold(old(h)@, field_bytes(s@)),
{
    h.write_str(s);
}

fn write_opt(h: &mut Fnv1a64, o: &Option<String>)
    ensures
        final(h)@ == fnv_fold(old(h)@, field_bytes(or_empty(*o))),
{
    match o {
        Some(s) => h.write_str(s.as_str()),
        None => {
            proof {
                reveal_strlit("");
            }
            h.write_str("");
        },
    }
}

proof fn lemma_fold3(h: u64, a: Seq<u8>, b: Seq<u8>)
    ensures
        fnv_fold(fnv_fold(h, a), b) == fnv_fold(h, a + b),
{
    lemma_fnv_fold_append(h, a, b);
}

fn feed_asset(h: &mut Fnv1a64, a: &DesignLanguageAssetV1, content: &Option<Vec<u8>>)
    ensures
        final(h)@ == fnv_fold(old(h)@, asset_bytes(*a, *content)),
{
    let ghost h0 = h@;
    write_field(h, a.id.as_str());
    write_field(h, a.kind.as_str());
    write_opt(h, &a.role);
    write_field(h, a.path.as_str());
    write_field(h, a.title.as_str());
    write_opt(h, &a.description);
    let ghost h6 = h@;
    match content {
        Some(b) => h.write(b.as_slice()),
        None => write_field(h, "<missing>"),
    }
    proof {
        let f1 = field_bytes(a.id@);
        let f2 = field_bytes(a.kind@);
        let f3 = field_bytes(or_empty(a.role));
        let f4 = field_bytes(a.path@);
        let f5 = field_bytes(a.title@);
        let f6 = field_bytes(or_empty(a.description));
        let tail = content_bytes(*content);
        lemma_fold3(h0, f1, f2);
        lemma_fold3(h0, f1 + f2, f3);
        lemma_fold3(h0, f1 + f2 + f3, f4);
        lemma_fold3(h0, f1 + f2 + f3 + f4, f5);
        lemma_fold3(h0, f1 + f2 + f3 + f4 + f5, f6);
        lemma_fold3(h0, f1 + f2 + f3 + f4 + f5 + f6, tail);
    }
}

/// The assets' indices in id order (stable).
pub fn asset_id_order(assets: &Vec<DesignLanguageAssetV1>) -> (order: Vec<usize>)
    ensures
        order@.len() == assets@.len(),
        forall|k: int| 0 <= k < order@.len() ==> order@[k] as int == id_order(
            assets@.map_values(|a: DesignLanguageAssetV1| a.id@),
            assets@.len(),
        )[k],
{
    let ghost ids = assets@.map_values(|a: DesignLanguageAssetV1| a.id@);
    let mut order: Vec<usize> = Vec::new();
    let mut i: usize = 0;
    while i < assets.len()
        invariant
            i <= assets@.len(),
            ids == assets@.map_values(|a: DesignLanguageAssetV1| a.id@),
            order@.len() == i,
            forall|k: int| 0 <= k < i ==> order@[k] as int == #[trigger] id_order(ids, i as nat)[k],
            forall|k: int| 0 <= k < i ==> order@[k] < i,
        decreases assets.len() - i,
    {
        let ghost o = id_order(ids, i as nat);
        proof {
            lemma_id_order_sorted(ids, i as nat);
        }
        let ic = chars_of(assets[i].id.as_str());
        let mut p: usize = 0;
        while p < order.len()
            invariant_except_break
                p <= order@.len(),
                order@.len() == i,
                i < assets@.len(),
                ic@ == ids[i as int],
                ids == assets@.map_values(|a: DesignLanguageAssetV1| a.id@),
                forall|k: int| 0 <= k < i ==> order@[k] as int == o[k],
                forall|k: int| 0 <= k < i ==> order@[k] < i,
                o.len() == i,
                insert_pos(ids, o, i as int, 0) == insert_pos(ids, o, i as int, p as int),
            ensures
                p <= order@.len(),
                insert_pos(ids, o, i as int, 0) == p,
            decreases order.len() - p,
        {
            let q = order[p];
            let qc = chars_of(assets[q].id.as_str());
            if text_lt(ic.as_slice(), qc.as_slice()) {
                break;
            }
            p = p + 1;
        }
        order.insert(p, i);
        proof {
            o.insert_ensures(p as int, i as int);
            let r = id_order(ids, (i + 1) as nat);
            assert(r == o.insert(p as int, i as int));
            assert forall|k: int| 0 <= k < i + 1 implies order@[k] as int == #[trigger] r[k] by {
                if k > p {
                    assert(r[k] == o[k - 1]);
                }
            }
        }
        i = i + 1;
    }
    order
}

/// The content ref of a design language, given the bytes of its asset
/// files in manifest order (`None` where a file could not be read).
pub fn design_language_ref(manifest: &DesignLanguageManifestV1, contents: &Vec<Option<Vec<u8>>>) -> (s: String)
    requires
        contents@.len() == manifest.assets@.len(),
    ensures
        s@ == spec_design_language_ref(*manifest, contents@),
{
    let mut h = Fnv1a64::new();
    write_field(&mut h, manifest.schema_version.as_str());
    write_field(&mut h, manifest.id.as_str());
    write_field(&mut h, manifest.name.as_str());
    write_field(&mut h, manifest.version.as_str());
    write_field(&mut h, manifest.summary.as_str());
    proof {
        let m = *manifest;
        let h0 = fnv_offset();
        lemma_fold3(h0, field_bytes(m.schema_version@), field_bytes(m.id@));
        lemma_fold3(h0, field_bytes(m.schema_version@) + field_bytes(m.id@), field_bytes(m.name@));
        lemma_fold3(h0, field_bytes(m.schema_version@) + field_bytes(m.id@) + field_bytes(m.name@), field_bytes(m.version@));
        lemma_fold3(
            h0,
            field_bytes(m.schema_version@) + field_bytes(m.id@) + field_bytes(m.name@) + field_bytes(m.version@),
            field_bytes(m.summary@),
        );
    }
    let ghost start = h@;
    let order = asset_id_order(&manifest.assets);
    let ghost o = id_order(asset_ids(*manifest), manifest.assets@.len());
    proof {
        lemma_id_order_sorted(asset_ids(*manifest), manifest.assets@.len());
    }
    let mut k: usize = 0;
    while k < order.len()
        invariant
            k <= order@.len(),
            order@.len() == manifest.assets@.len(),
            contents@.len() == manifest.assets@.len(),
            o.len() == order@.len(),
            forall|j: int| 0 <= j < order@.len() ==> order@[j] as int == #[trigger] o[j],
            forall|j: int| 0 <= j < o.len() ==> 0 <= #[trigger] o[j] < o.len(),
            h@ == feed_assets(start, *manifest, contents@, o.take(k as int)),
        decreases order.len() - k,
    {
        let q = order[k];
        assert(o[k as int] == q as int);
        feed_asset(&mut h, &manifest.assets[q], &contents[q]);
        proof {
            assert(o.take(k + 1).drop_last() =~= o.take(k as int));
        }
        k = k + 1;
    }
    proof {
        assert(o.take(o.len() as int) =~= o);
        assert(asset_ids(*manifest) == manifest.assets@.map_values(|a: DesignLanguageAssetV1| a.id@));
    }
    prefixed_hex("dlpkg-fnv1a64-", h.finish())
}

} // verus!
