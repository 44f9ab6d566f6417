//! FNV-1a (64-bit) hashing and the hash-derived ids of the project package.

use vstd::prelude::*;
use vstd::utf8::encode_utf8;
use crate::text::{decimal, decimal_chars, trim, trim_chars, chars_of, string_from_chars};

verus! {

pub open spec fn fnv_offset() -> u64 {
    0xcbf29ce484222325u64
}

pub open spec fn fnv_prime() -> u64 {
    0x100000001b3u64
}

/// One FNV-1a step: xor the byte in, multiply by the prime (wrapping).
pub open spec fn fnv_step(h: u64, b: u8) -> u64 {
    vstd::wrapping::u64_specs::wrapping_mul(h ^ (b as u64), fnv_prime())
}

/// The state after feeding `bytes`, in order, to a hasher in state `h`.
pub open spec fn fnv_fold(h: u64, bytes: Seq<u8>) -> u64
    decreases bytes.len(),
{
    if bytes.len() == 0 {
        h
    } else {
        fnv_step(fnv_fold(h, bytes.drop_last()), bytes.last())
    }
}

/// FNV-1a (64-bit) of `bytes`.
pub open spec fn spec_fnv1a64(bytes: Seq<u8>) -> u64 {
    fnv_fold(fnv_offset(), bytes)
}

/// Hashing `a` then `b` is hashing `a + b`: the hasher can be fed in pieces.
pub proof fn lemma_fnv_fold_append(h: u64, a: Seq<u8>, b: Seq<u8>)
    ensures
        fnv_fold(fnv_fold(h, a), b) == fnv_fold(h, a + b),
    decreases b.len(),
{
    if b.len() == 0 {
        assert(a + b =~= a);
    } else {
        lemma_fnv_fold_append(h, a, b.drop_last());
        assert((a + b).drop_last() =~= a + b.drop_last());
        assert((a + b).last() == b.last());
    }
}

fn fnv_write(h: u64, bytes: &[u8]) -> (r: u64)
    ensures
        r == fnv_fold(h, bytes@),
{
    let mut hash = h;
    let mut i: usize = 0;
    while i < bytes.len()
        invariant
            i <= bytes.len(),
            hash == fnv_fold(h, bytes@.take(i as int)),
        decreases bytes.len() - i,
    {
        proof {
            assert(bytes@.take(i + 1).drop_last() =~= bytes@.take(i as int));
        }
        hash = (hash ^ (bytes[i] as u64)).wrapping_mul(0x100000001b3u64);
        i = i + 1;
    }
    proof {
        assert(bytes@.take(bytes.len() as int) =~= bytes@);
    }
    hash
}

/// FNV-1a (64-bit) of a byte slice.
pub fn fnv1a64(bytes: &[u8]) -> (h: u64)
    ensures
        h == spec_fnv1a64(bytes@),
{
    fnv_write(0xcbf29ce484222325u64, bytes)
}

/// An FNV-1a (64-bit) hasher fed in pieces.
pub struct Fnv1a64(u64);

impl View for Fnv1a64 {
    type V = u64;

    closed spec fn view(&self) -> u64 {
        self.0
    }
}

impl Fnv1a64 {
    /// A hasher that has been fed nothing.
    pub fn new() -> (s: Self)
        ensures
            s@ == fnv_offset(),
    {
        Fnv1a64(0xcbf29ce484222325u64)
    }

    /// Feeds `bytes`.
    pub fn write(&mut self, bytes: &[u8])
        ensures
            final(self)@ == fnv_fold(old(self)@, bytes@),
    {
        self.0 = fnv_write(self.0, bytes);
    }

    /// Feeds the UTF-8 bytes of `value`, then a zero byte as separator.
    pub fn write_str(&mut self, value: &str)
        ensures
            final(self)@ == fnv_fold(old(self)@, encode_utf8(value@).push(0u8)),
    {
        let ghost h0 = self@;
        self.write(value.as_bytes());
        let zero: [u8; 1] = [0u8];
        self.write(&zero);
        proof {
            assert(zero@ =~= seq![0u8]);
            lemma_fnv_fold_append(h0, encode_utf8(value@), seq![0u8]);
            assert(encode_utf8(value@) + seq![0u8] =~= encode_utf8(value@).push(0u8));
        }
    }

    /// The hash of everything fed so far.
    pub fn finish(self) -> (h: u64)
        ensures
            h == self@,
    {
        self.0
    }
}

/// Lower-case hex digit of `d < 16`.
pub open spec fn hex_char(d: int) -> char {
    if d < 10 {
        (48 + d) as char
    } else {
        (87 + d) as char
    }
}

/// The last `n` hex digits of `v`, zero-padded (`{:0nx}` for values below 16^n).
pub open spec fn hex_fixed(v: nat, n: nat) -> Seq<char>
    decreases n,
{
    if n == 0 {
        seq![]
    } else {
        hex_fixed(v / 16, (n - 1) as nat).push(hex_char((v % 16) as int))
    }
}

/// `{:016x}` of a 64-bit value.
pub open spec fn hex16(v: u64) -> Seq<char> {
    hex_fixed(v as nat, 16)
}

fn hex_digit(d: u64) -> (c: char)
    requires
        d < 16,
    ensures
        c == hex_char(d as int),
{
    let b: u8 = if d < 10 {
        48u8 + (d as u8)
    } else {
        87u8 + (d as u8)
    };
    b as char
}

/// The 16 lower-case hex digits of `v`.
pub fn hex16_chars(v: u64) -> (out: Vec<char>)
    ensures
        out@ == hex16(v),
{
    let mut rev: Vec<char> = Vec::new();
    let mut m: u64 = v;
    let mut k: usize = 0;
    while k < 16
        invariant
            k <= 16,
            rev@.len() == k,
            hex16(v) == hex_fixed(m as nat, (16 - k) as nat) + rev@.reverse(),
        decreases 16 - k,
    {
        let c = hex_digit(m % 16);
        proof {
            assert(hex_fixed(m as nat, (16 - k) as nat) == hex_fixed((m / 16) as nat, (16 - k - 1) as nat).push(c));
            assert(rev@.push(c).reverse() =~= seq![c] + rev@.reverse());
            assert(hex_fixed((m / 16) as nat, (16 - k - 1) as nat).push(c) + rev@.reverse() =~= hex_fixed(
                (m / 16) as nat,
                (16 - k - 1) as nat,
            ) + (seq![c] + rev@.reverse()));
        }
        rev.push(c);
        m = m / 16;
        k = k + 1;
    }
    proof {
        assert(hex_fixed(m as nat, 0) =~= Seq::<char>::empty());
        assert(hex16(v) =~= rev@.reverse());
    }
    let mut out: Vec<char> = Vec::new();
    let mut i: usize = 16;
    while i > 0
        invariant
            i <= 16,
            rev@.len() == 16,
            out@ == rev@.subrange(i as int, 16).reverse(),
        decreases i,
    {
        i = i - 1;
        proof {
            assert(rev@.subrange(i as int, 16).reverse() =~= rev@.subrange(i + 1, 16).reverse().push(
                rev@[i as int],
            ));
        }
        out.push(rev[i]);
    }
    proof {
        assert(rev@.subrange(0, 16) =~= rev@);
    }
    out
}

/// `prefix` followed by the 16 hex digits of `v`.
pub fn prefixed_hex(prefix: &str, v: u64) -> (s: String)
    ensures
        s@ == prefix@ + hex16(v),
{
    let mut s = String::from_str(prefix);
    let h = hex16_chars(v);
    let hs = string_from_chars(h.as_slice());
    s.append(hs.as_str());
    s
}

/// The content hash of a review run: `fnv1a64-` and the 16 hex digits of
/// the FNV-1a hash of the text's UTF-8 bytes.
pub fn source_hash(contents: &str) -> (s: String)
    ensures
        s@ == "fnv1a64-"@ + hex16(spec_fnv1a64(encode_utf8(contents@))),
{
    let h = fnv1a64(contents.as_bytes());
    prefixed_hex("fnv1a64-", h)
}

/// The key that identifies a clip across manifests:
/// `<composition>|<clip>|<start>|<end>`, the first two trimmed.
pub open spec fn spec_clip_key(composition_path: Seq<char>, clip_id: Seq<char>, start_ms: u64, end_ms: u64) -> Seq<char> {
    trim(composition_path) + seq!['|'] + trim(clip_id) + seq!['|'] + decimal(start_ms as nat) + seq!['|']
        + decimal(end_ms as nat)
}

fn push_all(v: &mut Vec<char>, cs: &[char])
    ensures
        final(v)@ == old(v)@ + cs@,
{
    let mut i: usize = 0;
    while i < cs.len()
        invariant
            i <= cs.len(),
            v@ == old(v)@ + cs@.take(i as int),
        decreases cs.len() - i,
    {
        v.push(cs[i]);
        proof {
            assert(cs@.take(i + 1) =~= cs@.take(i as int).push(cs@[i as int]));
        }
        i = i + 1;
    }
    proof {
        assert(cs@.take(cs.len() as int) =~= cs@);
    }
}

/// The key that identifies a clip across the queue, feedback and semantics
/// manifests.
pub fn clip_semantic_key(composition_path: &str, clip_id: &str, start_ms: u64, end_ms: u64) -> (s: String)
    ensures
        s@ == spec_clip_key(composition_path@, clip_id@, start_ms, end_ms),
{
    let cp = chars_of(composition_path);
    let ci = chars_of(clip_id);
    let mut v = trim_chars(cp.as_slice());
    v.push('|');
    let t = trim_chars(ci.as_slice());
    push_all(&mut v, t.as_slice());
    v.push('|');
    let a = decimal_chars(start_ms);
    push_all(&mut v, a.as_slice());
    v.push('|');
    let b = decimal_chars(end_ms);
    push_all(&mut v, b.as_slice());
    string_from_chars(v.as_slice())
}

/// Id of the feedback recorded for a clip: `feedback-fnv1a64-` and the hash
/// of its clip key.
pub fn feedback_id(clip_key: &str) -> (s: String)
    ensures
        s@ == "feedback-fnv1a64-"@ + hex16(spec_fnv1a64(encode_utf8(clip_key@))),
{
    let h = fnv1a64(clip_key.as_bytes());
    prefixed_hex("feedback-fnv1a64-", h)
}

/// Id of a clip's semantic record: `sem-fnv1a64-` and the hash of its clip key.
pub fn semantic_id(composition_path: &str, clip_id: &str, start_ms: u64, end_ms: u64) -> (s: String)
    ensures
        s@ == "sem-fnv1a64-"@ + hex16(
            spec_fnv1a64(encode_utf8(spec_clip_key(composition_path@, clip_id@, start_ms, end_ms))),
        ),
{
    let key = clip_semantic_key(composition_path, clip_id, start_ms, end_ms);
    let h = fnv1a64(key.as_str().as_bytes());
    prefixed_hex("sem-fnv1a64-", h)
}

} // verus!
