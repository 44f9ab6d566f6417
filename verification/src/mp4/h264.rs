//! H.264 bit-level reading: removing emulation-prevention bytes and reading
//! fixed-width and Exp-Golomb fields of a sequence parameter set.

use vstd::prelude::*;
use vstd::arithmetic::power2::{pow2, lemma_pow2_unfold, lemma2_to64};

verus! {

// ───────────────────────── emulation prevention ─────────────────────────

/// The RBSP of a NAL payload read from `i` on: each `00 00 03` becomes `00 00`.
pub open spec fn strip_from(nal: Seq<u8>, i: int) -> Seq<u8>
    decreases nal.len() - i,
{
    if i < 0 || i >= nal.len() {
        Seq::empty()
    } else if i + 2 < nal.len() && nal[i] == 0 && nal[i + 1] == 0 && nal[i + 2] == 3 {
        seq![0u8, 0u8] + strip_from(nal, i + 3)
    } else {
        seq![nal[i]] + strip_from(nal, i + 1)
    }
}

/// Removes H.264 emulation-prevention bytes (`00 00 03` → `00 00`).
pub fn strip_emulation_prevention(nal: &[u8]) -> (out: Vec<u8>)
    ensures
        out@ == strip_from(nal@, 0),
{
    let n = nal.len();
    let mut out: Vec<u8> = Vec::new();
    let mut i: usize = 0;
    while i < n
        invariant
            n == nal@.len(),
            i <= n,
            out@ + strip_from(nal@, i as int) == strip_from(nal@, 0),
        decreases n - i,
    {
        if n - i > 2 && nal[i] == 0 && nal[i + 1] == 0 && nal[i + 2] == 3 {
            proof {
                assert(out@.push(0u8).push(0u8) + strip_from(nal@, i + 3) =~= out@ + (seq![
                    0u8,
                    0u8,
                ] + strip_from(nal@, i + 3)));
            }
            out.push(0);
            out.push(0);
            i = i + 3;
        } else {
            proof {
                assert(out@.push(nal@[i as int]) + strip_from(nal@, i + 1) =~= out@ + (seq![
                    nal@[i as int],
                ] + strip_from(nal@, i + 1)));
            }
            out.push(nal[i]);
            i = i + 1;
        }
    }
    proof {
        assert(out@ + Seq::<u8>::empty() =~= out@);
    }
    out
}

// ───────────────────────── bit reading ─────────────────────────

/// Bit `pos` of `d`, most significant bit of each byte first.
pub open spec fn bit_at(d: Seq<u8>, pos: int) -> u32 {
    ((d[pos / 8] >> ((7 - pos % 8) as u8)) & 1u8) as u32
}

/// One bit at `pos`, and the position after it.
pub open spec fn rb(d: Seq<u8>, pos: int) -> Option<(u32, int)> {
    if 0 <= pos < 8 * d.len() {
        Some((bit_at(d, pos), pos + 1))
    } else {
        None
    }
}

/// The unsigned value of the `n` bits from `pos`, MSB first.
pub open spec fn bits_value(d: Seq<u8>, pos: int, n: nat) -> int
    decreases n,
{
    if n == 0 {
        0
    } else {
        2 * bits_value(d, pos, (n - 1) as nat) + bit_at(d, pos + n - 1)
    }
}

/// `n` bits (at most 32) from `pos`, and the position after them.
pub open spec fn rbits(d: Seq<u8>, pos: int, n: nat) -> Option<(u32, int)> {
    if n > 32 || pos < 0 || pos + n > 8 * d.len() {
        None
    } else {
        Some((bits_value(d, pos, n) as u32, pos + n))
    }
}

/// The leading-zero count of an exp-Golomb code at `pos` (having seen `z`
/// zeros already) and the position after its terminating one bit; `None`
/// past the data or past 31 zeros.
pub open spec fn ue_prefix(d: Seq<u8>, pos: int, z: nat) -> Option<(nat, int)>
    decreases 8 * d.len() - pos,
{
    if pos < 0 || pos >= 8 * d.len() {
        None
    } else if bit_at(d, pos) == 0 {
        if z + 1 > 31 {
            None
        } else {
            ue_prefix(d, pos + 1, z + 1)
        }
    } else {
        Some((z, pos + 1))
    }
}

/// Unsigned exp-Golomb `ue(v)` at `pos`: value and position after it.
pub open spec fn rue(d: Seq<u8>, pos: int) -> Option<(u32, int)> {
    match ue_prefix(d, pos, 0) {
        None => None,
        Some((z, p)) => {
            if z == 0 {
                Some((0u32, p))
            } else {
                match rbits(d, p, z) {
                    None => None,
                    Some((s, p2)) => Some(((pow2(z) - 1 + s) as u32, p2)),
                }
            }
        },
    }
}

/// A read position in bits: byte index plus bit index inside that byte.
#[derive(Debug, Clone, Copy)]
pub struct BitPos {
    pub byte: usize,
    pub bit: u8,
}

impl BitPos {
    pub open spec fn val(self) -> int {
        8 * self.byte + self.bit
    }

    pub open spec fn wf(self, len: nat) -> bool {
        self.bit < 8 && (self.byte < len || (self.byte == len && self.bit == 0))
    }
}

proof fn lemma_and1(x: u8, s: u8)
    ensures
        (x >> s) & 1u8 <= 1,
{
    assert((x >> s) & 1u8 <= 1) by (bit_vector);
}

proof fn lemma_bits_value_bound(d: Seq<u8>, pos: int, n: nat)
    ensures
        0 <= bits_value(d, pos, n) < pow2(n),
    decreases n,
{
    if n > 0 {
        lemma_bits_value_bound(d, pos, (n - 1) as nat);
        lemma_pow2_unfold(n);
        lemma_and1(d[(pos + n - 1) / 8], (7 - (pos + n - 1) % 8) as u8);
    } else {
        lemma2_to64();
    }
}

/// Reads one bit.
pub fn read_bit(d: &[u8], p: &mut BitPos) -> (r: Option<u32>)
    requires
        old(p).wf(d@.len()),
    ensures
        final(p).wf(d@.len()),
        match rb(d@, old(p).val()) {
            Some((v, q)) => r == Some(v) && final(p).val() == q,
            None => r is None,
        },
{
    if p.byte >= d.len() {
        return None;
    }
    let byte = d[p.byte];
    let shift: u8 = 7 - p.bit;
    let b = ((byte >> shift) & 1u8) as u32;
    proof {
        let pos = old(p).val();
        assert(pos / 8 == p.byte as int && pos % 8 == p.bit as int);
    }
    if p.bit == 7 {
        p.byte = p.byte + 1;
        p.bit = 0;
    } else {
        p.bit = p.bit + 1;
    }
    Some(b)
}

/// Reads `n` bits, MSB first; `None` for `n > 32` or past the data.
pub fn read_bits(d: &[u8], p: &mut BitPos, n: u32) -> (r: Option<u32>)
    requires
        old(p).wf(d@.len()),
    ensures
        final(p).wf(d@.len()),
        match rbits(d@, old(p).val(), n as nat) {
            Some((v, q)) => r == Some(v) && final(p).val() == q,
            None => r is None,
        },
{
    if n > 32 {
        return None;
    }
    let ghost start = p.val();
    let mut v: u32 = 0;
    let mut k: u32 = 0;
    while k < n
        invariant
            p.wf(d@.len()),
            k <= n <= 32,
            p.val() == start + k,
            start + k <= 8 * d@.len(),
            v as int == bits_value(d@, start, k as nat),
            start >= 0,
            start == old(p).val(),
        decreases n - k,
    {
        let b = read_bit(d, p);
        match b {
            None => {
                assert(start + n > 8 * d@.len());
                assert(rbits(d@, start, n as nat) is None);
                return None;
            },
            Some(bit) => {
                proof {
                    lemma_bits_value_bound(d@, start, k as nat);
                    lemma_bits_value_bound(d@, start, (k + 1) as nat);
                    lemma2_to64();
                    assert(pow2((k + 1) as nat) <= pow2(32)) by {
                        if k + 1 < 32 {
                            vstd::arithmetic::power2::lemma_pow2_strictly_increases(
                                (k + 1) as nat,
                                32,
                            );
                        }
                    }
                    assert(bits_value(d@, start, (k + 1) as nat) == 2 * v + bit);
                }
                v = v * 2 + bit;
                k = k + 1;
            },
        }
    }
    proof {
        lemma_bits_value_bound(d@, start, n as nat);
    }
    Some(v)
}


/// Signed exp-Golomb `se(v)` at `pos`: value and position after it.
pub open spec fn rse(d: Seq<u8>, pos: int) -> Option<(i32, int)> {
    match rue(d, pos) {
        None => None,
        Some((k, p)) => {
            let mag = (k + 1) / 2;
            if k == 0 {
                Some((0i32, p))
            } else if k % 2 == 1 {
                Some((mag as i32, p))
            } else {
                Some((-mag as i32, p))
            }
        },
    }
}

/// `r`/`q` agree with an optional end position `o`.
pub open spec fn moved_to(o: Option<int>, r: bool, q: int) -> bool {
    match o {
        Some(e) => r && q == e,
        None => !r,
    }
}

/// Reads an unsigned exp-Golomb code `ue(v)`.
pub fn read_ue(d: &[u8], p: &mut BitPos) -> (r: Option<u32>)
    requires
        old(p).wf(d@.len()),
    ensures
        final(p).wf(d@.len()),
        match rue(d@, old(p).val()) {
            Some((v, q)) => r == Some(v) && final(p).val() == q,
            None => r is None,
        },
{
    let ghost start = p.val();
    let mut zeros: u32 = 0;
    let mut pow: u32 = 1;
    let mut found = false;
    proof {
        lemma2_to64();
    }
    while !found
        invariant
            p.wf(d@.len()),
            start == old(p).val(),
            zeros <= 31,
            pow as int == pow2(zeros as nat),
            !found ==> ue_prefix(d@, start, 0) == ue_prefix(d@, p.val(), zeros as nat),
            found ==> ue_prefix(d@, start, 0) == Some((zeros as nat, p.val())),
        decreases 8 * d@.len() - p.val() + (if found { 0int } else { 1int }),
    {
        let ghost before = p.val();
        match read_bit(d, p) {
            None => {
                return None;
            },
            Some(b) => {
                if b == 0 {
                    if zeros + 1 > 31 {
                        return None;
                    }
                    proof {
                        lemma_pow2_unfold((zeros + 1) as nat);
                        lemma2_to64();
                        vstd::arithmetic::power2::lemma_pow2_strictly_increases(
                            (zeros + 1) as nat,
                            32,
                        );
                    }
                    zeros = zeros + 1;
                    pow = pow * 2;
                } else {
                    found = true;
                }
            },
        }
    }
    if zeros == 0 {
        return Some(0);
    }
    let suffix = read_bits(d, p, zeros);
    match suffix {
        None => None,
        Some(s) => {
            proof {
                lemma_bits_value_bound(d@, p.val() - zeros, zeros as nat);
                vstd::arithmetic::power2::lemma_pow2_strictly_increases(zeros as nat, 32);
            }
            Some(pow - 1 + s)
        },
    }
}

/// Reads a signed exp-Golomb code `se(v)`.
pub fn read_se(d: &[u8], p: &mut BitPos) -> (r: Option<i32>)
    requires
        old(p).wf(d@.len()),
    ensures
        final(p).wf(d@.len()),
        match rse(d@, old(p).val()) {
            Some((v, q)) => r == Some(v) && final(p).val() == q,
            None => r is None,
        },
{
    let k = match read_ue(d, p) {
        None => {
            return None;
        },
        Some(k) => k,
    };
    if k == 0 {
        return Some(0);
    }
    let mag = ((k as i64 + 1) / 2) as i32;
    if k % 2 == 1 {
        Some(mag)
    } else {
        Some(-mag)
    }
}


// ───────────────────────── SPS colour description ─────────────────────────

/// Profiles whose SPS carries `chroma_format_idc` and bit-depth fields.
pub open spec fn has_chroma(profile: u32) -> bool {
    profile == 100 || profile == 110 || profile == 122 || profile == 244 || profile == 44
        || profile == 83 || profile == 86 || profile == 118 || profile == 128 || profile == 138
        || profile == 139 || profile == 134 || profile == 135
}

pub open spec fn sk_bits(d: Seq<u8>, o: Option<int>, n: nat) -> Option<int> {
    match o {
        None => None,
        Some(q) => match rbits(d, q, n) {
            None => None,
            Some((_, q2)) => Some(q2),
        },
    }
}

pub open spec fn sk_ue(d: Seq<u8>, o: Option<int>) -> Option<int> {
    match o {
        None => None,
        Some(q) => match rue(d, q) {
            None => None,
            Some((_, q2)) => Some(q2),
        },
    }
}

pub open spec fn sk_se(d: Seq<u8>, o: Option<int>) -> Option<int> {
    match o {
        None => None,
        Some(q) => match rse(d, q) {
            None => None,
            Some((_, q2)) => Some(q2),
        },
    }
}

/// `profile_idc`, then `constraint_set_flags`, `level_idc` and
/// `seq_parameter_set_id`: the profile and the position after them.
pub open spec fn sps_head(d: Seq<u8>) -> Option<(u32, int)> {
    match rbits(d, 0, 8) {
        None => None,
        Some((profile, p1)) => match sk_ue(d, sk_bits(d, sk_bits(d, Some(p1), 8), 8)) {
            None => None,
            Some(p2) => Some((profile, p2)),
        },
    }
}

/// Chroma format and bit depths; `None` also when a scaling matrix is
/// present (those lists are not decoded).
pub open spec fn sps_chroma(d: Seq<u8>, p: int) -> Option<int> {
    match rue(d, p) {
        None => None,
        Some((chroma, p1)) => {
            let p2 = if chroma == 3 {
                sk_bits(d, Some(p1), 1)
            } else {
                Some(p1)
            };
            match sk_bits(d, sk_ue(d, sk_ue(d, p2)), 1) {
                None => None,
                Some(q) => match rb(d, q) {
                    None => None,
                    Some((scaling, q2)) => if scaling == 1 {
                        None
                    } else {
                        Some(q2)
                    },
                },
            }
        },
    }
}

/// Skips `n` signed exp-Golomb codes.
pub open spec fn skip_se_n(d: Seq<u8>, p: int, n: nat) -> Option<int>
    decreases n,
{
    if n == 0 {
        Some(p)
    } else {
        match rse(d, p) {
            None => None,
            Some((_, q)) => skip_se_n(d, q, (n - 1) as nat),
        }
    }
}

/// `log2_max_frame_num_minus4` and the picture-order-count fields.
pub open spec fn sps_poc(d: Seq<u8>, p: int) -> Option<int> {
    match sk_ue(d, Some(p)) {
        None => None,
        Some(p1) => match rue(d, p1) {
            None => None,
            Some((poc, p2)) => {
                if poc == 0 {
                    sk_ue(d, Some(p2))
                } else if poc == 1 {
                    match sk_se(d, sk_se(d, sk_bits(d, Some(p2), 1))) {
                        None => None,
                        Some(q) => match rue(d, q) {
                            None => None,
                            Some((num, q2)) => skip_se_n(d, q2, num as nat),
                        },
                    }
                } else {
                    Some(p2)
                }
            },
        },
    }
}

/// Reference frames, picture size, frame/field flags and cropping, up to and
/// including `vui_parameters_present_flag`; `None` when that flag is 0.
pub open spec fn sps_frame(d: Seq<u8>, p: int) -> Option<int> {
    match sk_ue(d, sk_ue(d, sk_bits(d, sk_ue(d, Some(p)), 1))) {
        None => None,
        Some(q) => match rb(d, q) {
            None => None,
            Some((frame_mbs_only, q1)) => {
                let q2 = if frame_mbs_only == 0 {
                    sk_bits(d, Some(q1), 1)
                } else {
                    Some(q1)
                };
                match sk_bits(d, q2, 1) {
                    None => None,
                    Some(r) => match rb(d, r) {
                        None => None,
                        Some((crop, r1)) => {
                            let r2 = if crop == 1 {
                                sk_ue(d, sk_ue(d, sk_ue(d, sk_ue(d, Some(r1)))))
                            } else {
                                Some(r1)
                            };
                            match r2 {
                                None => None,
                                Some(t) => match rb(d, t) {
                                    None => None,
                                    Some((vui, t1)) => if vui == 0 {
                                        None
                                    } else {
                                        Some(t1)
                                    },
                                },
                            }
                        },
                    },
                }
            },
        },
    }
}

/// VUI up to the colour description: `(primaries, transfer, matrix)`, or
/// `None` when the video signal type or colour description is absent.
pub open spec fn sps_vui_colour(d: Seq<u8>, p: int) -> Option<(u32, u32, u32)> {
    match rb(d, p) {
        None => None,
        Some((ar, p1)) => {
            let p2 = if ar == 1 {
                match rbits(d, p1, 8) {
                    None => None,
                    Some((idc, q)) => if idc == 255 {
                        sk_bits(d, sk_bits(d, Some(q), 16), 16)
                    } else {
                        Some(q)
                    },
                }
            } else {
                Some(p1)
            };
            match p2 {
                None => None,
                Some(q) => match rb(d, q) {
                    None => None,
                    Some((ov, q1)) => {
                        let q2 = if ov == 1 {
                            sk_bits(d, Some(q1), 1)
                        } else {
                            Some(q1)
                        };
                        match q2 {
                            None => None,
                            Some(r) => match rb(d, r) {
                                None => None,
                                Some((vs, r1)) => if vs == 0 {
                                    None
                                } else {
                                    match sk_bits(d, sk_bits(d, Some(r1), 3), 1) {
                                        None => None,
                                        Some(t) => match rb(d, t) {
                                            None => None,
                                            Some((cdp, t1)) => if cdp == 0 {
                                                None
                                            } else {
                                                match rbits(d, t1, 8) {
                                                    None => None,
                                                    Some((prim, u1)) => match rbits(d, u1, 8) {
                                                        None => None,
                                                        Some((tf, u2)) => match rbits(d, u2, 8) {
                                                            None => None,
                                                            Some((mat, _)) => Some((prim, tf, mat)),
                                                        },
                                                    },
                                                }
                                            },
                                        },
                                    }
                                },
                            },
                        }
                    },
                },
            }
        },
    }
}

/// The colour description an SPS RBSP declares in its VUI, if it reaches it.
#[verifier::opaque]
pub open spec fn sps_colour(d: Seq<u8>) -> Option<(u32, u32, u32)> {
    match sps_head(d) {
        None => None,
        Some((profile, p)) => {
            let pc = if has_chroma(profile) {
                sps_chroma(d, p)
            } else {
                Some(p)
            };
            match pc {
                None => None,
                Some(q) => match sps_poc(d, q) {
                    None => None,
                    Some(r) => match sps_frame(d, r) {
                        None => None,
                        Some(t) => sps_vui_colour(d, t),
                    },
                },
            }
        },
    }
}

fn skip_bits(d: &[u8], p: &mut BitPos, n: u32) -> (r: bool)
    requires
        old(p).wf(d@.len()),
    ensures
        final(p).wf(d@.len()),
        moved_to(sk_bits(d@, Some(old(p).val()), n as nat), r, final(p).val()),
{
    read_bits(d, p, n).is_some()
}

fn skip_ue(d: &[u8], p: &mut BitPos) -> (r: bool)
    requires
        old(p).wf(d@.len()),
    ensures
        final(p).wf(d@.len()),
        moved_to(sk_ue(d@, Some(old(p).val())), r, final(p).val()),
{
    read_ue(d, p).is_some()
}

fn skip_se(d: &[u8], p: &mut BitPos) -> (r: bool)
    requires
        old(p).wf(d@.len()),
    ensures
        final(p).wf(d@.len()),
        moved_to(sk_se(d@, Some(old(p).val())), r, final(p).val()),
{
    read_se(d, p).is_some()
}

fn sps_head_exec(d: &[u8], p: &mut BitPos) -> (r: Option<u32>)
    requires
        old(p).wf(d@.len()),
        old(p).val() == 0,
    ensures
        final(p).wf(d@.len()),
        match sps_head(d@) {
            Some((profile, q)) => r == Some(profile) && final(p).val() == q,
            None => r is None,
        },
{
    let profile = match read_bits(d, p, 8) {
        None => {
            return None;
        },
        Some(v) => v,
    };
    if !skip_bits(d, p, 8) {
        return None;
    }
    if !skip_bits(d, p, 8) {
        return None;
    }
    if !skip_ue(d, p) {
        return None;
    }
    Some(profile)
}

fn sps_chroma_exec(d: &[u8], p: &mut BitPos) -> (r: bool)
    requires
        old(p).wf(d@.len()),
    ensures
        final(p).wf(d@.len()),
        moved_to(sps_chroma(d@, old(p).val()), r, final(p).val()),
{
    let chroma = match read_ue(d, p) {
        None => {
            return false;
        },
        Some(v) => v,
    };
    if chroma == 3 {
        if !skip_bits(d, p, 1) {
            return false;
        }
    }
    if !skip_ue(d, p) {
        return false;
    }
    if !skip_ue(d, p) {
        return false;
    }
    if !skip_bits(d, p, 1) {
        return false;
    }
    match read_bit(d, p) {
        None => false,
        Some(scaling) => scaling != 1,
    }
}

fn sps_poc_exec(d: &[u8], p: &mut BitPos) -> (r: bool)
    requires
        old(p).wf(d@.len()),
    ensures
        final(p).wf(d@.len()),
        moved_to(sps_poc(d@, old(p).val()), r, final(p).val()),
{
    if !skip_ue(d, p) {
        return false;
    }
    let poc = match read_ue(d, p) {
        None => {
            return false;
        },
        Some(v) => v,
    };
    if poc == 0 {
        return skip_ue(d, p);
    } else if poc == 1 {
        if !skip_bits(d, p, 1) {
            return false;
        }
        if !skip_se(d, p) {
            return false;
        }
        if !skip_se(d, p) {
            return false;
        }
        let num = match read_ue(d, p) {
            None => {
                return false;
            },
            Some(v) => v,
        };
        let ghost base = p.val();
        let mut k: u32 = 0;
        while k < num
            invariant
                p.wf(d@.len()),
                k <= num,
                skip_se_n(d@, base, num as nat) == skip_se_n(d@, p.val(), (num - k) as nat),
                sps_poc(d@, old(p).val()) == skip_se_n(d@, base, num as nat),
            decreases num - k,
        {
            let ghost before = p.val();
            if !skip_se(d, p) {
                assert(skip_se_n(d@, before, (num - k) as nat) is None);
                return false;
            }
            assert(skip_se_n(d@, before, (num - k) as nat) == skip_se_n(
                d@,
                p.val(),
                (num - k - 1) as nat,
            ));
            k = k + 1;
        }
        return true;
    }
    true
}

fn sps_frame_exec(d: &[u8], p: &mut BitPos) -> (r: bool)
    requires
        old(p).wf(d@.len()),
    ensures
        final(p).wf(d@.len()),
        moved_to(sps_frame(d@, old(p).val()), r, final(p).val()),
{
    if !skip_ue(d, p) {
        return false;
    }
    if !skip_bits(d, p, 1) {
        return false;
    }
    if !skip_ue(d, p) {
        return false;
    }
    if !skip_ue(d, p) {
        return false;
    }
    let frame_mbs_only = match read_bit(d, p) {
        None => {
            return false;
        },
        Some(v) => v,
    };
    if frame_mbs_only == 0 {
        if !skip_bits(d, p, 1) {
            return false;
        }
    }
    if !skip_bits(d, p, 1) {
        return false;
    }
    let crop = match read_bit(d, p) {
        None => {
            return false;
        },
        Some(v) => v,
    };
    if crop == 1 {
        if !skip_ue(d, p) {
            return false;
        }
        if !skip_ue(d, p) {
            return false;
        }
        if !skip_ue(d, p) {
            return false;
        }
        if !skip_ue(d, p) {
            return false;
        }
    }
    match read_bit(d, p) {
        None => false,
        Some(vui) => vui != 0,
    }
}

fn sps_vui_colour_exec(d: &[u8], p: &mut BitPos) -> (r: Option<(u32, u32, u32)>)
    requires
        old(p).wf(d@.len()),
    ensures
        r == sps_vui_colour(d@, old(p).val()),
{
    let ar = match read_bit(d, p) {
        None => {
            return None;
        },
        Some(v) => v,
    };
    if ar == 1 {
        let idc = match read_bits(d, p, 8) {
            None => {
                return None;
            },
            Some(v) => v,
        };
        if idc == 255 {
            if !skip_bits(d, p, 16) {
                return None;
            }
            if !skip_bits(d, p, 16) {
                return None;
            }
        }
    }
    let ov = match read_bit(d, p) {
        None => {
            return None;
        },
        Some(v) => v,
    };
    if ov == 1 {
        if !skip_bits(d, p, 1) {
            return None;
        }
    }
    let vs = match read_bit(d, p) {
        None => {
            return None;
        },
        Some(v) => v,
    };
    if vs == 0 {
        return None;
    }
    if !skip_bits(d, p, 3) {
        return None;
    }
    if !skip_bits(d, p, 1) {
        return None;
    }
    let cdp = match read_bit(d, p) {
        None => {
            return None;
        },
        Some(v) => v,
    };
    if cdp == 0 {
        return None;
    }
    let prim = match read_bits(d, p, 8) {
        None => {
            return None;
        },
        Some(v) => v,
    };
    let tf = match read_bits(d, p, 8) {
        None => {
            return None;
        },
        Some(v) => v,
    };
    let mat = match read_bits(d, p, 8) {
        None => {
            return None;
        },
        Some(v) => v,
    };
    Some((prim, tf, mat))
}

/// Decodes an SPS RBSP up to its VUI colour description:
/// `(colour_primaries, transfer_characteristics, matrix_coefficients)`.
pub fn parse_sps_vui(rbsp: &[u8]) -> (r: Option<(u32, u32, u32)>)
    ensures
        r == sps_colour(rbsp@),
{
    reveal(sps_colour);
    let mut p = BitPos { byte: 0, bit: 0 };
    let profile = match sps_head_exec(rbsp, &mut p) {
        None => {
            return None;
        },
        Some(v) => v,
    };
    let chroma = profile == 100 || profile == 110 || profile == 122 || profile == 244 || profile
        == 44 || profile == 83 || profile == 86 || profile == 118 || profile == 128 || profile
        == 138 || profile == 139 || profile == 134 || profile == 135;
    if chroma {
        if !sps_chroma_exec(rbsp, &mut p) {
            return None;
        }
    }
    if !sps_poc_exec(rbsp, &mut p) {
        return None;
    }
    if !sps_frame_exec(rbsp, &mut p) {
        return None;
    }
    sps_vui_colour_exec(rbsp, &mut p)
}

} // verus!
