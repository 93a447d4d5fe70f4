//! Verifying cgroupfs against the knobs and deciding the corrections.
//!
//! The caller reads each file that a check names and hands its first line to
//! the matching decision here; a decision that returns a value asks for that
//! value to be written back.
use vstd::prelude::*;
use vstd::seq_lib::*;
use vstd::string::*;

use crate::apply::planned_fields;
use crate::knob::{cgrp_bytes_text, mknob_to_cgrp_string, MemoryKnob};
use crate::slice::{
    enforce_mem_spec, needs_mem_prot_propagation, slice_at, Config,
    DisableSeqKnobs, Slice, SliceError, SliceKnobs, SliceKnobsView, NR_SLICES,
};
use crate::text::{
    all_digits, contains, contains_spec, dec, digit_char, digit_value, digits_value, is_digit,
    parse_u64, parse_u64_spec, starts_with_spec, str_eq, strip_prefix, u64_to_dec,
};
use crate::unit::UnitResCtl;

verus! {

/// The root's `cgroup.subtree_control` disagrees with what the enforcement
/// and the disable stamps call for.
pub open spec fn controllers_disagree_spec(line: Seq<char>, d: DisableSeqKnobs, cfg: Config) -> bool {
    ||| (cfg.enforce.cpu && ((d.cpu < cfg.instance_seq) != contains_spec(line, "cpu"@)))
    ||| (cfg.enforce.io && !contains_spec(line, "io"@))
    ||| (cfg.enforce.crit_mem_prot && !contains_spec(line, "memory"@))
}

pub fn controllers_disagree(line: &str, dseqs: &DisableSeqKnobs, cfg: &Config) -> (r: bool)
    ensures
        r == controllers_disagree_spec(line@, *dseqs, *cfg),
{
    (cfg.enforce.cpu && ((dseqs.cpu < cfg.instance_seq) != contains(line, "cpu"))) || (
    cfg.enforce.io && !contains(line, "io")) || (cfg.enforce.crit_mem_prot && !contains(
        line,
        "memory",
    ))
}

/// The controller edits of `cgroup.subtree_control`: `disable` goes to every
/// node, deepest first; `enable` to the root alone.
#[derive(Clone, Debug)]
pub struct SubtreeEdits {
    pub disable: String,
    pub enable: String,
}

pub open spec fn disable_edits(d: DisableSeqKnobs, cfg: Config) -> Seq<char> {
    if cfg.enforce.cpu && !(d.cpu < cfg.instance_seq) {
        " -cpu"@
    } else {
        Seq::empty()
    }
}

pub open spec fn enable_edits(d: DisableSeqKnobs, cfg: Config) -> Seq<char> {
    (if cfg.enforce.cpu && d.cpu < cfg.instance_seq {
        " +cpu"@
    } else {
        Seq::empty()
    }) + (if cfg.enforce.io {
        " +io"@
    } else {
        Seq::empty()
    }) + (if cfg.enforce.crit_mem_prot {
        " +memory"@
    } else {
        Seq::empty()
    })
}

pub fn subtree_edits(dseqs: &DisableSeqKnobs, cfg: &Config) -> (r: SubtreeEdits)
    ensures
        r.disable@ == disable_edits(*dseqs, *cfg),
        r.enable@ == enable_edits(*dseqs, *cfg),
{
    let mut disable = String::new();
    let mut enable = String::new();
    if cfg.enforce.cpu {
        if dseqs.cpu < cfg.instance_seq {
            enable.append(" +cpu");
        } else {
            disable.append(" -cpu");
        }
    }
    if cfg.enforce.io {
        enable.append(" +io");
    }
    if cfg.enforce.crit_mem_prot {
        enable.append(" +memory");
    }
    assert(disable@ =~= disable_edits(*dseqs, *cfg));
    assert(enable@ =~= enable_edits(*dseqs, *cfg));
    SubtreeEdits { disable, enable }
}

/// Non-increasing in length: deeper paths come first.
pub open spec fn deepest_first(s: Seq<String>) -> bool {
    forall|i: int, j: int| 0 <= i < j < s.len() ==> (#[trigger] s[i])@.len() >= (#[trigger] s[j])@.len()
}

proof fn lemma_insert_keeps_order(out: Seq<String>, lens: Seq<usize>, pos: int, p: String, lp: usize)
    requires
        deepest_first(out),
        lens.len() == out.len(),
        forall|k: int| 0 <= k < out.len() ==> lens[k] == (#[trigger] out[k])@.len(),
        0 <= pos <= out.len(),
        forall|k: int| 0 <= k < pos ==> lens[k] >= lp,
        pos < out.len() ==> lens[pos] < lp,
        lp == p@.len(),
    ensures
        deepest_first(out.insert(pos, p)),
        forall|k: int|
            0 <= k < out.len() + 1 ==> lens.insert(pos, lp)[k] == (#[trigger] out.insert(pos, p)[k])@.len(),
{
    out.insert_ensures(pos, p);
    lens.insert_ensures(pos, lp);
    let o = out.insert(pos, p);
    assert forall|k: int| 0 <= k < out.len() + 1 implies lens.insert(pos, lp)[k] == (#[trigger] o[k])@.len() by {
        if k > pos {
            assert(o[k] == out[k - 1]);
        }
    }
    assert forall|i: int, j: int| 0 <= i < j < o.len() implies (#[trigger] o[i])@.len() >= (
    #[trigger] o[j])@.len() by {
        if i < pos {
            assert(o[i] == out[i]);
        }
        if j > pos {
            assert(o[j] == out[j - 1]);
            if j - 1 > pos {
                assert(out[pos]@.len() >= out[j - 1]@.len());
            }
        }
        if i > pos {
            assert(o[i] == out[i - 1]);
        }
        if j < pos {
            assert(o[j] == out[j]);
        }
    }
}

proof fn lemma_move_one(out: Seq<String>, rest: Seq<String>, pos: int, p: String, orig: Seq<String>)
    requires
        out.to_multiset().add(rest.push(p).to_multiset()) == orig.to_multiset(),
        0 <= pos <= out.len(),
    ensures
        out.insert(pos, p).to_multiset().add(rest.to_multiset()) == orig.to_multiset(),
{
    broadcast use vstd::multiset::group_multiset_axioms;

    rest.to_multiset_ensures();
    to_multiset_insert(out, pos, p);
    assert(out.insert(pos, p).to_multiset().add(rest.to_multiset()) =~= out.to_multiset().add(
        rest.push(p).to_multiset(),
    ));
}

/// Orders the `cgroup.subtree_control` files for a disable: by decreasing
/// path length, so that every node is written after its descendants.
pub fn disable_write_order(paths: Vec<String>) -> (r: Vec<String>)
    ensures
        r@.to_multiset() == paths@.to_multiset(),
        deepest_first(r@),
{
    let ghost orig = paths@;
    let mut rest = paths;
    let mut out: Vec<String> = Vec::new();
    let mut lens: Vec<usize> = Vec::new();
    proof {
        broadcast use vstd::multiset::group_multiset_axioms;

        Seq::<String>::empty().to_multiset_ensures();
        assert(out@.to_multiset().add(rest@.to_multiset()) =~= orig.to_multiset());
    }
    while rest.len() > 0
        invariant
            out@.to_multiset().add(rest@.to_multiset()) == orig.to_multiset(),
            deepest_first(out@),
            lens@.len() == out@.len(),
            forall|k: int| 0 <= k < out@.len() ==> lens@[k] == (#[trigger] out@[k])@.len(),
        decreases rest@.len(),
    {
        let ghost rest_before = rest@;
        let p = rest.pop().unwrap();
        assert(rest_before =~= rest@.push(p));
        let lp = p.as_str().unicode_len();
        let mut pos: usize = 0;
        while pos < lens.len() && lens[pos] >= lp
            invariant
                0 <= pos <= lens@.len(),
                lens@.len() == out@.len(),
                forall|k: int| 0 <= k < pos ==> lens@[k] >= lp,
            decreases lens@.len() - pos,
        {
            pos = pos + 1;
        }
        proof {
            lemma_insert_keeps_order(out@, lens@, pos as int, p, lp);
            lemma_move_one(out@, rest@, pos as int, p, orig);
        }
        out.insert(pos, p);
        lens.insert(pos, lp);
    }
    proof {
        broadcast use vstd::multiset::group_multiset_axioms;

        rest@.to_multiset_ensures();
        assert(out@.to_multiset() =~= orig.to_multiset());
    }
    out
}

// ---- single-attribute decisions ----------------------------------------
/// The memory attributes that the verifier checks.
#[derive(Clone, Copy, Debug, PartialEq, Eq, Structural)]
pub enum MemAttr {
    Min,
    Low,
    High,
    Max,
}

impl MemAttr {
    /// Limits read an unset knob as unlimited; protections read it as zero.
    pub open spec fn limit(self) -> bool {
        self == MemAttr::High || self == MemAttr::Max
    }

    pub fn is_limit(&self) -> (r: bool)
        ensures
            r == self.limit(),
    {
        *self == MemAttr::High || *self == MemAttr::Max
    }

    pub open spec fn file(self) -> Seq<char> {
        match self {
            MemAttr::Min => "memory.min"@,
            MemAttr::Low => "memory.low"@,
            MemAttr::High => "memory.high"@,
            MemAttr::Max => "memory.max"@,
        }
    }

    /// The cgroupfs file of the attribute.
    pub fn file_name(&self) -> (r: &'static str)
        ensures
            r@ == self.file(),
    {
        match self {
            MemAttr::Min => "memory.min",
            MemAttr::Low => "memory.low",
            MemAttr::High => "memory.high",
            MemAttr::Max => "memory.max",
        }
    }
}

/// The `io.weight` that a line of the form `default N` gives.
pub open spec fn io_weight_of(line: Seq<char>) -> Option<u64> {
    if starts_with_spec(line, "default "@) {
        parse_u64_spec(line.subrange(8, line.len() as int))
    } else {
        None
    }
}

/// A memory value as cgroupfs shows it: `max` or a byte count.
pub open spec fn mem_value_of(line: Seq<char>) -> Option<u64> {
    if line == "max"@ {
        Some(u64::MAX)
    } else {
        parse_u64_spec(line)
    }
}

pub open spec fn min_u64(a: u64, b: u64) -> u64 {
    if a < b {
        a
    } else {
        b
    }
}

/// The tolerance rule: with both sides clamped to the total memory, the
/// current value equals the target or lies within 10% of a non-zero target.
pub open spec fn mem_within_tolerance(cur: u64, target: u64, total_memory: u64) -> bool {
    let t = min_u64(target, total_memory);
    let v = min_u64(cur, total_memory);
    t == v || (t > 0 && 10 * (if v >= t {
        v - t
    } else {
        t - v
    }) < t)
}

pub open spec fn cpu_weight_fix_spec(line: Seq<char>, target: u32) -> Option<Seq<char>> {
    if parse_u64_spec(line) == Some(target as u64) {
        None
    } else {
        Some(dec(target as nat))
    }
}

pub open spec fn io_weight_fix_spec(line: Seq<char>, target: u32) -> Option<Seq<char>> {
    if io_weight_of(line) == Some(target as u64) {
        None
    } else {
        Some("default "@ + dec(target as nat))
    }
}

pub open spec fn mem_fix_spec(line: Seq<char>, knob: MemoryKnob, is_limit: bool, total_memory: u64) -> Option<
    Seq<char>,
> {
    let target = knob.bytes(is_limit, total_memory);
    match mem_value_of(line) {
        Some(v) => if mem_within_tolerance(v, target, total_memory) {
            None
        } else {
            Some(cgrp_bytes_text(target))
        },
        None => Some(cgrp_bytes_text(target)),
    }
}

/// The value to write into `cpu.weight`, if what it holds is not `target`.
pub fn cpu_weight_fix(line: &str, target: u32) -> (r: Option<String>)
    ensures
        r matches Some(t) ==> cpu_weight_fix_spec(line@, target) == Some(t@),
        r is None ==> cpu_weight_fix_spec(line@, target) is None,
{
    match parse_u64(line) {
        Some(v) => if v == target as u64 {
            return None;
        },
        None => {},
    }
    Some(u64_to_dec(target as u64))
}

/// The value to write into `io.weight`, if its default weight is not
/// `target`.
pub fn io_weight_fix(line: &str, target: u32) -> (r: Option<String>)
    ensures
        r matches Some(t) ==> io_weight_fix_spec(line@, target) == Some(t@),
        r is None ==> io_weight_fix_spec(line@, target) is None,
{
    proof {
        reveal_strlit("default ");
    }
    match strip_prefix(line, "default ") {
        Some(rest) => match parse_u64(rest) {
            Some(v) => if v == target as u64 {
                return None;
            },
            None => {},
        },
        None => {},
    }
    let mut s = String::from_str("default ");
    crate::text::push_dec(&mut s, target as u64);
    Some(s)
}

pub fn parse_mem_value(line: &str) -> (r: Option<u64>)
    ensures
        r == mem_value_of(line@),
{
    if str_eq(line, "max") {
        Some(u64::MAX)
    } else {
        parse_u64(line)
    }
}

pub fn within_tolerance(cur: u64, target: u64, total_memory: u64) -> (r: bool)
    ensures
        r == mem_within_tolerance(cur, target, total_memory),
{
    let t = if target < total_memory {
        target
    } else {
        total_memory
    };
    let v = if cur < total_memory {
        cur
    } else {
        total_memory
    };
    if t == v {
        return true;
    }
    let diff = if v >= t {
        v - t
    } else {
        t - v
    };
    t > 0 && (diff as u128) * 10 < t as u128
}

/// The value to write into a memory attribute file, if what it holds is
/// neither the knob's value nor within tolerance of it.
pub fn mem_fix(line: &str, knob: &MemoryKnob, is_limit: bool, total_memory: u64) -> (r: Option<
    String,
>)
    requires
        knob.valid(),
    ensures
        r matches Some(t) ==> mem_fix_spec(line@, *knob, is_limit, total_memory) == Some(t@),
        r is None ==> mem_fix_spec(line@, *knob, is_limit, total_memory) is None,
{
    let target = knob.nr_bytes(is_limit, total_memory);
    match parse_mem_value(line) {
        Some(v) => if within_tolerance(v, target, total_memory) {
            return None;
        },
        None => {},
    }
    Some(mknob_to_cgrp_string(knob, is_limit, total_memory))
}

/// Records in a unit's overrides the value just written to one of its
/// memory attributes.
pub fn set_mem_override(resctl: &mut UnitResCtl, attr: MemAttr, nr_bytes: u64)
    ensures
        final(resctl).mem_min == (if attr == MemAttr::Min {
            Some(nr_bytes)
        } else {
            old(resctl).mem_min
        }),
        final(resctl).mem_low == (if attr == MemAttr::Low {
            Some(nr_bytes)
        } else {
            old(resctl).mem_low
        }),
        final(resctl).mem_high == (if attr == MemAttr::High {
            Some(nr_bytes)
        } else {
            old(resctl).mem_high
        }),
        final(resctl).mem_max == (if attr == MemAttr::Max {
            Some(nr_bytes)
        } else {
            old(resctl).mem_max
        }),
        final(resctl).cpu_weight == old(resctl).cpu_weight,
        final(resctl).io_weight == old(resctl).io_weight,
{
    match attr {
        MemAttr::Min => resctl.mem_min = Some(nr_bytes),
        MemAttr::Low => resctl.mem_low = Some(nr_bytes),
        MemAttr::High => resctl.mem_high = Some(nr_bytes),
        MemAttr::Max => resctl.mem_max = Some(nr_bytes),
    }
}

/// One attribute of a slice's cgroup to verify, with its intended value.
#[derive(Clone, Copy, Debug, PartialEq, Eq, Structural)]
pub enum AttrCheck {
    CpuWeight(u32),
    IoWeight(u32),
    Memory(MemAttr, MemoryKnob),
}

impl AttrCheck {
    pub open spec fn valid(self) -> bool {
        match self {
            AttrCheck::Memory(_, k) => k.valid(),
            _ => true,
        }
    }

    pub open spec fn file(self) -> Seq<char> {
        match self {
            AttrCheck::CpuWeight(_) => "cpu.weight"@,
            AttrCheck::IoWeight(_) => "io.weight"@,
            AttrCheck::Memory(a, _) => a.file(),
        }
    }

    /// The cgroupfs file that the check reads.
    pub fn file_name(&self) -> (r: &'static str)
        ensures
            r@ == self.file(),
    {
        match self {
            AttrCheck::CpuWeight(_) => "cpu.weight",
            AttrCheck::IoWeight(_) => "io.weight",
            AttrCheck::Memory(a, _) => a.file_name(),
        }
    }
}

pub open spec fn attr_fix_spec(c: AttrCheck, line: Seq<char>, total_memory: u64) -> Option<Seq<char>> {
    match c {
        AttrCheck::CpuWeight(w) => cpu_weight_fix_spec(line, w),
        AttrCheck::IoWeight(w) => io_weight_fix_spec(line, w),
        AttrCheck::Memory(a, k) => mem_fix_spec(line, k, a.limit(), total_memory),
    }
}

/// Decides one check on the first line of its file: the value to write
/// back, or `None` where the file already agrees.
pub fn check_attr(check: &AttrCheck, line: &str, total_memory: u64) -> (r: Option<String>)
    requires
        check.valid(),
    ensures
        r matches Some(t) ==> attr_fix_spec(*check, line@, total_memory) == Some(t@),
        r is None ==> attr_fix_spec(*check, line@, total_memory) is None,
{
    match check {
        AttrCheck::CpuWeight(w) => cpu_weight_fix(line, *w),
        AttrCheck::IoWeight(w) => io_weight_fix(line, *w),
        AttrCheck::Memory(a, k) => mem_fix(line, k, a.is_limit(), total_memory),
    }
}

/// What the verifier checks on one slice.
#[derive(Clone, Debug)]
pub struct SliceCheck {
    pub slice: Slice,
    /// The slice's own attributes, in order.
    pub checks: Vec<AttrCheck>,
    /// The `memory.min` and `memory.low` that every descendant cgroup gets.
    pub descendant_prot: Option<(MemoryKnob, MemoryKnob)>,
}

/// A verification pass: the slices in enumeration order (each skipped where
/// its cgroup does not exist), then the scan for other IO controllers.
#[derive(Clone, Debug)]
pub struct VerifyPlan {
    pub slices: Vec<SliceCheck>,
    pub check_other_io: bool,
}

/// Memory control of the slice is on: always, but for the workload slice
/// while its stamp disables it.
pub open spec fn mem_enabled(k: SliceKnobsView, cfg: Config, s: Slice) -> bool {
    s != Slice::Work || k.disable_seqs.mem < cfg.instance_seq
}

/// `memory.high` is verified but where the workload manages it itself.
pub open spec fn verify_mem_high(workload_senpai: bool, s: Slice) -> bool {
    s != Slice::Work || !workload_senpai
}

pub open spec fn mem_checks(k: SliceKnobsView, workload_senpai: bool, cfg: Config, s: Slice) -> Seq<
    AttrCheck,
> {
    let sk = k.cfg_of(s);
    if mem_enabled(k, cfg, s) {
        seq![
            AttrCheck::Memory(MemAttr::Min, sk.mem_min),
            AttrCheck::Memory(MemAttr::Low, sk.mem_low),
            AttrCheck::Memory(MemAttr::Max, MemoryKnob::Unset),
        ] + if verify_mem_high(workload_senpai, s) {
            seq![AttrCheck::Memory(MemAttr::High, sk.mem_high)]
        } else {
            Seq::empty()
        }
    } else {
        seq![
            AttrCheck::Memory(MemAttr::Min, MemoryKnob::Unset),
            AttrCheck::Memory(MemAttr::Low, MemoryKnob::Unset),
        ]
    }
}

pub open spec fn slice_checks(k: SliceKnobsView, workload_senpai: bool, cfg: Config, s: Slice) -> Seq<
    AttrCheck,
> {
    let sk = k.cfg_of(s);
    (if cfg.enforce.cpu && k.disable_seqs.cpu < cfg.instance_seq {
        seq![AttrCheck::CpuWeight(sk.cpu_weight)]
    } else {
        Seq::empty()
    }) + (if cfg.enforce.io && k.disable_seqs.io < cfg.instance_seq {
        seq![AttrCheck::IoWeight(sk.io_weight)]
    } else {
        Seq::empty()
    }) + (if enforce_mem_spec(cfg.enforce, s) {
        mem_checks(k, workload_senpai, cfg, s)
    } else {
        Seq::empty()
    })
}

pub open spec fn descendant_prot(k: SliceKnobsView, cfg: Config, s: Slice) -> Option<
    (MemoryKnob, MemoryKnob),
> {
    if enforce_mem_spec(cfg.enforce, s) && mem_enabled(k, cfg, s) && needs_mem_prot_propagation(s) {
        if cfg.memcg_recursive_prot {
            Some((MemoryKnob::Bytes(0), MemoryKnob::Bytes(0)))
        } else {
            Some((k.cfg_of(s).mem_min, k.cfg_of(s).mem_low))
        }
    } else {
        None
    }
}

pub open spec fn verify_plan_matches(p: VerifyPlan, k: SliceKnobsView, workload_senpai: bool, cfg: Config) -> bool {
    &&& p.slices@.len() == NR_SLICES
    &&& forall|i: int| #![trigger p.slices@[i]]
        0 <= i < NR_SLICES ==> {
            &&& p.slices@[i].slice == slice_at(i)
            &&& p.slices@[i].checks@ == slice_checks(k, workload_senpai, cfg, slice_at(i))
            &&& p.slices@[i].descendant_prot == descendant_prot(k, cfg, slice_at(i))
        }
    &&& p.check_other_io == cfg.enforce.io
}

fn plan_slice_checks(knobs: &SliceKnobs, workload_senpai: bool, cfg: &Config, slice: Slice) -> (r: SliceCheck)
    requires
        knobs@.wf(),
    ensures
        r.slice == slice,
        r.checks@ == slice_checks(knobs@, workload_senpai, *cfg, slice),
        r.descendant_prot == descendant_prot(knobs@, *cfg, slice),
{
    let sk = knobs.get(slice);
    let d = &knobs.disable_seqs;
    let seq = cfg.instance_seq;
    let mut checks: Vec<AttrCheck> = Vec::new();
    if cfg.enforce.cpu && d.cpu < seq {
        checks.push(AttrCheck::CpuWeight(sk.cpu_weight));
    }
    if cfg.enforce.io && d.io < seq {
        checks.push(AttrCheck::IoWeight(sk.io_weight));
    }
    let mut descendant_prot = None;
    if cfg.enforce.enforce_mem(slice) {
        let (enable_mem, verify_high) = if slice == Slice::Work {
            (d.mem < seq, !workload_senpai)
        } else {
            (true, true)
        };
        if enable_mem {
            checks.push(AttrCheck::Memory(MemAttr::Min, sk.mem_min));
            checks.push(AttrCheck::Memory(MemAttr::Low, sk.mem_low));
            checks.push(AttrCheck::Memory(MemAttr::Max, MemoryKnob::Unset));
            if verify_high {
                checks.push(AttrCheck::Memory(MemAttr::High, sk.mem_high));
            }
            if slice.needs_mem_prot_propagation() {
                descendant_prot = if cfg.memcg_recursive_prot {
                    Some((MemoryKnob::Bytes(0), MemoryKnob::Bytes(0)))
                } else {
                    Some((sk.mem_min, sk.mem_low))
                };
            }
        } else {
            checks.push(AttrCheck::Memory(MemAttr::Min, MemoryKnob::Unset));
            checks.push(AttrCheck::Memory(MemAttr::Low, MemoryKnob::Unset));
        }
    }
    assert(checks@ =~= slice_checks(knobs@, workload_senpai, *cfg, slice));
    SliceCheck { slice, checks, descendant_prot }
}

/// Computes a verification pass over all slices; knobs out of range are
/// refused.
pub fn verify_and_fix_slices(knobs: &SliceKnobs, workload_senpai: bool, cfg: &Config) -> (r: Result<
    VerifyPlan,
    SliceError,
>)
    ensures
        r is Err <==> !knobs@.wf(),
        r matches Ok(p) ==> verify_plan_matches(p, knobs@, workload_senpai, *cfg),
{
    if !knobs.is_wf() {
        return Err(SliceError::ConfigInvalid);
    }
    let mut slices: Vec<SliceCheck> = Vec::new();
    let mut i: usize = 0;
    while i < NR_SLICES
        invariant
            knobs@.wf(),
            0 <= i <= NR_SLICES,
            slices@.len() == i,
            forall|j: int| #![trigger slices@[j]]
                0 <= j < i ==> {
                    &&& slices@[j].slice == slice_at(j)
                    &&& slices@[j].checks@ == slice_checks(knobs@, workload_senpai, *cfg, slice_at(j))
                    &&& slices@[j].descendant_prot == descendant_prot(knobs@, *cfg, slice_at(j))
                },
        decreases NR_SLICES - i,
    {
        let slice = Slice::from_index(i);
        slices.push(plan_slice_checks(knobs, workload_senpai, cfg, slice));
        i = i + 1;
    }
    Ok(VerifyPlan { slices, check_other_io: cfg.enforce.io })
}

// ---- laws ----------------------------------------------------------------
proof fn lemma_digit_char_value(d: nat)
    requires
        d < 10,
    ensures
        is_digit(digit_char(d)),
        digit_value(digit_char(d)) == d,
{
}

/// A decimal rendering parses back to its number.
pub proof fn lemma_dec_parses(n: nat)
    ensures
        all_digits(dec(n)),
        digits_value(dec(n)) == n,
    decreases n,
{
    if n < 10 {
        lemma_digit_char_value(n);
        assert(dec(n).drop_last() =~= Seq::<char>::empty());
        assert(digits_value(dec(n)) == digits_value(Seq::<char>::empty()) * 10 + digit_value(digit_char(n)));
    } else {
        lemma_dec_parses(n / 10);
        lemma_digit_char_value(n % 10);
        assert(dec(n).drop_last() =~= dec(n / 10));
        assert(dec(n).last() == digit_char(n % 10));
        assert((n / 10) * 10 + n % 10 == n) by (nonlinear_arith);
        assert(digits_value(dec(n)) == digits_value(dec(n / 10)) * 10 + digit_value(digit_char(n % 10)));
        assert forall|i: int| 0 <= i < dec(n).len() implies is_digit(#[trigger] dec(n)[i]) by {
            if i < dec(n / 10).len() {
                assert(dec(n)[i] == dec(n / 10)[i]);
            }
        }
    }
}

/// The value that a check is after, as cgroupfs shows it once written.
pub open spec fn written_form(c: AttrCheck, total_memory: u64) -> Seq<char> {
    match c {
        AttrCheck::CpuWeight(w) => dec(w as nat),
        AttrCheck::IoWeight(w) => "default "@ + dec(w as nat),
        AttrCheck::Memory(a, k) => cgrp_bytes_text(k.bytes(a.limit(), total_memory)),
    }
}

/// What was written is accepted back: an attribute that holds the value
/// that its check is after, as cgroupfs shows it, asks for no correction.
/// So a verification pass right after the configuration took effect writes
/// nothing.
pub proof fn lemma_written_values_verify(c: AttrCheck, total_memory: u64)
    requires
        c.valid(),
    ensures
        attr_fix_spec(c, written_form(c, total_memory), total_memory) is None,
{
    match c {
        AttrCheck::CpuWeight(w) => {
            lemma_dec_parses(w as nat);
        },
        AttrCheck::IoWeight(w) => {
            lemma_dec_parses(w as nat);
            reveal_strlit("default ");
            let line = "default "@ + dec(w as nat);
            assert(line.subrange(0, 8) =~= "default "@);
            assert(line.subrange(8, line.len() as int) =~= dec(w as nat));
        },
        AttrCheck::Memory(a, k) => {
            let v = k.bytes(a.limit(), total_memory);
            if v != u64::MAX {
                lemma_dec_parses(v as nat);
                reveal_strlit("max");
                if dec(v as nat) == "max"@ {
                    assert(is_digit(dec(v as nat)[0]));
                }
            }
        },
    }
}

/// The disable stamps gate what a pass turns on. With the CPU stamp at or
/// past the instance, no cgroup's `cpu.weight` is verified, the root's
/// enable edit has no CPU token, and the disable edit removes CPU where it
/// is enforced. With the memory stamp there, the workload's drop-in has no
/// low protection, and its cgroup's protections are verified as unset with
/// nothing cascaded.
pub proof fn lemma_disable_gates(k: SliceKnobsView, workload_senpai: bool, cfg: Config)
    requires
        k.wf(),
    ensures
        k.disable_seqs.cpu >= cfg.instance_seq ==> {
            &&& forall|i: int|
                0 <= i < NR_SLICES ==> !(#[trigger] slice_checks(k, workload_senpai, cfg, slice_at(i))).contains(
                    AttrCheck::CpuWeight(k.slices[i].cpu_weight),
                )
            &&& enable_edits(k.disable_seqs, cfg) == (if cfg.enforce.io {
                " +io"@
            } else {
                Seq::empty()
            }) + (if cfg.enforce.crit_mem_prot {
                " +memory"@
            } else {
                Seq::empty()
            })
            &&& cfg.enforce.cpu ==> disable_edits(k.disable_seqs, cfg) == " -cpu"@
        },
        k.disable_seqs.mem >= cfg.instance_seq ==> {
            &&& planned_fields(k, cfg, Slice::Work).mem_low is None
            &&& descendant_prot(k, cfg, Slice::Work) is None
            &&& enforce_mem_spec(cfg.enforce, Slice::Work) ==> mem_checks(k, workload_senpai, cfg, Slice::Work)
                == seq![
                AttrCheck::Memory(MemAttr::Min, MemoryKnob::Unset),
                AttrCheck::Memory(MemAttr::Low, MemoryKnob::Unset),
            ]
        },
{
    if k.disable_seqs.cpu >= cfg.instance_seq {
        assert(enable_edits(k.disable_seqs, cfg) =~= (if cfg.enforce.io {
            " +io"@
        } else {
            Seq::empty()
        }) + (if cfg.enforce.crit_mem_prot {
            " +memory"@
        } else {
            Seq::empty()
        }));
        assert forall|i: int|
            0 <= i < NR_SLICES implies !(#[trigger] slice_checks(k, workload_senpai, cfg, slice_at(i))).contains(
                AttrCheck::CpuWeight(k.slices[i].cpu_weight),
            ) by {
            let s = slice_at(i);
            let c = slice_checks(k, workload_senpai, cfg, s);
            if c.contains(AttrCheck::CpuWeight(k.slices[i].cpu_weight)) {
                let j = choose|j: int| 0 <= j < c.len() && c[j] == AttrCheck::CpuWeight(k.slices[i].cpu_weight);
                let io_part = if cfg.enforce.io && k.disable_seqs.io < cfg.instance_seq {
                    seq![AttrCheck::IoWeight(k.cfg_of(s).io_weight)]
                } else {
                    Seq::empty()
                };
                let mem_part = if enforce_mem_spec(cfg.enforce, s) {
                    mem_checks(k, workload_senpai, cfg, s)
                } else {
                    Seq::empty()
                };
                assert(c =~= io_part + mem_part);
                if j < io_part.len() {
                    assert(c[j] == io_part[j]);
                } else {
                    assert(c[j] == mem_part[j - io_part.len()]);
                }
            }
        }
    }
}

} // verus!
