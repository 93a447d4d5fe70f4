//! Reconciling the slices' drop-ins with the knobs, and clearing them again.
//!
//! A pass is computed here as a plan from what is on disk; the caller carries
//! out each step in order (write the drop-in, start the unit, cascade the
//! overrides), then reloads the service manager and toggles iocost.
use vstd::prelude::*;

use crate::configlet::{build_configlet, configlet_text, SliceFields};
use crate::knob::{mknob_to_unit_resctl, unit_resctl_value, MemoryKnob};
use crate::slice::{
    lemma_slice_at_idx, EnforceConfig,
    enforce_any_spec, enforce_mem_spec, needs_mem_prot_propagation, needs_start_stop, slice_at, Config,
    SliceConfig, SliceError, SliceKnobs, SliceKnobsView, Slice, NR_SLICES,
};
use crate::unit::{empty_resctl, UnitResCtl};

verus! {

/// `ceil(0.75 * n)`, the low protection of the workload slice when it
/// follows the size of the hashing workload.
pub open spec fn work_mem_low_for(hashd_mem_size: u64) -> u64 {
    (hashd_mem_size - hashd_mem_size / 4) as u64
}

/// The knobs as an apply pass uses them: with the workload's low protection
/// derived from `hashd_mem_size` where the knobs ask for that.
pub open spec fn knobs_for_apply(k: SliceKnobsView, hashd_mem_size: u64) -> SliceKnobsView {
    if k.work_mem_low_none {
        SliceKnobsView {
            slices: k.slices.update(
                Slice::Work.idx(),
                SliceConfig {
                    mem_low: MemoryKnob::Bytes(work_mem_low_for(hashd_mem_size)),
                    ..k.slices[Slice::Work.idx()]
                },
            ),
            ..k
        }
    } else {
        k
    }
}

/// The workload's low protection is held back while memory control is
/// disabled for this instance.
pub open spec fn mem_low_gated(k: SliceKnobsView, cfg: Config, s: Slice) -> bool {
    s == Slice::Work && k.disable_seqs.mem >= cfg.instance_seq
}

/// The settings that the drop-in of `s` carries.
pub open spec fn planned_fields(k: SliceKnobsView, cfg: Config, s: Slice) -> SliceFields {
    let sk = k.cfg_of(s);
    let em = enforce_mem_spec(cfg.enforce, s);
    SliceFields {
        cpu_weight: if cfg.enforce.cpu {
            Some(sk.cpu_weight)
        } else {
            None
        },
        io_weight: if cfg.enforce.io {
            Some(sk.io_weight)
        } else {
            None
        },
        mem_min: if em {
            Some(sk.mem_min)
        } else {
            None
        },
        mem_low: if em && !mem_low_gated(k, cfg, s) {
            Some(sk.mem_low)
        } else {
            None
        },
        mem_high: if em {
            Some(sk.mem_high)
        } else {
            None
        },
    }
}

pub open spec fn desired_configlet(k: SliceKnobsView, cfg: Config, s: Slice) -> Seq<char> {
    configlet_text(s, planned_fields(k, cfg, s), cfg.total_memory)
}

/// The drop-ins on disk, one per slice in enumeration order.
pub open spec fn disk_view(d: Seq<Option<String>>) -> Seq<Option<Seq<char>>> {
    Seq::new(
        d.len(),
        |i: int|
            match d[i] {
                Some(t) => Some(t@),
                None => None,
            },
    )
}

/// The drop-in of `s` is rewritten: something is enforced on it and what is
/// on disk differs from what it should hold.
pub open spec fn needs_write(
    k: SliceKnobsView,
    cfg: Config,
    disk: Seq<Option<Seq<char>>>,
    s: Slice,
) -> bool {
    enforce_any_spec(cfg.enforce, s) && disk[s.idx()] != Some(desired_configlet(k, cfg, s))
}

/// The memory protection cascaded to the descendants of a slice: none where
/// the kernel protects recursively, else the slice's own.
pub open spec fn mem_prot_target(k: SliceKnobsView, cfg: Config, s: Slice) -> UnitResCtl {
    if cfg.memcg_recursive_prot {
        empty_resctl()
    } else {
        UnitResCtl {
            mem_min: unit_resctl_value(k.cfg_of(s).mem_min, cfg.total_memory),
            mem_low: unit_resctl_value(k.cfg_of(s).mem_low, cfg.total_memory),
            ..empty_resctl()
        }
    }
}

pub open spec fn apply_propagation(k: SliceKnobsView, cfg: Config, s: Slice) -> Option<UnitResCtl> {
    if enforce_mem_spec(cfg.enforce, s) && needs_mem_prot_propagation(s) {
        Some(mem_prot_target(k, cfg, s))
    } else {
        None
    }
}

/// What an apply pass does for one slice.
#[derive(Clone, Debug)]
pub struct SliceStep {
    pub slice: Slice,
    /// The drop-in to write, where it changes.
    pub configlet: Option<String>,
    /// Start the slice's unit after writing its drop-in.
    pub start: bool,
    /// The overrides to cascade into the slice's descendant units.
    pub propagate: Option<UnitResCtl>,
}

/// An apply pass: the slices' steps in enumeration order, then one reload of
/// the service manager if any drop-in changed, then iocost on or off.
#[derive(Clone, Debug)]
pub struct ApplyPlan {
    pub steps: Vec<SliceStep>,
    pub daemon_reload: bool,
    pub enable_iocost: bool,
}

pub open spec fn step_matches(
    st: SliceStep,
    k: SliceKnobsView,
    cfg: Config,
    disk: Seq<Option<Seq<char>>>,
    s: Slice,
) -> bool {
    &&& st.slice == s
    &&& (st.configlet is Some <==> needs_write(k, cfg, disk, s))
    &&& (st.configlet matches Some(t) ==> t@ == desired_configlet(k, cfg, s))
    &&& st.start == (needs_write(k, cfg, disk, s) && needs_start_stop(s))
    &&& st.propagate == apply_propagation(k, cfg, s)
}

pub open spec fn any_write(k: SliceKnobsView, cfg: Config, disk: Seq<Option<Seq<char>>>) -> bool {
    exists|i: int| 0 <= i < NR_SLICES && needs_write(k, cfg, disk, #[trigger] slice_at(i))
}

pub open spec fn plan_matches(
    p: ApplyPlan,
    k: SliceKnobsView,
    cfg: Config,
    disk: Seq<Option<Seq<char>>>,
) -> bool {
    &&& p.steps@.len() == NR_SLICES
    &&& forall|i: int|
        0 <= i < NR_SLICES ==> step_matches(#[trigger] p.steps@[i], k, cfg, disk, slice_at(i))
    &&& p.daemon_reload == any_write(k, cfg, disk)
    &&& p.enable_iocost == (k.disable_seqs.io < cfg.instance_seq)
}

/// The drop-ins once the writes of a pass are done.
pub open spec fn disk_after_apply(
    k: SliceKnobsView,
    cfg: Config,
    disk: Seq<Option<Seq<char>>>,
) -> Seq<Option<Seq<char>>> {
    Seq::new(
        NR_SLICES as nat,
        |i: int|
            if needs_write(k, cfg, disk, slice_at(i)) {
                Some(desired_configlet(k, cfg, slice_at(i)))
            } else {
                disk[i]
            },
    )
}

fn drop_in_matches(cur: &Option<String>, configlet: &String) -> (r: bool)
    ensures
        r == (match *cur {
            Some(t) => t@ == configlet@,
            None => false,
        }),
{
    match cur {
        Some(t) => *t == *configlet,
        None => false,
    }
}

fn plan_slice(
    knobs: &SliceKnobs,
    slice: Slice,
    cfg: &Config,
    cur: &Option<String>,
    Ghost(disk): Ghost<Seq<Option<Seq<char>>>>,
) -> (r: SliceStep)
    requires
        knobs@.wf(),
        disk.len() == NR_SLICES,
        disk[slice.idx()] == match *cur {
            Some(t) => Some(t@),
            None => None::<Seq<char>>,
        },
    ensures
        step_matches(r, knobs@, *cfg, disk, slice),
{
    let enforce_mem = cfg.enforce.enforce_mem(slice);
    if !cfg.enforce.enforce_any(slice) {
        return SliceStep { slice, configlet: None, start: false, propagate: None };
    }
    let sk = knobs.get(slice);
    assert(sk.valid());
    let cpu_weight = if cfg.enforce.cpu {
        Some(sk.cpu_weight)
    } else {
        None
    };
    let io_weight = if cfg.enforce.io {
        Some(sk.io_weight)
    } else {
        None
    };
    let (mem_min, mem_low, mem_high) = if enforce_mem {
        let mem_low = if slice == Slice::Work && knobs.disable_seqs.mem >= cfg.instance_seq {
            None
        } else {
            Some(sk.mem_low)
        };
        (Some(sk.mem_min), mem_low, Some(sk.mem_high))
    } else {
        (None, None, None)
    };
    let configlet = build_configlet(
        slice,
        cpu_weight,
        io_weight,
        mem_min,
        mem_low,
        mem_high,
        cfg.total_memory,
    );
    assert(configlet@ == desired_configlet(knobs@, *cfg, slice));
    let changed = !drop_in_matches(cur, &configlet);
    let propagate = if enforce_mem && slice.needs_mem_prot_propagation() {
        let mut resctl = UnitResCtl::new();
        if !cfg.memcg_recursive_prot {
            resctl.mem_min = mknob_to_unit_resctl(&sk.mem_min, cfg.total_memory);
            resctl.mem_low = mknob_to_unit_resctl(&sk.mem_low, cfg.total_memory);
        }
        Some(resctl)
    } else {
        None
    };
    let start = changed && slice.needs_start_stop();
    SliceStep { slice, configlet: if changed {
        Some(configlet)
    } else {
        None
    }, start, propagate }
}

/// Computes an apply pass over all slices from the drop-ins found on disk
/// (`on_disk`, one per slice in enumeration order, `None` where absent).
/// Where `work_mem_low_none` is set, the workload's low protection is first
/// recomputed from `hashd_mem_size`; knobs out of range are refused.
pub fn apply_slices(
    knobs: &mut SliceKnobs,
    hashd_mem_size: u64,
    cfg: &Config,
    on_disk: &Vec<Option<String>>,
) -> (r: Result<ApplyPlan, SliceError>)
    requires
        on_disk@.len() == NR_SLICES,
    ensures
        r is Err <==> !old(knobs)@.wf(),
        r is Err ==> final(knobs)@ == old(knobs)@,
        r matches Ok(p) ==> {
            &&& final(knobs)@ == knobs_for_apply(old(knobs)@, hashd_mem_size)
            &&& plan_matches(p, final(knobs)@, *cfg, disk_view(on_disk@))
        },
{
    if !knobs.is_wf() {
        return Err(SliceError::ConfigInvalid);
    }
    if knobs.work_mem_low_none {
        let mut sk = knobs.slices[Slice::Work.index()];
        sk.mem_low = MemoryKnob::Bytes(hashd_mem_size - hashd_mem_size / 4);
        knobs.slices.set(Slice::Work.index(), sk);
    }
    assert(knobs@ == knobs_for_apply(old(knobs)@, hashd_mem_size)) by {
        if old(knobs)@.work_mem_low_none {
            assert(knobs@.slices =~= knobs_for_apply(old(knobs)@, hashd_mem_size).slices);
        }
    }
    assert(knobs@.wf()) by {
        assert forall|i: int| 0 <= i < NR_SLICES implies (#[trigger] knobs@.slices[i]).valid() by {
            assert(old(knobs)@.slices[i].valid());
        }
    }
    let ghost disk = disk_view(on_disk@);
    let mut steps: Vec<SliceStep> = Vec::new();
    let mut updated = false;
    let mut i: usize = 0;
    while i < NR_SLICES
        invariant
            knobs@.wf(),
            on_disk@.len() == NR_SLICES,
            disk == disk_view(on_disk@),
            0 <= i <= NR_SLICES,
            steps@.len() == i,
            forall|j: int|
                0 <= j < i ==> step_matches(#[trigger] steps@[j], knobs@, *cfg, disk, slice_at(j)),
            updated == exists|j: int| 0 <= j < i && needs_write(knobs@, *cfg, disk, #[trigger] slice_at(j)),
        decreases NR_SLICES - i,
    {
        let slice = Slice::from_index(i);
        let step = plan_slice(knobs, slice, cfg, &on_disk[i], Ghost(disk));
        assert(step_matches(step, knobs@, *cfg, disk, slice));
        updated = updated || step.configlet.is_some();
        steps.push(step);
        assert(updated == exists|j: int| 0 <= j < i + 1 && needs_write(knobs@, *cfg, disk, #[trigger] slice_at(j))) by {
            if updated {
                if !step.configlet.is_some() {
                    let j = choose|j: int| 0 <= j < i && needs_write(knobs@, *cfg, disk, #[trigger] slice_at(j));
                    assert(0 <= j < i + 1 && needs_write(knobs@, *cfg, disk, slice_at(j)));
                } else {
                    assert(needs_write(knobs@, *cfg, disk, slice_at(i as int)));
                }
            }
        }
        i = i + 1;
    }
    Ok(ApplyPlan {
        steps,
        daemon_reload: updated,
        enable_iocost: knobs.disable_seqs.io < cfg.instance_seq,
    })
}

/// Applying twice with the same inputs: the second pass finds every drop-in
/// as the first one left it, so it writes none and does not reload the
/// service manager.
pub proof fn lemma_apply_idempotent(
    k: SliceKnobsView,
    hashd_mem_size: u64,
    cfg: Config,
    disk: Seq<Option<Seq<char>>>,
)
    requires
        k.wf(),
        disk.len() == NR_SLICES,
    ensures
        ({
            let k1 = knobs_for_apply(k, hashd_mem_size);
            let d1 = disk_after_apply(k1, cfg, disk);
            &&& knobs_for_apply(k1, hashd_mem_size) == k1
            &&& forall|i: int| 0 <= i < NR_SLICES ==> !needs_write(k1, cfg, d1, #[trigger] slice_at(i))
            &&& !any_write(k1, cfg, d1)
        }),
{
    let k1 = knobs_for_apply(k, hashd_mem_size);
    let d1 = disk_after_apply(k1, cfg, disk);
    if k.work_mem_low_none {
        assert(knobs_for_apply(k1, hashd_mem_size).slices =~= k1.slices);
    }
    assert forall|i: int| 0 <= i < NR_SLICES implies !needs_write(k1, cfg, d1, #[trigger] slice_at(i)) by {
        lemma_slice_at_idx(i);
    }
}

/// What a clear pass does for one slice.
#[derive(Clone, Copy, Debug)]
pub struct ClearStep {
    pub slice: Slice,
    /// Drop the unit's CPU weight override.
    pub reset_cpu: bool,
    /// Drop the unit's IO weight override.
    pub reset_io: bool,
    /// Drop the unit's memory protection overrides.
    pub reset_mem: bool,
    /// Stop the slice's unit.
    pub stop: bool,
    /// Remove the slice's drop-in.
    pub remove_dropin: bool,
    /// The overrides to cascade into the slice's descendant units.
    pub propagate: Option<UnitResCtl>,
}

/// A clear pass: the slices' steps in enumeration order, then one reload of
/// the service manager if any drop-in was removed.
#[derive(Clone, Debug)]
pub struct ClearPlan {
    pub steps: Vec<ClearStep>,
    pub daemon_reload: bool,
}

pub open spec fn clear_step_matches(st: ClearStep, e: EnforceConfig, present: bool, s: Slice) -> bool {
    &&& st.slice == s
    &&& st.reset_cpu == e.cpu
    &&& st.reset_io == e.io
    &&& st.reset_mem == enforce_mem_spec(e, s)
    &&& st.stop == (enforce_any_spec(e, s) && needs_start_stop(s))
    &&& st.remove_dropin == (enforce_any_spec(e, s) && present)
    &&& st.propagate == (if enforce_mem_spec(e, s) && needs_mem_prot_propagation(s) {
        Some(empty_resctl())
    } else {
        None
    })
}

pub open spec fn clear_plan_matches(p: ClearPlan, e: EnforceConfig, present: Seq<bool>) -> bool {
    &&& p.steps@.len() == NR_SLICES
    &&& forall|i: int|
        0 <= i < NR_SLICES ==> clear_step_matches(#[trigger] p.steps@[i], e, present[i], slice_at(i))
    &&& p.daemon_reload == exists|i: int|
        0 <= i < NR_SLICES && (#[trigger] p.steps@[i]).remove_dropin
}

/// Computes a clear pass from which slices have a drop-in on disk
/// (`present`, one per slice in enumeration order).
pub fn clear_slices(ecfg: &EnforceConfig, present: &Vec<bool>) -> (r: ClearPlan)
    requires
        present@.len() == NR_SLICES,
    ensures
        clear_plan_matches(r, *ecfg, present@),
{
    let mut steps: Vec<ClearStep> = Vec::new();
    let mut updated = false;
    let mut i: usize = 0;
    while i < NR_SLICES
        invariant
            present@.len() == NR_SLICES,
            0 <= i <= NR_SLICES,
            steps@.len() == i,
            forall|j: int|
                0 <= j < i ==> clear_step_matches(#[trigger] steps@[j], *ecfg, present@[j], slice_at(j)),
            updated == exists|j: int| 0 <= j < i && (#[trigger] steps@[j]).remove_dropin,
        decreases NR_SLICES - i,
    {
        let slice = Slice::from_index(i);
        let enforce_mem = ecfg.enforce_mem(slice);
        let active = ecfg.enforce_any(slice);
        let step = ClearStep {
            slice,
            reset_cpu: ecfg.cpu,
            reset_io: ecfg.io,
            reset_mem: enforce_mem,
            stop: active && slice.needs_start_stop(),
            remove_dropin: active && present[i],
            propagate: if enforce_mem && slice.needs_mem_prot_propagation() {
                Some(UnitResCtl::new())
            } else {
                None
            },
        };
        let ghost prev = steps@;
        updated = updated || step.remove_dropin;
        steps.push(step);
        assert(steps@[i as int] == step);
        assert(updated == exists|j: int| 0 <= j < i + 1 && (#[trigger] steps@[j]).remove_dropin) by {
            if updated && !step.remove_dropin {
                let j = choose|j: int| 0 <= j < i && (#[trigger] prev[j]).remove_dropin;
                assert(steps@[j] == prev[j]);
            }
        }
        i = i + 1;
    }
    ClearPlan { steps, daemon_reload: updated }
}

/// Drops from a unit's overrides what a clear step resets: the weights
/// and the memory protections. `mem_high` and `mem_max` stay: the apply pass
/// sets the high limit only through the drop-in, which the same step removes,
/// and on the workload slice an outside agent may own `memory.high`.
pub fn clear_resctl(resctl: &mut UnitResCtl, step: &ClearStep)
    ensures
        final(resctl).cpu_weight == (if step.reset_cpu {
            None
        } else {
            old(resctl).cpu_weight
        }),
        final(resctl).io_weight == (if step.reset_io {
            None
        } else {
            old(resctl).io_weight
        }),
        final(resctl).mem_min == (if step.reset_mem {
            None
        } else {
            old(resctl).mem_min
        }),
        final(resctl).mem_low == (if step.reset_mem {
            None
        } else {
            old(resctl).mem_low
        }),
        final(resctl).mem_high == old(resctl).mem_high,
        final(resctl).mem_max == old(resctl).mem_max,
{
    if step.reset_cpu {
        resctl.cpu_weight = None;
    }
    if step.reset_mem {
        resctl.mem_min = None;
        resctl.mem_low = None;
    }
    if step.reset_io {
        resctl.io_weight = None;
    }
}

/// Which slices have a drop-in.
pub open spec fn present_view(disk: Seq<Option<Seq<char>>>) -> Seq<bool> {
    Seq::new(disk.len(), |i: int| disk[i] is Some)
}

/// The drop-ins once the removals of a clear pass are done.
pub open spec fn disk_after_clear(e: EnforceConfig, disk: Seq<Option<Seq<char>>>) -> Seq<
    Option<Seq<char>>,
> {
    Seq::new(
        disk.len(),
        |i: int|
            if enforce_any_spec(e, slice_at(i)) && present_view(disk)[i] {
                None
            } else {
                disk[i]
            },
    )
}

/// Clearing after applying with the same enforcement leaves no drop-in of a
/// slice that the configuration touches, and leaves the others as they were;
/// from a blank state, no drop-in remains at all.
pub proof fn lemma_clear_after_apply(k: SliceKnobsView, cfg: Config, disk: Seq<Option<Seq<char>>>)
    requires
        k.wf(),
        disk.len() == NR_SLICES,
    ensures
        ({
            let d2 = disk_after_clear(cfg.enforce, disk_after_apply(k, cfg, disk));
            &&& d2.len() == NR_SLICES
            &&& forall|i: int|
                0 <= i < NR_SLICES ==> #[trigger] d2[i] == (if enforce_any_spec(
                    cfg.enforce,
                    slice_at(i),
                ) {
                    None
                } else {
                    disk[i]
                })
            &&& (forall|i: int| 0 <= i < NR_SLICES ==> disk[i] is None) ==> forall|i: int|
                0 <= i < NR_SLICES ==> d2[i] is None
        }),
{
    let d1 = disk_after_apply(k, cfg, disk);
    let d2 = disk_after_clear(cfg.enforce, d1);
    assert forall|i: int| 0 <= i < NR_SLICES implies #[trigger] d2[i] == (if enforce_any_spec(
        cfg.enforce,
        slice_at(i),
    ) {
        None
    } else {
        disk[i]
    }) by {
        lemma_slice_at_idx(i);
    }
}

} // verus!
