//! The fixed set of resource slices, their per-slice knobs and the
//! enforcement configuration.
use vstd::prelude::*;
use vstd::string::*;

use crate::knob::MemoryKnob;

verus! {

/// Number of slices that the configuration manages.
pub const NR_SLICES: usize = 6;

/// A resource slice of the service-manager hierarchy.
#[derive(Clone, Copy, Debug, PartialEq, Eq, Structural)]
pub enum Slice {
    Host,
    Init,
    System,
    User,
    Work,
    Side,
}

/// The slice at position `i` of the enumeration order.
pub open spec fn slice_at(i: int) -> Slice {
    if i == 0 {
        Slice::Host
    } else if i == 1 {
        Slice::Init
    } else if i == 2 {
        Slice::System
    } else if i == 3 {
        Slice::User
    } else if i == 4 {
        Slice::Work
    } else {
        Slice::Side
    }
}

pub open spec fn slice_name(s: Slice) -> Seq<char> {
    match s {
        Slice::Host => "hostcritical.slice"@,
        Slice::Init => "init.scope"@,
        Slice::System => "system.slice"@,
        Slice::User => "user.slice"@,
        Slice::Work => "workload.slice"@,
        Slice::Side => "sideload.slice"@,
    }
}

pub open spec fn slice_cgrp(s: Slice) -> Seq<char> {
    match s {
        Slice::Host => "/sys/fs/cgroup/hostcritical.slice"@,
        Slice::Init => "/sys/fs/cgroup/init.scope"@,
        Slice::System => "/sys/fs/cgroup/system.slice"@,
        Slice::User => "/sys/fs/cgroup/user.slice"@,
        Slice::Work => "/sys/fs/cgroup/workload.slice"@,
        Slice::Side => "/sys/fs/cgroup/sideload.slice"@,
    }
}

/// Slices whose memory protection is applied to each descendant unit.
pub open spec fn needs_mem_prot_propagation(s: Slice) -> bool {
    !(s == Slice::Work || s == Slice::Side)
}

/// Slices that are started and stopped along with their configuration.
pub open spec fn needs_start_stop(s: Slice) -> bool {
    s == Slice::Side
}

/// Slices whose memory protection is critical to the host.
pub open spec fn needs_crit_mem_prot(s: Slice) -> bool {
    s == Slice::Host || s == Slice::Init
}

impl Slice {
    pub open spec fn idx(self) -> int {
        match self {
            Slice::Host => 0,
            Slice::Init => 1,
            Slice::System => 2,
            Slice::User => 3,
            Slice::Work => 4,
            Slice::Side => 5,
        }
    }

    /// Position of the slice in the enumeration order.
    pub fn index(&self) -> (r: usize)
        ensures
            r == self.idx(),
            r < NR_SLICES,
            slice_at(r as int) == *self,
    {
        match self {
            Slice::Host => 0,
            Slice::Init => 1,
            Slice::System => 2,
            Slice::User => 3,
            Slice::Work => 4,
            Slice::Side => 5,
        }
    }

    /// The slice at position `i` of the enumeration order.
    pub fn from_index(i: usize) -> (r: Slice)
        requires
            i < NR_SLICES,
        ensures
            r == slice_at(i as int),
            r.idx() == i,
    {
        if i == 0 {
            Slice::Host
        } else if i == 1 {
            Slice::Init
        } else if i == 2 {
            Slice::System
        } else if i == 3 {
            Slice::User
        } else if i == 4 {
            Slice::Work
        } else {
            Slice::Side
        }
    }

    /// The unit-manager name of the slice.
    pub fn name(&self) -> (r: &'static str)
        ensures
            r@ == slice_name(*self),
    {
        match self {
            Slice::Host => "hostcritical.slice",
            Slice::Init => "init.scope",
            Slice::System => "system.slice",
            Slice::User => "user.slice",
            Slice::Work => "workload.slice",
            Slice::Side => "sideload.slice",
        }
    }

    /// The cgroupfs directory of the slice.
    pub fn cgrp(&self) -> (r: &'static str)
        ensures
            r@ == slice_cgrp(*self),
    {
        match self {
            Slice::Host => "/sys/fs/cgroup/hostcritical.slice",
            Slice::Init => "/sys/fs/cgroup/init.scope",
            Slice::System => "/sys/fs/cgroup/system.slice",
            Slice::User => "/sys/fs/cgroup/user.slice",
            Slice::Work => "/sys/fs/cgroup/workload.slice",
            Slice::Side => "/sys/fs/cgroup/sideload.slice",
        }
    }

    pub fn needs_mem_prot_propagation(&self) -> (r: bool)
        ensures
            r == needs_mem_prot_propagation(*self),
    {
        !(*self == Slice::Work || *self == Slice::Side)
    }

    pub fn needs_start_stop(&self) -> (r: bool)
        ensures
            r == needs_start_stop(*self),
    {
        *self == Slice::Side
    }

    pub fn needs_crit_mem_prot(&self) -> (r: bool)
        ensures
            r == needs_crit_mem_prot(*self),
    {
        *self == Slice::Host || *self == Slice::Init
    }
}

/// Which resource dimensions are enforced.
#[derive(Clone, Copy, Debug, PartialEq, Eq, Structural)]
pub struct EnforceConfig {
    pub cpu: bool,
    pub io: bool,
    pub mem: bool,
    pub crit_mem_prot: bool,
}

/// Memory is enforced on a slice when it is enforced everywhere, or when
/// critical protection is enforced and the slice is critical.
pub open spec fn enforce_mem_spec(e: EnforceConfig, s: Slice) -> bool {
    e.mem || (e.crit_mem_prot && needs_crit_mem_prot(s))
}

/// Some dimension is enforced on the slice.
pub open spec fn enforce_any_spec(e: EnforceConfig, s: Slice) -> bool {
    e.cpu || e.io || enforce_mem_spec(e, s)
}

impl EnforceConfig {
    pub fn enforce_mem(&self, slice: Slice) -> (r: bool)
        ensures
            r == enforce_mem_spec(*self, slice),
    {
        self.mem || (self.crit_mem_prot && slice.needs_crit_mem_prot())
    }

    pub fn enforce_any(&self, slice: Slice) -> (r: bool)
        ensures
            r == enforce_any_spec(*self, slice),
    {
        self.cpu || self.io || self.enforce_mem(slice)
    }
}

/// The epochs before which each controller stays enabled: a controller whose
/// stamp is at least the current instance sequence is disabled.
#[derive(Clone, Copy, Debug, PartialEq, Eq, Structural)]
pub struct DisableSeqKnobs {
    pub cpu: u64,
    pub io: u64,
    pub mem: u64,
}

/// Intended knobs of one slice.
#[derive(Clone, Copy, Debug, PartialEq, Eq, Structural)]
pub struct SliceConfig {
    pub cpu_weight: u32,
    pub io_weight: u32,
    pub mem_min: MemoryKnob,
    pub mem_low: MemoryKnob,
    pub mem_high: MemoryKnob,
}

impl SliceConfig {
    pub open spec fn valid(self) -> bool {
        &&& 1 <= self.cpu_weight <= 10000
        &&& 1 <= self.io_weight <= 10000
        &&& self.mem_min.valid()
        &&& self.mem_low.valid()
        &&& self.mem_high.valid()
    }

    pub fn is_valid(&self) -> (r: bool)
        ensures
            r == self.valid(),
    {
        1 <= self.cpu_weight && self.cpu_weight <= 10000 && 1 <= self.io_weight
            && self.io_weight <= 10000 && self.mem_min.is_valid() && self.mem_low.is_valid()
            && self.mem_high.is_valid()
    }
}

/// The whole intended resource-control state: one `SliceConfig` per slice,
/// in enumeration order.
#[derive(Clone, Debug)]
pub struct SliceKnobs {
    pub slices: Vec<SliceConfig>,
    pub disable_seqs: DisableSeqKnobs,
    pub work_mem_low_none: bool,
}

/// The mathematical value of a `SliceKnobs`.
pub struct SliceKnobsView {
    pub slices: Seq<SliceConfig>,
    pub disable_seqs: DisableSeqKnobs,
    pub work_mem_low_none: bool,
}

impl SliceKnobsView {
    pub open spec fn wf(self) -> bool {
        &&& self.slices.len() == NR_SLICES
        &&& forall|i: int| 0 <= i < NR_SLICES ==> (#[trigger] self.slices[i]).valid()
    }

    pub open spec fn cfg_of(self, s: Slice) -> SliceConfig {
        self.slices[s.idx()]
    }
}

impl View for SliceKnobs {
    type V = SliceKnobsView;

    open spec fn view(&self) -> SliceKnobsView {
        SliceKnobsView {
            slices: self.slices@,
            disable_seqs: self.disable_seqs,
            work_mem_low_none: self.work_mem_low_none,
        }
    }
}

impl SliceKnobs {
    /// Whether the knobs are in range: one valid configuration per slice.
    pub fn is_wf(&self) -> (r: bool)
        ensures
            r == self@.wf(),
    {
        if self.slices.len() != NR_SLICES {
            return false;
        }
        let mut i: usize = 0;
        while i < NR_SLICES
            invariant
                self.slices@.len() == NR_SLICES,
                0 <= i <= NR_SLICES,
                forall|j: int| 0 <= j < i ==> (#[trigger] self.slices@[j]).valid(),
            decreases NR_SLICES - i,
        {
            if !self.slices[i].is_valid() {
                return false;
            }
            i = i + 1;
        }
        true
    }

    /// The configuration of `slice`.
    pub fn get(&self, slice: Slice) -> (r: &SliceConfig)
        requires
            self.slices@.len() == NR_SLICES,
        ensures
            *r == self@.cfg_of(slice),
    {
        &self.slices[slice.index()]
    }
}

/// Why a configuration pass refused its inputs.
#[derive(Clone, Copy, Debug, PartialEq, Eq, Structural)]
pub enum SliceError {
    /// The declarative inputs are out of range.
    ConfigInvalid,
}

pub proof fn lemma_slice_at_idx(i: int)
    requires
        0 <= i < NR_SLICES,
    ensures
        slice_at(i).idx() == i,
{
}

pub proof fn lemma_idx_slice_at(s: Slice)
    ensures
        slice_at(s.idx()) == s,
        0 <= s.idx() < NR_SLICES,
{
}

/// The process-wide inputs of the configuration passes.
#[derive(Clone, Copy, Debug, PartialEq, Eq, Structural)]
pub struct Config {
    pub enforce: EnforceConfig,
    /// The kernel applies memory protection recursively.
    pub memcg_recursive_prot: bool,
    /// Total memory of the host, in bytes.
    pub total_memory: u64,
    /// The monotone per-boot instance counter.
    pub instance_seq: u64,
}

} // verus!
