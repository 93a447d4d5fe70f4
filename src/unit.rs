//! What the core reads of units of the service manager.
use vstd::prelude::*;
use vstd::string::*;

use crate::text::{ends_with, ends_with_spec, starts_with_spec, str_eq, strip_prefix};

verus! {

/// Lifecycle state of a unit as the service manager reports it.
#[derive(Clone, Debug)]
pub enum UnitState {
    NotFound,
    Running,
    Exited,
    OtherActive(String),
    Inactive,
    Failed(String),
    Other(String),
}

impl UnitState {
    pub open spec fn running(&self) -> bool {
        self is Running
    }

    /// Active states in which a unit takes resource-control overrides.
    pub open spec fn active(&self) -> bool {
        self is Running || self is OtherActive
    }

    pub fn is_running(&self) -> (r: bool)
        ensures
            r == self.running(),
    {
        matches!(self, UnitState::Running)
    }

    pub fn is_active(&self) -> (r: bool)
        ensures
            r == self.active(),
    {
        matches!(self, UnitState::Running | UnitState::OtherActive(_))
    }
}

/// The resource-control overrides of a unit; an absent field is not
/// overridden.
#[derive(Clone, Copy, Debug, PartialEq, Eq, Structural)]
pub struct UnitResCtl {
    pub cpu_weight: Option<u64>,
    pub io_weight: Option<u64>,
    pub mem_min: Option<u64>,
    pub mem_low: Option<u64>,
    pub mem_high: Option<u64>,
    pub mem_max: Option<u64>,
}

pub open spec fn empty_resctl() -> UnitResCtl {
    UnitResCtl {
        cpu_weight: None,
        io_weight: None,
        mem_min: None,
        mem_low: None,
        mem_high: None,
        mem_max: None,
    }
}

impl UnitResCtl {
    /// No overrides at all.
    pub fn new() -> (r: UnitResCtl)
        ensures
            r == empty_resctl(),
    {
        UnitResCtl {
            cpu_weight: None,
            io_weight: None,
            mem_min: None,
            mem_low: None,
            mem_high: None,
            mem_max: None,
        }
    }
}

/// A cgroup directory name that the service manager owns as a unit.
pub open spec fn is_unit_name_spec(name: Seq<char>) -> bool {
    ends_with_spec(name, ".service"@) || ends_with_spec(name, ".scope"@) || ends_with_spec(
        name,
        ".slice"@,
    )
}

pub fn is_unit_name(name: &str) -> (r: bool)
    ensures
        r == is_unit_name_spec(name@),
{
    ends_with(name, ".service") || ends_with(name, ".scope") || ends_with(name, ".slice")
}

/// The cgroupfs mount point, which the service manager leaves out of its
/// `ControlGroup` paths.
pub open spec fn cgroup_mount() -> Seq<char> {
    "/sys/fs/cgroup"@
}

/// A cgroupfs path as the service manager writes it: without the mount point.
pub open spec fn control_group_of(path: Seq<char>) -> Option<Seq<char>> {
    if starts_with_spec(path, cgroup_mount()) {
        Some(path.subrange(cgroup_mount().len() as int, path.len() as int))
    } else {
        None
    }
}

pub fn control_group_path<'a>(path: &'a str) -> (r: Option<&'a str>)
    ensures
        r is Some <==> control_group_of(path@) is Some,
        r is Some ==> r.unwrap()@ == control_group_of(path@).unwrap(),
{
    strip_prefix(path, "/sys/fs/cgroup")
}

/// A unit found below a slice, as the service manager describes it.
#[derive(Clone, Debug)]
pub struct Descendant {
    /// The cgroupfs path where the unit was found.
    pub found_at: String,
    /// The unit's `ControlGroup` property, if it has one.
    pub control_group: Option<String>,
    pub state: UnitState,
    pub resctl: UnitResCtl,
}

/// Whether propagating `target` changes the unit: it still lives where it
/// was found, it is active, and its overrides differ.
pub open spec fn propagation_applies(d: Descendant, target: UnitResCtl) -> bool {
    &&& d.control_group is Some
    &&& control_group_of(d.found_at@) == Some(d.control_group.unwrap()@)
    &&& d.state.active()
    &&& d.resctl != target
}

/// Decides, for one descendant unit, whether the cascade sets its overrides
/// to `target`: it returns the overrides to apply, or `None` to skip it.
pub fn propagate_to(d: &Descendant, target: &UnitResCtl) -> (r: Option<UnitResCtl>)
    ensures
        r == (if propagation_applies(*d, *target) {
            Some(*target)
        } else {
            None
        }),
{
    let cg = match &d.control_group {
        Some(cg) => cg,
        None => {
            return None;
        },
    };
    let rel = match control_group_path(d.found_at.as_str()) {
        Some(rel) => rel,
        None => {
            return None;
        },
    };
    if !str_eq(cg.as_str(), rel) {
        return None;
    }
    if !d.state.is_active() {
        return None;
    }
    if d.resctl == *target {
        return None;
    }
    Some(*target)
}

} // verus!
