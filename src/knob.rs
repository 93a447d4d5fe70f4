//! Memory quantities and their cgroupfs and unit-manager encodings.
use vstd::prelude::*;
use vstd::string::*;

use crate::text::{dec, push_dec, u64_to_dec};

verus! {

/// A symbolic memory quantity. `Percent` is in hundredths of a percent of the
/// host's total memory (`10000` is all of it).
#[derive(Clone, Copy, Debug, PartialEq, Eq, Structural)]
pub enum MemoryKnob {
    Unset,
    Max,
    Bytes(u64),
    Percent(u32),
}

/// Hundredths of a percent that make the whole.
pub const PERCENT_SCALE: u32 = 10000;

impl MemoryKnob {
    pub open spec fn valid(self) -> bool {
        match self {
            MemoryKnob::Percent(p) => p <= PERCENT_SCALE,
            _ => true,
        }
    }

    /// The number of bytes the knob stands for; `is_limit` selects the
    /// ceiling reading of `Unset`.
    pub open spec fn bytes(self, is_limit: bool, total_memory: u64) -> u64 {
        match self {
            MemoryKnob::Unset => if is_limit {
                u64::MAX
            } else {
                0
            },
            MemoryKnob::Max => u64::MAX,
            MemoryKnob::Bytes(b) => b,
            MemoryKnob::Percent(p) => (total_memory as nat * p as nat
                / PERCENT_SCALE as nat) as u64,
        }
    }

    pub fn is_valid(&self) -> (r: bool)
        ensures
            r == self.valid(),
    {
        match self {
            MemoryKnob::Percent(p) => *p <= PERCENT_SCALE,
            _ => true,
        }
    }

    pub fn nr_bytes(&self, is_limit: bool, total_memory: u64) -> (r: u64)
        requires
            self.valid(),
        ensures
            r == self.bytes(is_limit, total_memory),
    {
        match self {
            MemoryKnob::Unset => if is_limit {
                u64::MAX
            } else {
                0
            },
            MemoryKnob::Max => u64::MAX,
            MemoryKnob::Bytes(b) => *b,
            MemoryKnob::Percent(p) => {
                let t: u128 = total_memory as u128;
                let q: u128 = *p as u128;
                assert(t * q <= u64::MAX as u128 * PERCENT_SCALE as u128) by (nonlinear_arith)
                    requires
                        t <= u64::MAX as u128,
                        q <= PERCENT_SCALE as u128,
                ;
                let prod: u128 = t * q;
                (prod / PERCENT_SCALE as u128) as u64
            },
        }
    }
}

/// The cgroupfs form of a byte count: `max` for unlimited.
pub open spec fn cgrp_bytes_text(v: u64) -> Seq<char> {
    if v == u64::MAX {
        "max"@
    } else {
        dec(v as nat)
    }
}

/// The unit-manager form of a byte count: `infinity` for unlimited.
pub open spec fn systemd_bytes_text(v: u64) -> Seq<char> {
    if v == u64::MAX {
        "infinity"@
    } else {
        dec(v as nat)
    }
}

/// The unit-manager override of a knob: absent for `Unset`, else its ceiling
/// reading.
pub open spec fn unit_resctl_value(k: MemoryKnob, total_memory: u64) -> Option<u64> {
    match k {
        MemoryKnob::Unset => Option::None,
        _ => Some(k.bytes(true, total_memory)),
    }
}

pub fn mknob_to_cgrp_string(knob: &MemoryKnob, is_limit: bool, total_memory: u64) -> (r: String)
    requires
        knob.valid(),
    ensures
        r@ == cgrp_bytes_text(knob.bytes(is_limit, total_memory)),
{
    let v = knob.nr_bytes(is_limit, total_memory);
    if v == u64::MAX {
        String::from_str("max")
    } else {
        u64_to_dec(v)
    }
}

/// Appends the unit-manager form of the knob to `buf`.
pub fn push_systemd_string(buf: &mut String, knob: &MemoryKnob, is_limit: bool, total_memory: u64)
    requires
        knob.valid(),
    ensures
        final(buf)@ == old(buf)@ + systemd_bytes_text(knob.bytes(is_limit, total_memory)),
{
    let v = knob.nr_bytes(is_limit, total_memory);
    if v == u64::MAX {
        buf.append("infinity");
    } else {
        push_dec(buf, v);
    }
}

pub fn mknob_to_systemd_string(knob: &MemoryKnob, is_limit: bool, total_memory: u64) -> (r: String)
    requires
        knob.valid(),
    ensures
        r@ == systemd_bytes_text(knob.bytes(is_limit, total_memory)),
{
    let mut s = String::new();
    push_systemd_string(&mut s, knob, is_limit, total_memory);
    assert(s@ =~= systemd_bytes_text(knob.bytes(is_limit, total_memory)));
    s
}

pub fn mknob_to_unit_resctl(knob: &MemoryKnob, total_memory: u64) -> (r: Option<u64>)
    requires
        knob.valid(),
    ensures
        r == unit_resctl_value(*knob, total_memory),
{
    match knob {
        MemoryKnob::Unset => Option::None,
        _ => Some(knob.nr_bytes(true, total_memory)),
    }
}

} // verus!
