//! The drop-in fragment that carries a slice's resource-control settings.
use vstd::prelude::*;
use vstd::string::*;

use crate::knob::{push_systemd_string, systemd_bytes_text, MemoryKnob};
use crate::slice::{slice_name, Slice};
use crate::text::{dec, ends_with, ends_with_spec, push_dec};

verus! {

/// The settings that one drop-in carries; an absent field is left out.
#[derive(Clone, Copy, Debug, PartialEq, Eq, Structural)]
pub struct SliceFields {
    pub cpu_weight: Option<u32>,
    pub io_weight: Option<u32>,
    pub mem_min: Option<MemoryKnob>,
    pub mem_low: Option<MemoryKnob>,
    pub mem_high: Option<MemoryKnob>,
}

impl SliceFields {
    pub open spec fn valid(self) -> bool {
        &&& (self.mem_min matches Some(k) ==> k.valid())
        &&& (self.mem_low matches Some(k) ==> k.valid())
        &&& (self.mem_high matches Some(k) ==> k.valid())
    }
}

/// The banner that opens every drop-in.
pub open spec fn configlet_banner() -> Seq<char> {
    "# Generated by rd-agent. Do not edit directly.\n"@
}

/// `[Slice]` for slice units, `[Scope]` for the others.
pub open spec fn section_of(s: Slice) -> Seq<char> {
    if ends_with_spec(slice_name(s), ".slice"@) {
        "Slice"@
    } else {
        "Scope"@
    }
}

pub open spec fn weight_line(key: Seq<char>, w: Option<u32>) -> Seq<char> {
    match w {
        Some(v) => key + dec(v as nat) + "\n"@,
        None => Seq::empty(),
    }
}

pub open spec fn mem_line(key: Seq<char>, m: Option<MemoryKnob>, is_limit: bool, total_memory: u64) -> Seq<
    char,
> {
    match m {
        Some(k) => key + systemd_bytes_text(k.bytes(is_limit, total_memory)) + "\n"@,
        None => Seq::empty(),
    }
}

/// The full text of a slice's drop-in.
pub open spec fn configlet_text(s: Slice, f: SliceFields, total_memory: u64) -> Seq<char> {
    configlet_banner() + "["@ + section_of(s) + "]\n"@ + weight_line("CPUWeight="@, f.cpu_weight)
        + weight_line("IOWeight="@, f.io_weight) + mem_line(
        "MemoryMin="@,
        f.mem_min,
        false,
        total_memory,
    ) + mem_line("MemoryLow="@, f.mem_low, false, total_memory) + mem_line(
        "MemoryHigh="@,
        f.mem_high,
        true,
        total_memory,
    )
}

fn push_weight_line(buf: &mut String, key: &str, w: Option<u32>)
    ensures
        final(buf)@ == old(buf)@ + weight_line(key@, w),
{
    match w {
        Some(v) => {
            buf.append(key);
            push_dec(buf, v as u64);
            buf.append("\n");
            assert(final(buf)@ =~= old(buf)@ + weight_line(key@, w));
        },
        None => {
            assert(final(buf)@ =~= old(buf)@ + weight_line(key@, w));
        },
    }
}

fn push_mem_line(buf: &mut String, key: &str, m: Option<MemoryKnob>, is_limit: bool, total_memory: u64)
    requires
        m matches Some(k) ==> k.valid(),
    ensures
        final(buf)@ == old(buf)@ + mem_line(key@, m, is_limit, total_memory),
{
    match m {
        Some(k) => {
            buf.append(key);
            push_systemd_string(buf, &k, is_limit, total_memory);
            buf.append("\n");
            assert(final(buf)@ =~= old(buf)@ + mem_line(key@, m, is_limit, total_memory));
        },
        None => {
            assert(final(buf)@ =~= old(buf)@ + mem_line(key@, m, is_limit, total_memory));
        },
    }
}

/// Builds the drop-in of `slice` from the settings that are present.
pub fn build_configlet(
    slice: Slice,
    cpu_weight: Option<u32>,
    io_weight: Option<u32>,
    mem_min: Option<MemoryKnob>,
    mem_low: Option<MemoryKnob>,
    mem_high: Option<MemoryKnob>,
    total_memory: u64,
) -> (r: String)
    requires
        mem_min matches Some(k) ==> k.valid(),
        mem_low matches Some(k) ==> k.valid(),
        mem_high matches Some(k) ==> k.valid(),
    ensures
        r@ == configlet_text(
            slice,
            SliceFields { cpu_weight, io_weight, mem_min, mem_low, mem_high },
            total_memory,
        ),
{
    let section = if ends_with(slice.name(), ".slice") {
        "Slice"
    } else {
        "Scope"
    };
    let mut buf = String::from_str("# Generated by rd-agent. Do not edit directly.\n");
    buf.append("[");
    buf.append(section);
    buf.append("]\n");
    push_weight_line(&mut buf, "CPUWeight=", cpu_weight);
    push_weight_line(&mut buf, "IOWeight=", io_weight);
    push_mem_line(&mut buf, "MemoryMin=", mem_min, false, total_memory);
    push_mem_line(&mut buf, "MemoryLow=", mem_low, false, total_memory);
    push_mem_line(&mut buf, "MemoryHigh=", mem_high, true, total_memory);
    let ghost f = SliceFields { cpu_weight, io_weight, mem_min, mem_low, mem_high };
    assert(buf@ =~= configlet_text(slice, f, total_memory));
    buf
}

} // verus!
