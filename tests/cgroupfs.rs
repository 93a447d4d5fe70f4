use resctl::iodetect::{check_other_io_controllers, IoCtlFile};
use resctl::knob::MemoryKnob;
use resctl::reconcile::{
    check_attr, controllers_disagree, cpu_weight_fix, disable_write_order, io_weight_fix,
    mem_fix, parse_mem_value, set_mem_override, subtree_edits, verify_and_fix_slices,
    within_tolerance, AttrCheck, MemAttr,
};
use resctl::slice::{Config, DisableSeqKnobs, EnforceConfig, SliceConfig, SliceKnobs};
use resctl::text::{contains, ends_with, is_blank_str, parse_u64, u64_to_dec};
use resctl::unit::{is_unit_name, propagate_to, Descendant, UnitResCtl, UnitState};

const GIB: u64 = 1 << 30;

fn cfg() -> Config {
    Config {
        enforce: EnforceConfig { cpu: true, io: true, mem: true, crit_mem_prot: true },
        memcg_recursive_prot: false,
        total_memory: 64 * GIB,
        instance_seq: 5,
    }
}

fn knobs() -> SliceKnobs {
    let sc = SliceConfig {
        cpu_weight: 100,
        io_weight: 100,
        mem_min: MemoryKnob::Bytes(GIB),
        mem_low: MemoryKnob::Bytes(10 * GIB),
        mem_high: MemoryKnob::Max,
    };
    SliceKnobs {
        slices: vec![sc; 6],
        disable_seqs: DisableSeqKnobs { cpu: 0, io: 0, mem: 0 },
        work_mem_low_none: false,
    }
}

#[test]
fn verifier_fixes_cpu_weight() {
    assert_eq!(cpu_weight_fix("50", 100).as_deref(), Some("100"));
    assert_eq!(cpu_weight_fix("100", 100), None);
    assert_eq!(cpu_weight_fix("garbage", 100).as_deref(), Some("100"));
    let mut r = UnitResCtl::new();
    r.cpu_weight = Some(100);
    assert_eq!(r.cpu_weight, Some(100));
    assert_eq!(check_attr(&AttrCheck::CpuWeight(100), "50", 64 * GIB).as_deref(), Some("100"));
}

#[test]
fn verifier_fixes_io_weight() {
    assert_eq!(io_weight_fix("default 100", 100), None);
    assert_eq!(io_weight_fix("default 50", 100).as_deref(), Some("default 100"));
    assert_eq!(io_weight_fix("100", 100).as_deref(), Some("default 100"));
}

#[test]
fn tolerance_skips_close_memory_values() {
    let cur = 10 * GIB + GIB / 2;
    let line = u64_to_dec(cur);
    assert_eq!(mem_fix(&line, &MemoryKnob::Bytes(10 * GIB), false, 64 * GIB), None);
}

#[test]
fn tolerance_rule_bounds() {
    let total = 1000;
    assert!(within_tolerance(109, 100, total));
    assert!(within_tolerance(91, 100, total));
    assert!(!within_tolerance(110, 100, total));
    assert!(!within_tolerance(90, 100, total));
    assert!(within_tolerance(0, 0, total));
    assert!(!within_tolerance(1, 0, total));
    assert!(within_tolerance(u64::MAX, 5000, total));
    assert!(within_tolerance(1000, u64::MAX, total));
}

#[test]
fn memory_values_out_of_tolerance_are_written() {
    let total = 64 * GIB;
    assert_eq!(
        mem_fix("1073741824", &MemoryKnob::Bytes(2 * GIB), false, total).as_deref(),
        Some("2147483648")
    );
    assert_eq!(mem_fix("0", &MemoryKnob::Max, true, total).as_deref(), Some("max"));
    assert_eq!(mem_fix("max", &MemoryKnob::Unset, true, total), None);
    assert_eq!(mem_fix("bogus", &MemoryKnob::Unset, false, total).as_deref(), Some("0"));
    assert_eq!(parse_mem_value("max"), Some(u64::MAX));
    assert_eq!(parse_mem_value("42"), Some(42));
    assert_eq!(parse_mem_value(""), None);
}

#[test]
fn written_values_read_back_clean() {
    let total = 64 * GIB;
    for c in [
        AttrCheck::Memory(MemAttr::Min, MemoryKnob::Bytes(GIB)),
        AttrCheck::Memory(MemAttr::High, MemoryKnob::Max),
        AttrCheck::Memory(MemAttr::Max, MemoryKnob::Unset),
        AttrCheck::Memory(MemAttr::Low, MemoryKnob::Percent(5000)),
    ] {
        let AttrCheck::Memory(a, k) = c else { unreachable!() };
        let written = resctl::knob::mknob_to_cgrp_string(&k, a.is_limit(), total);
        assert_eq!(check_attr(&c, &written, total), None);
    }
    assert_eq!(check_attr(&AttrCheck::IoWeight(250), "default 250", total), None);
}

#[test]
fn verify_plan_per_slice() {
    let k = knobs();
    let plan = verify_and_fix_slices(&k, false, &cfg()).unwrap();
    assert_eq!(plan.slices.len(), 6);
    assert!(plan.check_other_io);
    let host = &plan.slices[0];
    assert_eq!(host.checks.len(), 6);
    assert_eq!(host.checks[0], AttrCheck::CpuWeight(100));
    assert_eq!(host.checks[1], AttrCheck::IoWeight(100));
    assert_eq!(host.checks[4], AttrCheck::Memory(MemAttr::Max, MemoryKnob::Unset));
    assert_eq!(host.descendant_prot, Some((MemoryKnob::Bytes(GIB), MemoryKnob::Bytes(10 * GIB))));
    assert!(plan.slices[4].descendant_prot.is_none());
}

#[test]
fn verify_plan_skips_senpai_mem_high() {
    let plan = verify_and_fix_slices(&knobs(), true, &cfg()).unwrap();
    let work = &plan.slices[4];
    assert!(!work.checks.contains(&AttrCheck::Memory(MemAttr::High, MemoryKnob::Max)));
    assert!(plan.slices[0].checks.contains(&AttrCheck::Memory(MemAttr::High, MemoryKnob::Max)));
}

#[test]
fn verify_plan_gates_disabled_controllers() {
    let mut k = knobs();
    let c = cfg();
    k.disable_seqs.cpu = c.instance_seq;
    k.disable_seqs.mem = c.instance_seq + 1;
    let plan = verify_and_fix_slices(&k, false, &c).unwrap();
    assert!(plan.slices.iter().all(|s| !s.checks.contains(&AttrCheck::CpuWeight(100))));
    let work = &plan.slices[4];
    assert_eq!(
        work.checks[1..].to_vec(),
        vec![
            AttrCheck::Memory(MemAttr::Min, MemoryKnob::Unset),
            AttrCheck::Memory(MemAttr::Low, MemoryKnob::Unset)
        ]
    );
    let e = subtree_edits(&k.disable_seqs, &c);
    assert_eq!(e.disable, " -cpu");
    assert_eq!(e.enable, " +io +memory");
}

#[test]
fn recursive_prot_cascades_zero() {
    let mut c = cfg();
    c.memcg_recursive_prot = true;
    let plan = verify_and_fix_slices(&knobs(), false, &c).unwrap();
    assert_eq!(plan.slices[2].descendant_prot, Some((MemoryKnob::Bytes(0), MemoryKnob::Bytes(0))));
}

#[test]
fn subtree_control_checks() {
    let c = cfg();
    let d = DisableSeqKnobs { cpu: 0, io: 0, mem: 0 };
    assert!(!controllers_disagree("cpu io memory pids", &d, &c));
    assert!(controllers_disagree("io memory", &d, &c));
    let gated = DisableSeqKnobs { cpu: 9, io: 0, mem: 0 };
    assert!(controllers_disagree("cpu io memory", &gated, &c));
    assert!(!controllers_disagree("io memory", &gated, &c));
    let e = subtree_edits(&d, &c);
    assert_eq!(e.disable, "");
    assert_eq!(e.enable, " +cpu +io +memory");
}

#[test]
fn disables_go_deepest_first() {
    let paths = vec![
        "/sys/fs/cgroup/cgroup.subtree_control".to_string(),
        "/sys/fs/cgroup/a.slice/b.slice/cgroup.subtree_control".to_string(),
        "/sys/fs/cgroup/a.slice/cgroup.subtree_control".to_string(),
        "/sys/fs/cgroup/ab.slice/cgroup.subtree_control".to_string(),
    ];
    let sorted = disable_write_order(paths.clone());
    assert_eq!(sorted.len(), 4);
    for w in sorted.windows(2) {
        assert!(w[0].len() >= w[1].len());
    }
    assert_eq!(sorted[0], paths[1]);
    assert_eq!(sorted[3], paths[0]);
    let mut a = sorted.clone();
    let mut b = paths.clone();
    a.sort();
    b.sort();
    assert_eq!(a, b);
    assert!(disable_write_order(vec![]).is_empty());
}

#[test]
fn mem_override_reflects_written_value() {
    let mut r = UnitResCtl::new();
    set_mem_override(&mut r, MemAttr::Low, 77);
    assert_eq!(r.mem_low, Some(77));
    assert_eq!(r.mem_min, None);
    set_mem_override(&mut r, MemAttr::Max, 5);
    assert_eq!(r.mem_max, Some(5));
    assert_eq!(MemAttr::High.file_name(), "memory.high");
    assert_eq!(AttrCheck::IoWeight(1).file_name(), "io.weight");
}

#[test]
fn other_io_controllers_found() {
    let files = vec![
        IoCtlFile { cgroup: "a.slice".into(), content: Some("".into()) },
        IoCtlFile { cgroup: "b.slice".into(), content: None },
        IoCtlFile { cgroup: "c.slice".into(), content: Some("8:0 rbps=100".into()) },
        IoCtlFile { cgroup: "d.slice".into(), content: Some("  ".into()) },
        IoCtlFile { cgroup: "e.slice".into(), content: Some("8:0 target=10".into()) },
    ];
    let r = check_other_io_controllers(&files);
    assert_eq!(r.first.as_deref(), Some("c.slice"));
    assert_eq!(r.nr_fails, 2);
    let r = check_other_io_controllers(&files[..2].to_vec());
    assert_eq!(r.first, None);
    assert_eq!(r.nr_fails, 0);
}

#[test]
fn descendant_propagation_decisions() {
    let target = UnitResCtl { mem_min: Some(5), ..UnitResCtl::new() };
    let d = Descendant {
        found_at: "/sys/fs/cgroup/system.slice/foo.service".into(),
        control_group: Some("/system.slice/foo.service".into()),
        state: UnitState::Running,
        resctl: UnitResCtl::new(),
    };
    assert_eq!(propagate_to(&d, &target), Some(target));
    let moved = Descendant { control_group: Some("/user.slice/foo.service".into()), ..d.clone() };
    assert_eq!(propagate_to(&moved, &target), None);
    let stopped = Descendant { state: UnitState::Inactive, ..d.clone() };
    assert_eq!(propagate_to(&stopped, &target), None);
    let active = Descendant { state: UnitState::OtherActive("reloading".into()), ..d.clone() };
    assert_eq!(propagate_to(&active, &target), Some(target));
    let same = Descendant { resctl: target, ..d.clone() };
    assert_eq!(propagate_to(&same, &target), None);
}

#[test]
fn text_helpers() {
    assert_eq!(parse_u64("0"), Some(0));
    assert_eq!(parse_u64("18446744073709551615"), Some(u64::MAX));
    assert_eq!(parse_u64("18446744073709551616"), None);
    assert_eq!(parse_u64(""), None);
    assert_eq!(parse_u64("12a"), None);
    assert_eq!(u64_to_dec(u64::MAX), "18446744073709551615");
    assert_eq!(u64_to_dec(0), "0");
    assert!(contains("cpu io", "io"));
    assert!(!contains("cpu", "memory"));
    assert!(ends_with("foo.slice", ".slice"));
    assert!(!ends_with("slice", ".slice"));
    assert!(is_blank_str(" \t\n"));
    assert!(!is_blank_str(" x "));
    assert!(is_unit_name("a.scope"));
    assert!(!is_unit_name("a.mount"));
}
