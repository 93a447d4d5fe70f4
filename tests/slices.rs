use resctl::apply::{apply_slices, clear_slices, clear_resctl, ApplyPlan};
use resctl::configlet::build_configlet;
use resctl::knob::{mknob_to_cgrp_string, mknob_to_systemd_string, mknob_to_unit_resctl, MemoryKnob};
use resctl::slice::{
    Config, DisableSeqKnobs, EnforceConfig, Slice, SliceConfig, SliceError, SliceKnobs,
};
use resctl::unit::UnitResCtl;

const GIB: u64 = 1 << 30;

fn slice_cfg(cpu: u32, io: u32, min: MemoryKnob, low: MemoryKnob, high: MemoryKnob) -> SliceConfig {
    SliceConfig { cpu_weight: cpu, io_weight: io, mem_min: min, mem_low: low, mem_high: high }
}

fn knobs() -> SliceKnobs {
    let mut slices = Vec::new();
    for i in 0..6 {
        if i == 4 {
            slices.push(slice_cfg(
                100,
                500,
                MemoryKnob::Bytes(GIB),
                MemoryKnob::Bytes(2 * GIB),
                MemoryKnob::Max,
            ));
        } else {
            slices.push(slice_cfg(
                100,
                100,
                MemoryKnob::Bytes(256 << 20),
                MemoryKnob::Unset,
                MemoryKnob::Unset,
            ));
        }
    }
    SliceKnobs {
        slices,
        disable_seqs: DisableSeqKnobs { cpu: 0, io: 0, mem: 0 },
        work_mem_low_none: false,
    }
}

fn all_on() -> Config {
    Config {
        enforce: EnforceConfig { cpu: true, io: true, mem: true, crit_mem_prot: true },
        memcg_recursive_prot: false,
        total_memory: 64 * GIB,
        instance_seq: 5,
    }
}

fn blank() -> Vec<Option<String>> {
    vec![None, None, None, None, None, None]
}

fn after(plan: &ApplyPlan, disk: &Vec<Option<String>>) -> Vec<Option<String>> {
    let mut d = disk.clone();
    for (i, st) in plan.steps.iter().enumerate() {
        if let Some(c) = &st.configlet {
            d[i] = Some(c.clone());
        }
    }
    d
}

#[test]
fn apply_from_blank() {
    let mut k = knobs();
    let plan = apply_slices(&mut k, 0, &all_on(), &blank()).unwrap();
    let work = &plan.steps[Slice::Work.index()];
    assert_eq!(work.slice, Slice::Work);
    assert_eq!(
        work.configlet.as_deref(),
        Some(
            "# Generated by rd-agent. Do not edit directly.\n[Slice]\nCPUWeight=100\nIOWeight=500\n\
             MemoryMin=1073741824\nMemoryLow=2147483648\nMemoryHigh=infinity\n"
        )
    );
    assert!(plan.daemon_reload);
    assert!(plan.enable_iocost);
    assert_eq!(plan.steps.len(), 6);
    assert!(plan.steps.iter().all(|s| s.configlet.is_some()));
}

#[test]
fn init_scope_gets_scope_section() {
    let mut k = knobs();
    let plan = apply_slices(&mut k, 0, &all_on(), &blank()).unwrap();
    let init = plan.steps[Slice::Init.index()].configlet.clone().unwrap();
    assert!(init.contains("\n[Scope]\n"));
}

#[test]
fn work_mem_low_follows_hashd_size() {
    let mut k = knobs();
    k.work_mem_low_none = true;
    let plan = apply_slices(&mut k, 8 * GIB, &all_on(), &blank()).unwrap();
    assert_eq!(k.slices[4].mem_low, MemoryKnob::Bytes(6 * GIB));
    let c = plan.steps[4].configlet.clone().unwrap();
    assert!(c.contains("MemoryLow=6442450944\n"));
}

#[test]
fn work_mem_low_rounds_up() {
    let mut k = knobs();
    k.work_mem_low_none = true;
    apply_slices(&mut k, 5, &all_on(), &blank()).unwrap();
    assert_eq!(k.slices[4].mem_low, MemoryKnob::Bytes(4));
}

#[test]
fn gated_disable_drops_work_mem_low() {
    let mut k = knobs();
    k.slices[0].mem_low = MemoryKnob::Bytes(GIB);
    let cfg = all_on();
    k.disable_seqs.mem = cfg.instance_seq;
    let plan = apply_slices(&mut k, 0, &cfg, &blank()).unwrap();
    let work = plan.steps[4].configlet.clone().unwrap();
    assert!(!work.contains("MemoryLow="));
    assert!(work.contains("MemoryMin=1073741824\n"));
    let host = plan.steps[0].configlet.clone().unwrap();
    assert!(host.contains("MemoryLow=1073741824\n"));
}

#[test]
fn second_apply_writes_nothing() {
    let cfg = all_on();
    let mut k = knobs();
    k.work_mem_low_none = true;
    let first = apply_slices(&mut k, 8 * GIB, &cfg, &blank()).unwrap();
    let disk = after(&first, &blank());
    let second = apply_slices(&mut k, 8 * GIB, &cfg, &disk).unwrap();
    assert!(second.steps.iter().all(|s| s.configlet.is_none() && !s.start));
    assert!(!second.daemon_reload);
}

#[test]
fn side_slice_is_started_after_write() {
    let mut k = knobs();
    let plan = apply_slices(&mut k, 0, &all_on(), &blank()).unwrap();
    assert!(plan.steps[Slice::Side.index()].start);
    assert!(!plan.steps[Slice::Work.index()].start);
}

#[test]
fn propagation_targets() {
    let mut k = knobs();
    let mut cfg = all_on();
    let plan = apply_slices(&mut k, 0, &cfg, &blank()).unwrap();
    let host = plan.steps[0].propagate.unwrap();
    assert_eq!(host.mem_min, Some(256 << 20));
    assert_eq!(host.mem_low, None);
    assert!(plan.steps[4].propagate.is_none());
    assert!(plan.steps[5].propagate.is_none());
    cfg.memcg_recursive_prot = true;
    let plan = apply_slices(&mut k, 0, &cfg, &blank()).unwrap();
    assert_eq!(plan.steps[0].propagate, Some(UnitResCtl::new()));
}

#[test]
fn nothing_enforced_touches_nothing() {
    let mut k = knobs();
    let mut cfg = all_on();
    cfg.enforce = EnforceConfig { cpu: false, io: false, mem: false, crit_mem_prot: false };
    let plan = apply_slices(&mut k, 0, &cfg, &blank()).unwrap();
    assert!(plan.steps.iter().all(|s| s.configlet.is_none() && s.propagate.is_none()));
    assert!(!plan.daemon_reload);
}

#[test]
fn crit_mem_prot_only_on_host_and_init() {
    let mut k = knobs();
    let mut cfg = all_on();
    cfg.enforce = EnforceConfig { cpu: false, io: false, mem: false, crit_mem_prot: true };
    let plan = apply_slices(&mut k, 0, &cfg, &blank()).unwrap();
    assert!(plan.steps[0].configlet.is_some());
    assert!(plan.steps[1].configlet.is_some());
    assert!(plan.steps[2].configlet.is_none());
    assert!(plan.steps[4].configlet.is_none());
}

#[test]
fn iocost_follows_io_stamp() {
    let mut k = knobs();
    let cfg = all_on();
    k.disable_seqs.io = cfg.instance_seq;
    let plan = apply_slices(&mut k, 0, &cfg, &blank()).unwrap();
    assert!(!plan.enable_iocost);
}

#[test]
fn invalid_knobs_are_refused() {
    let mut k = knobs();
    k.slices[2].cpu_weight = 0;
    assert_eq!(apply_slices(&mut k, 0, &all_on(), &blank()).err(), Some(SliceError::ConfigInvalid));
    let mut k = knobs();
    k.slices.pop();
    assert!(apply_slices(&mut k, 0, &all_on(), &blank()).is_err());
    let mut k = knobs();
    k.slices[0].mem_min = MemoryKnob::Percent(10001);
    assert!(apply_slices(&mut k, 0, &all_on(), &blank()).is_err());
}

#[test]
fn clear_after_apply_removes_drop_ins() {
    let cfg = all_on();
    let mut k = knobs();
    let plan = apply_slices(&mut k, 0, &cfg, &blank()).unwrap();
    let disk = after(&plan, &blank());
    let present: Vec<bool> = disk.iter().map(|d| d.is_some()).collect();
    let clear = clear_slices(&cfg.enforce, &present);
    assert!(clear.steps.iter().all(|s| s.remove_dropin));
    assert!(clear.daemon_reload);
    assert!(clear.steps[5].stop);
    assert!(!clear.steps[4].stop);
    assert_eq!(clear.steps[0].propagate, Some(UnitResCtl::new()));
}

#[test]
fn clear_without_drop_ins_does_not_reload() {
    let cfg = all_on();
    let clear = clear_slices(&cfg.enforce, &vec![false; 6]);
    assert!(clear.steps.iter().all(|s| !s.remove_dropin));
    assert!(!clear.daemon_reload);
}

#[test]
fn clear_resets_enforced_overrides() {
    let cfg = all_on();
    let clear = clear_slices(&cfg.enforce, &vec![true; 6]);
    let mut r = UnitResCtl {
        cpu_weight: Some(100),
        io_weight: Some(100),
        mem_min: Some(1),
        mem_low: Some(2),
        mem_high: Some(3),
        mem_max: Some(4),
    };
    clear_resctl(&mut r, &clear.steps[0]);
    assert_eq!(r.cpu_weight, None);
    assert_eq!(r.io_weight, None);
    assert_eq!(r.mem_min, None);
    assert_eq!(r.mem_low, None);
    assert_eq!(r.mem_high, Some(3));
    assert_eq!(r.mem_max, Some(4));
}

#[test]
fn memory_knob_encodings() {
    let total = 64 * GIB;
    assert_eq!(MemoryKnob::Unset.nr_bytes(false, total), 0);
    assert_eq!(MemoryKnob::Unset.nr_bytes(true, total), u64::MAX);
    assert_eq!(MemoryKnob::Max.nr_bytes(false, total), u64::MAX);
    assert_eq!(MemoryKnob::Percent(2500).nr_bytes(false, total), 16 * GIB);
    assert_eq!(mknob_to_cgrp_string(&MemoryKnob::Max, false, total), "max");
    assert_eq!(mknob_to_systemd_string(&MemoryKnob::Max, false, total), "infinity");
    assert_eq!(mknob_to_systemd_string(&MemoryKnob::Bytes(0), false, total), "0");
    assert_eq!(mknob_to_cgrp_string(&MemoryKnob::Bytes(1234567), true, total), "1234567");
    assert_eq!(mknob_to_unit_resctl(&MemoryKnob::Unset, total), None);
    assert_eq!(mknob_to_unit_resctl(&MemoryKnob::Unset, total), None);
    assert_eq!(mknob_to_unit_resctl(&MemoryKnob::Bytes(7), total), Some(7));
    assert_eq!(mknob_to_unit_resctl(&MemoryKnob::Max, total), Some(u64::MAX));
}

#[test]
fn configlet_without_fields() {
    let c = build_configlet(Slice::System, None, None, None, None, None, 0);
    assert_eq!(c, "# Generated by rd-agent. Do not edit directly.\n[Slice]\n");
}

#[test]
fn slice_names_and_paths() {
    assert_eq!(Slice::Work.name(), "workload.slice");
    assert_eq!(Slice::Work.cgrp(), "/sys/fs/cgroup/workload.slice");
    assert_eq!(Slice::Init.name(), "init.scope");
    for i in 0..6 {
        assert_eq!(Slice::from_index(i).index(), i);
    }
}
