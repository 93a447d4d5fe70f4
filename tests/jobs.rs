use resctl::jobs::{JobCtx, JobCtxs, JobSpec};

fn spec(kind: &str, id: Option<&str>, props: &[(&str, &str)]) -> JobSpec {
    JobSpec {
        kind: kind.to_string(),
        id: id.map(|s| s.to_string()),
        props: vec![props.iter().map(|(k, v)| (k.to_string(), v.to_string())).collect()],
    }
}

fn job(s: JobSpec, uid: u64, seq: u64) -> JobCtx {
    let mut j = JobCtx::new(s);
    j.uid = uid;
    j.update_seq = seq;
    j
}

#[test]
fn lookup_by_uid() {
    let jobs = JobCtxs {
        vec: vec![job(spec("a", None, &[]), 3, 0), job(spec("b", None, &[]), 7, 0)],
    };
    assert_eq!(jobs.by_uid(7).unwrap().spec.kind, "b");
    assert!(jobs.by_uid(9).is_none());
}

#[test]
fn ids_are_space_separated() {
    let jobs = JobCtxs {
        vec: vec![job(spec("a", None, &[]), 3, 0), job(spec("b", None, &[]), 12, 0)],
    };
    assert_eq!(jobs.format_ids(), "3 12");
    assert_eq!(JobCtxs::new().format_ids(), "");
}

#[test]
fn sort_orders_by_update_seq() {
    let mut jobs = JobCtxs {
        vec: vec![
            job(spec("a", None, &[]), 1, 5),
            job(spec("b", None, &[]), 2, 1),
            job(spec("c", None, &[]), 3, 5),
            job(spec("d", None, &[]), 4, 0),
        ],
    };
    jobs.sort_by_update_seq();
    let uids: Vec<u64> = jobs.vec.iter().map(|j| j.uid).collect();
    assert_eq!(uids, vec![4, 2, 1, 3]);
}

#[test]
fn results_compatibility() {
    let j = job(spec("iocost", None, &[("x", "1")]), 1, 0);
    assert!(j.are_results_compatible(&spec("iocost", None, &[("x", "1")])));
    assert!(!j.are_results_compatible(&spec("iocost", None, &[("x", "2")])));
    let mut inc = job(spec("iocost", None, &[("x", "1")]), 1, 0);
    inc.incremental = true;
    assert!(inc.are_results_compatible(&spec("iocost", None, &[("x", "2")])));
}

#[test]
fn link_reuses_matching_previous_result() {
    let mut jobs = JobCtxs {
        vec: vec![
            job(spec("hashd", Some("x"), &[]), 10, 0),
            job(spec("iocost", None, &[]), 11, 0),
        ],
    };
    let mut new = JobCtx::new(spec("iocost", None, &[]));
    jobs.link_job(&mut new, 99);
    assert_eq!(new.uid, 11);
    assert!(jobs.vec[1].used);
    assert_eq!(jobs.vec.len(), 2);
    let mut again = JobCtx::new(spec("iocost", None, &[]));
    jobs.link_job(&mut again, 100);
    assert_eq!(again.uid, 100);
    assert_eq!(jobs.vec.len(), 3);
    assert!(jobs.vec[2].used);
    assert_eq!(jobs.vec[2].uid, 100);
    assert_eq!(jobs.find_matching_unused_prev(&spec("hashd", Some("x"), &[])), Some(0));
    assert_eq!(jobs.find_matching_unused_prev(&spec("hashd", Some("y"), &[])), None);
}

#[test]
fn pop_matching_takes_first_of_kind_and_id() {
    let mut jobs = JobCtxs {
        vec: vec![
            job(spec("a", Some("1"), &[]), 1, 0),
            job(spec("a", Some("2"), &[]), 2, 0),
            job(spec("a", Some("2"), &[]), 3, 0),
        ],
    };
    let j = jobs.pop_matching_jctx(&spec("a", Some("2"), &[("p", "q")])).unwrap();
    assert_eq!(j.uid, 2);
    assert_eq!(jobs.vec.len(), 2);
    assert!(jobs.pop_matching_jctx(&spec("a", None, &[])).is_none());
}

#[test]
fn weak_clone_keeps_data_only() {
    let mut j = job(spec("a", Some("1"), &[("k", "v")]), 5, 3);
    j.used = true;
    j.period = (10, 20);
    let c = j.weak_clone();
    assert_eq!(c.uid, 5);
    assert!(!c.used);
    assert_eq!(c.update_seq, u64::MAX);
    assert_eq!(c.period, (10, 20));
    assert!(c.spec.same_spec(&j.spec));
    assert_eq!(c.spec.props[0][0].1, "v");
}
