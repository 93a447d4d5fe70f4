//! Detection of IO policies that compete with iocost.
use vstd::prelude::*;
use vstd::string::*;

use crate::text::{is_blank, is_blank_str};

verus! {

/// One `io.latency`, `io.max` or `io.low` file of the cgroup tree.
#[derive(Clone, Debug)]
pub struct IoCtlFile {
    /// The name of the cgroup that holds the file.
    pub cgroup: String,
    /// Its first line, or `None` where it could not be read.
    pub content: Option<String>,
}

/// A file that holds a policy: readable and not blank.
pub open spec fn offending(f: IoCtlFile) -> bool {
    f.content matches Some(c) && !is_blank(c@)
}

pub open spec fn nr_offending(s: Seq<IoCtlFile>) -> nat
    decreases s.len(),
{
    if s.len() == 0 {
        0
    } else {
        nr_offending(s.drop_last()) + if offending(s.last()) {
            1nat
        } else {
            0nat
        }
    }
}

/// The position of the first offending file.
pub open spec fn first_offending(s: Seq<IoCtlFile>) -> Option<int>
    decreases s.len(),
{
    if s.len() == 0 {
        None
    } else {
        match first_offending(s.drop_last()) {
            Some(j) => Some(j),
            None => if offending(s.last()) {
                Some(s.len() - 1)
            } else {
                None
            },
        }
    }
}

/// What the scan found: how many files hold a competing policy, and the
/// cgroup of the first of them.
#[derive(Clone, Debug)]
pub struct OtherIoReport {
    pub first: Option<String>,
    pub nr_fails: usize,
}

proof fn lemma_first_offending_bounds(s: Seq<IoCtlFile>)
    ensures
        first_offending(s) matches Some(j) ==> 0 <= j < s.len() && offending(s[j]),
        first_offending(s) is None ==> nr_offending(s) == 0,
        nr_offending(s) <= s.len(),
    decreases s.len(),
{
    if s.len() > 0 {
        lemma_first_offending_bounds(s.drop_last());
    }
}

/// Scans the IO policy files; the system requirement of no other IO
/// controllers fails exactly where `first` is set.
pub fn check_other_io_controllers(files: &Vec<IoCtlFile>) -> (r: OtherIoReport)
    ensures
        r.nr_fails == nr_offending(files@),
        r.first is Some <==> first_offending(files@) is Some,
        r.first matches Some(c) ==> c@ == files@[first_offending(files@).unwrap()].cgroup@,
{
    let mut first: Option<String> = None;
    let mut nr_fails: usize = 0;
    let mut i: usize = 0;
    while i < files.len()
        invariant
            0 <= i <= files@.len(),
            nr_fails == nr_offending(files@.take(i as int)),
            nr_fails <= i,
            first is Some <==> first_offending(files@.take(i as int)) is Some,
            first matches Some(c) ==> c@ == files@[first_offending(files@.take(i as int)).unwrap()].cgroup@,
            first_offending(files@.take(i as int)) matches Some(j) ==> 0 <= j < i,
        decreases files@.len() - i,
    {
        let f = &files[i];
        let bad = match &f.content {
            Some(c) => !is_blank_str(c.as_str()),
            None => false,
        };
        assert(files@.take(i + 1).drop_last() =~= files@.take(i as int));
        assert(files@.take(i + 1).last() == files@[i as int]);
        if bad {
            if first.is_none() {
                first = Some(f.cgroup.clone());
            }
            nr_fails = nr_fails + 1;
        }
        i = i + 1;
    }
    assert(files@.take(files@.len() as int) =~= files@);
    OtherIoReport { first, nr_fails }
}

} // verus!
