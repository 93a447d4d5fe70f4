//! The list of benchmark jobs of a run and of its result file, and how new
//! jobs are linked to earlier results.
use vstd::prelude::*;
use vstd::seq_lib::*;
use vstd::string::*;

use crate::text::{dec, push_dec, str_eq};

verus! {

/// A property set of a job: key and value pairs in key order.
pub type PropSet = Vec<(String, String)>;

/// What a job is asked to do: its kind, an optional id that tells jobs of
/// one kind apart, and its property sets.
#[derive(Clone, Debug)]
pub struct JobSpec {
    pub kind: String,
    pub id: Option<String>,
    pub props: Vec<PropSet>,
}

pub open spec fn opt_view(o: Option<String>) -> Option<Seq<char>> {
    match o {
        Some(s) => Some(s@),
        None => None,
    }
}

pub open spec fn propset_view(p: PropSet) -> Seq<(Seq<char>, Seq<char>)> {
    Seq::new(p@.len(), |i: int| (p@[i].0@, p@[i].1@))
}

pub open spec fn props_view(p: Seq<PropSet>) -> Seq<Seq<(Seq<char>, Seq<char>)>> {
    Seq::new(p.len(), |i: int| propset_view(p[i]))
}

/// Two jobs of the same kind and id refer to the same results.
pub open spec fn same_job(a: JobSpec, b: JobSpec) -> bool {
    a.kind@ == b.kind@ && opt_view(a.id) == opt_view(b.id)
}

pub open spec fn same_spec(a: JobSpec, b: JobSpec) -> bool {
    same_job(a, b) && props_view(a.props@) == props_view(b.props@)
}

fn opt_str_eq(a: &Option<String>, b: &Option<String>) -> (r: bool)
    ensures
        r == (opt_view(*a) == opt_view(*b)),
{
    match (a, b) {
        (Some(x), Some(y)) => str_eq(x.as_str(), y.as_str()),
        (None, None) => true,
        _ => false,
    }
}

fn propset_eq(a: &PropSet, b: &PropSet) -> (r: bool)
    ensures
        r == (propset_view(*a) == propset_view(*b)),
{
    if a.len() != b.len() {
        assert(propset_view(*a).len() != propset_view(*b).len());
        return false;
    }
    let mut i: usize = 0;
    while i < a.len()
        invariant
            a@.len() == b@.len(),
            0 <= i <= a@.len(),
            forall|k: int| 0 <= k < i ==> #[trigger] propset_view(*a)[k] == propset_view(*b)[k],
        decreases a@.len() - i,
    {
        if !str_eq(a[i].0.as_str(), b[i].0.as_str()) || !str_eq(a[i].1.as_str(), b[i].1.as_str()) {
            assert(propset_view(*a)[i as int] != propset_view(*b)[i as int]);
            return false;
        }
        i = i + 1;
    }
    assert(propset_view(*a) =~= propset_view(*b));
    true
}

fn duplicate_propset(p: &PropSet) -> (r: PropSet)
    ensures
        propset_view(r) == propset_view(*p),
{
    let mut out: PropSet = Vec::new();
    let mut i: usize = 0;
    while i < p.len()
        invariant
            0 <= i <= p@.len(),
            out@.len() == i,
            forall|k: int| 0 <= k < i ==> #[trigger] propset_view(out)[k] == propset_view(*p)[k],
        decreases p@.len() - i,
    {
        let kv = (p[i].0.clone(), p[i].1.clone());
        let ghost prev = out;
        out.push(kv);
        assert forall|k: int| 0 <= k < i + 1 implies #[trigger] propset_view(out)[k] == propset_view(*p)[k] by {
            if k < i {
                assert(out@[k] == prev@[k]);
                assert(propset_view(prev)[k] == propset_view(*p)[k]);
            }
        }
        i = i + 1;
    }
    assert(propset_view(out) =~= propset_view(*p));
    out
}

impl JobSpec {
    /// A copy of the spec.
    pub fn duplicate(&self) -> (r: JobSpec)
        ensures
            same_spec(r, *self),
    {
        let mut props: Vec<PropSet> = Vec::new();
        let mut i: usize = 0;
        while i < self.props.len()
            invariant
                0 <= i <= self.props@.len(),
                props@.len() == i,
                forall|k: int|
                    0 <= k < i ==> #[trigger] props_view(props@)[k] == props_view(self.props@)[k],
            decreases self.props@.len() - i,
        {
            let ps = duplicate_propset(&self.props[i]);
            let ghost prev = props@;
            props.push(ps);
            assert forall|k: int|
                0 <= k < i + 1 implies #[trigger] props_view(props@)[k] == props_view(self.props@)[k] by {
                if k < i {
                    assert(props@[k] == prev[k]);
                    assert(props_view(prev)[k] == props_view(self.props@)[k]);
                }
            }
            i = i + 1;
        }
        assert(props_view(props@) =~= props_view(self.props@));
        let id = match &self.id {
            Some(s) => Some(s.clone()),
            None => None,
        };
        JobSpec { kind: self.kind.clone(), id, props }
    }

    /// Whether `other` is the same job: same kind and id.
    pub fn same_job(&self, other: &JobSpec) -> (r: bool)
        ensures
            r == same_job(*self, *other),
    {
        str_eq(self.kind.as_str(), other.kind.as_str()) && opt_str_eq(&self.id, &other.id)
    }

    /// Whether `other` asks for exactly the same: same job and properties.
    pub fn same_spec(&self, other: &JobSpec) -> (r: bool)
        ensures
            r == same_spec(*self, *other),
    {
        if !self.same_job(other) {
            return false;
        }
        if self.props.len() != other.props.len() {
            assert(props_view(self.props@).len() != props_view(other.props@).len());
            return false;
        }
        let mut i: usize = 0;
        while i < self.props.len()
            invariant
                self.props@.len() == other.props@.len(),
                0 <= i <= self.props@.len(),
                forall|k: int|
                    0 <= k < i ==> #[trigger] props_view(self.props@)[k] == props_view(other.props@)[k],
            decreases self.props@.len() - i,
        {
            if !propset_eq(&self.props[i], &other.props[i]) {
                assert(props_view(self.props@)[i as int] != props_view(other.props@)[i as int]);
                return false;
            }
            i = i + 1;
        }
        assert(props_view(self.props@) =~= props_view(other.props@));
        true
    }
}

/// A job of the run, with what the run keeps about it.
#[derive(Debug)]
pub struct JobCtx {
    pub spec: JobSpec,
    /// Start and end of the run, in seconds since the epoch.
    pub period: (u64, u64),
    /// Results accumulate over runs, so any earlier result can be built on.
    pub incremental: bool,
    pub uid: u64,
    /// Already linked to a job of this run.
    pub used: bool,
    pub update_seq: u64,
}

/// Results of a job are compatible with `other` where they accumulate, or
/// where both ask for exactly the same.
pub open spec fn compatible(j: JobCtx, other: JobSpec) -> bool {
    j.incremental || same_spec(j.spec, other)
}

impl JobCtx {
    pub fn new(spec: JobSpec) -> (r: JobCtx)
        ensures
            r.spec == spec,
            r.period == (0u64, 0u64),
            !r.incremental,
            r.uid == 0,
            !r.used,
            r.update_seq == u64::MAX,
    {
        JobCtx { spec, period: (0, 0), incremental: false, uid: 0, used: false, update_seq: u64::MAX }
    }

    /// A copy that keeps the job's data and uid but none of its run state.
    pub fn weak_clone(&self) -> (r: JobCtx)
        ensures
            same_spec(r.spec, self.spec),
            r.period == self.period,
            r.incremental == self.incremental,
            r.uid == self.uid,
            !r.used,
            r.update_seq == u64::MAX,
    {
        let spec = self.spec.duplicate();
        JobCtx {
            spec,
            period: self.period,
            incremental: self.incremental,
            uid: self.uid,
            used: false,
            update_seq: u64::MAX,
        }
    }

    /// Whether the results of this job can stand for a job asking for
    /// `other`, which is of the same kind.
    pub fn are_results_compatible(&self, other: &JobSpec) -> (r: bool)
        requires
            self.spec.kind@ == other.kind@,
        ensures
            r == compatible(*self, *other),
    {
        self.incremental || self.spec.same_spec(other)
    }
}

/// `i` is the first position of `s` whose job satisfies `p`.
pub open spec fn first_where(s: Seq<JobCtx>, i: int, p: spec_fn(JobCtx) -> bool) -> bool {
    0 <= i < s.len() && p(s[i]) && forall|k: int| 0 <= k < i ==> !p(#[trigger] s[k])
}

pub open spec fn none_where(s: Seq<JobCtx>, p: spec_fn(JobCtx) -> bool) -> bool {
    forall|k: int| 0 <= k < s.len() ==> !p(#[trigger] s[k])
}

/// The uids of the jobs, separated by spaces.
pub open spec fn ids_text(s: Seq<JobCtx>) -> Seq<char>
    decreases s.len(),
{
    if s.len() == 0 {
        Seq::empty()
    } else if s.len() == 1 {
        dec(s[0].uid as nat)
    } else {
        ids_text(s.drop_last()) + " "@ + dec(s.last().uid as nat)
    }
}

/// In order of update sequence.
pub open spec fn by_update_seq(s: Seq<JobCtx>) -> bool {
    forall|i: int, j: int| 0 <= i < j < s.len() ==> (#[trigger] s[i]).update_seq <= (#[trigger] s[j]).update_seq
}

/// The jobs of a run, and those of its result file.
#[derive(Debug)]
pub struct JobCtxs {
    pub vec: Vec<JobCtx>,
}

proof fn lemma_insert_keeps_seq_order(out: Seq<JobCtx>, pos: int, j: JobCtx)
    requires
        by_update_seq(out),
        0 <= pos <= out.len(),
        forall|k: int| 0 <= k < pos ==> (#[trigger] out[k]).update_seq < j.update_seq,
        pos < out.len() ==> out[pos].update_seq >= j.update_seq,
    ensures
        by_update_seq(out.insert(pos, j)),
{
    out.insert_ensures(pos, j);
    let o = out.insert(pos, j);
    assert forall|a: int, b: int| 0 <= a < b < o.len() implies (#[trigger] o[a]).update_seq <= (
    #[trigger] o[b]).update_seq by {
        if a < pos {
            assert(o[a] == out[a]);
        }
        if b > pos {
            assert(o[b] == out[b - 1]);
            if b - 1 > pos {
                assert(out[pos].update_seq <= out[b - 1].update_seq);
            }
        }
        if a > pos {
            assert(o[a] == out[a - 1]);
        }
        if b < pos {
            assert(o[b] == out[b]);
        }
    }
}

proof fn lemma_move_job(out: Seq<JobCtx>, rest: Seq<JobCtx>, pos: int, j: JobCtx, orig: Seq<JobCtx>)
    requires
        out.to_multiset().add(rest.push(j).to_multiset()) == orig.to_multiset(),
        0 <= pos <= out.len(),
    ensures
        out.insert(pos, j).to_multiset().add(rest.to_multiset()) == orig.to_multiset(),
{
    broadcast use vstd::multiset::group_multiset_axioms;

    rest.to_multiset_ensures();
    to_multiset_insert(out, pos, j);
    assert(out.insert(pos, j).to_multiset().add(rest.to_multiset()) =~= out.to_multiset().add(
        rest.push(j).to_multiset(),
    ));
}

impl JobCtxs {
    pub fn new() -> (r: JobCtxs)
        ensures
            r.vec@.len() == 0,
    {
        JobCtxs { vec: Vec::new() }
    }

    fn find_uid(&self, uid: u64) -> (r: Option<usize>)
        ensures
            r matches Some(i) ==> first_where(self.vec@, i as int, |j: JobCtx| j.uid == uid),
            r is None ==> none_where(self.vec@, |j: JobCtx| j.uid == uid),
    {
        let mut i: usize = 0;
        while i < self.vec.len()
            invariant
                0 <= i <= self.vec@.len(),
                forall|k: int| 0 <= k < i ==> (#[trigger] self.vec@[k]).uid != uid,
            decreases self.vec@.len() - i,
        {
            if self.vec[i].uid == uid {
                return Some(i);
            }
            i = i + 1;
        }
        None
    }

    /// The first job with `uid`.
    pub fn by_uid(&self, uid: u64) -> (r: Option<&JobCtx>)
        ensures
            r is None ==> none_where(self.vec@, |j: JobCtx| j.uid == uid),
            r matches Some(j) ==> exists|i: int|
                first_where(self.vec@, i, |j: JobCtx| j.uid == uid) && *j == self.vec@[i],
    {
        match self.find_uid(uid) {
            Some(i) => Some(&self.vec[i]),
            None => None,
        }
    }

    /// Orders the jobs by update sequence.
    pub fn sort_by_update_seq(&mut self)
        ensures
            final(self).vec@.to_multiset() == old(self).vec@.to_multiset(),
            by_update_seq(final(self).vec@),
    {
        let ghost orig = self.vec@;
        let mut rest: Vec<JobCtx> = Vec::new();
        std::mem::swap(&mut rest, &mut self.vec);
        let mut out: Vec<JobCtx> = Vec::new();
        proof {
            broadcast use vstd::multiset::group_multiset_axioms;

            Seq::<JobCtx>::empty().to_multiset_ensures();
            assert(out@.to_multiset().add(rest@.to_multiset()) =~= orig.to_multiset());
        }
        while rest.len() > 0
            invariant
                out@.to_multiset().add(rest@.to_multiset()) == orig.to_multiset(),
                by_update_seq(out@),
            decreases rest@.len(),
        {
            let ghost rest_before = rest@;
            let j = rest.pop().unwrap();
            assert(rest_before =~= rest@.push(j));
            let mut pos: usize = 0;
            while pos < out.len() && out[pos].update_seq < j.update_seq
                invariant
                    0 <= pos <= out@.len(),
                    forall|k: int| 0 <= k < pos ==> (#[trigger] out@[k]).update_seq < j.update_seq,
                decreases out@.len() - pos,
            {
                pos = pos + 1;
            }
            proof {
                lemma_insert_keeps_seq_order(out@, pos as int, j);
                lemma_move_job(out@, rest@, pos as int, j, orig);
            }
            out.insert(pos, j);
        }
        proof {
            broadcast use vstd::multiset::group_multiset_axioms;

            rest@.to_multiset_ensures();
            assert(out@.to_multiset() =~= orig.to_multiset());
        }
        self.vec = out;
    }

    /// The first job, not yet linked, whose results can stand for `spec`.
    pub fn find_matching_unused_prev(&self, spec: &JobSpec) -> (r: Option<usize>)
        ensures
            r matches Some(i) ==> first_where(self.vec@, i as int, |j: JobCtx| can_link(j, *spec)),
            r is None ==> none_where(self.vec@, |j: JobCtx| can_link(j, *spec)),
    {
        let mut i: usize = 0;
        while i < self.vec.len()
            invariant
                0 <= i <= self.vec@.len(),
                forall|k: int| 0 <= k < i ==> !can_link(#[trigger] self.vec@[k], *spec),
            decreases self.vec@.len() - i,
        {
            let j = &self.vec[i];
            if !j.used && j.spec.same_job(spec) && j.are_results_compatible(spec) {
                return Some(i);
            }
            i = i + 1;
        }
        None
    }

    /// Links a new job of this run to the results it continues: the first
    /// unlinked matching job lends it its uid and is marked linked; where
    /// there is none, the job takes `fresh_uid` and a linked copy of it
    /// joins the list.
    pub fn link_job(&mut self, new: &mut JobCtx, fresh_uid: u64)
        ensures
            match link_target(old(self).vec@, old(new).spec) {
                Some(i) => {
                    &&& final(new).uid == old(self).vec@[i].uid
                    &&& final(self).vec@.len() == old(self).vec@.len()
                    &&& final(self).vec@[i].used
                    &&& final(self).vec@[i].uid == old(self).vec@[i].uid
                    &&& forall|k: int|
                        0 <= k < old(self).vec@.len() && k != i ==> #[trigger] final(self).vec@[k]
                            == old(self).vec@[k]
                },
                None => {
                    &&& final(new).uid == fresh_uid
                    &&& final(self).vec@.len() == old(self).vec@.len() + 1
                    &&& forall|k: int|
                        0 <= k < old(self).vec@.len() ==> #[trigger] final(self).vec@[k]
                            == old(self).vec@[k]
                    &&& final(self).vec@.last().used
                    &&& final(self).vec@.last().uid == fresh_uid
                    &&& same_spec(final(self).vec@.last().spec, old(new).spec)
                },
            },
            final(new).spec == old(new).spec,
            final(new).used == old(new).used,
    {
        let found = self.find_matching_unused_prev(&new.spec);
        proof {
            let s = old(self).vec@;
            let sp = old(new).spec;
            match found {
                Some(i) => {
                    assert(is_link_target(s, i as int, sp));
                    assert forall|k: int| #[trigger] is_link_target(s, k, sp) implies k == i by {
                        if k < i {
                            assert(!can_link(s[k], sp));
                        } else if k > i {
                            assert(!can_link(s[i as int], sp));
                        }
                    }
                    assert(link_target(s, sp) == Some(i as int));
                },
                None => {
                    assert forall|k: int| !#[trigger] is_link_target(s, k, sp) by {
                        if 0 <= k < s.len() {
                            assert(!can_link(s[k], sp));
                        }
                    }
                },
            }
        }
        match found {
            Some(i) => {
                let mut prev = self.vec.remove(i);
                prev.used = true;
                new.uid = prev.uid;
                self.vec.insert(i, prev);
                assert forall|k: int|
                    0 <= k < old(self).vec@.len() && k != i implies #[trigger] self.vec@[k]
                        == old(self).vec@[k] by {}
            },
            None => {
                new.uid = fresh_uid;
                let mut prev = new.weak_clone();
                prev.used = true;
                self.vec.push(prev);
            },
        }
    }

    fn find_matching_jctx_idx(&self, spec: &JobSpec) -> (r: Option<usize>)
        ensures
            r matches Some(i) ==> first_where(self.vec@, i as int, |j: JobCtx| same_job(j.spec, *spec)),
            r is None ==> none_where(self.vec@, |j: JobCtx| same_job(j.spec, *spec)),
    {
        let mut i: usize = 0;
        while i < self.vec.len()
            invariant
                0 <= i <= self.vec@.len(),
                forall|k: int| 0 <= k < i ==> !same_job((#[trigger] self.vec@[k]).spec, *spec),
            decreases self.vec@.len() - i,
        {
            if self.vec[i].spec.same_job(spec) {
                return Some(i);
            }
            i = i + 1;
        }
        None
    }

    /// Takes out the first job of the same kind and id as `spec`.
    pub fn pop_matching_jctx(&mut self, spec: &JobSpec) -> (r: Option<JobCtx>)
        ensures
            r is None ==> none_where(old(self).vec@, |j: JobCtx| same_job(j.spec, *spec))
                && final(self).vec@ == old(self).vec@,
            r matches Some(j) ==> exists|i: int|
                first_where(old(self).vec@, i, |j: JobCtx| same_job(j.spec, *spec)) && j
                    == old(self).vec@[i] && final(self).vec@ == old(self).vec@.remove(i),
    {
        match self.find_matching_jctx_idx(spec) {
            Some(idx) => Some(self.vec.remove(idx)),
            None => None,
        }
    }

    /// The uids of the jobs, separated by spaces.
    pub fn format_ids(&self) -> (r: String)
        ensures
            r@ == ids_text(self.vec@),
    {
        let mut buf = String::new();
        let mut i: usize = 0;
        while i < self.vec.len()
            invariant
                0 <= i <= self.vec@.len(),
                buf@ == ids_text(self.vec@.take(i as int)),
            decreases self.vec@.len() - i,
        {
            let ghost before = buf@;
            if i > 0 {
                buf.append(" ");
            }
            push_dec(&mut buf, self.vec[i].uid);
            proof {
                let t = self.vec@.take(i + 1);
                assert(t.drop_last() =~= self.vec@.take(i as int));
                if i == 0 {
                    assert(buf@ =~= ids_text(t));
                } else {
                    assert(buf@ =~= ids_text(t));
                }
            }
            i = i + 1;
        }
        assert(self.vec@.take(self.vec@.len() as int) =~= self.vec@);
        buf
    }
}

/// A job whose results a new job asking for `spec` can take over.
pub open spec fn can_link(j: JobCtx, spec: JobSpec) -> bool {
    !j.used && same_job(j.spec, spec) && compatible(j, spec)
}

pub open spec fn is_link_target(s: Seq<JobCtx>, i: int, spec: JobSpec) -> bool {
    first_where(s, i, |j: JobCtx| can_link(j, spec))
}

/// The position of the first job that a new job asking for `spec` links to.
pub open spec fn link_target(s: Seq<JobCtx>, spec: JobSpec) -> Option<int> {
    if exists|i: int| #[trigger] is_link_target(s, i, spec) {
        Some(choose|i: int| #[trigger] is_link_target(s, i, spec))
    } else {
        None
    }
}

} // verus!
