//! File naming and page layout of the iocost tuning graphs.
use vstd::prelude::*;
use vstd::string::*;

use crate::run::{push_str, strs_view};

verus! {

/// Graphs per page of the collected document.
pub const NR_PER_PAGE: usize = 6;

/// Where the graphs go: text to the caller's output, and SVG files and a PDF
/// under `file_prefix` where one is given.
#[derive(Clone, Debug)]
pub struct Grapher {
    pub file_prefix: Option<String>,
}

/// The SVG file of the graph named `sel`.
pub open spec fn plot_file(prefix: Seq<char>, sel: Seq<char>) -> Seq<char> {
    prefix + "-"@ + sel + ".svg"@
}

/// The blank tiles that fill up the last page of a group of `n` graphs.
pub open spec fn page_padding(n: nat) -> Seq<Seq<char>> {
    Seq::new(
        if n % NR_PER_PAGE as nat == 0 {
            0
        } else {
            (NR_PER_PAGE as nat - n % NR_PER_PAGE as nat) as nat
        },
        |i: int| "null:"@,
    )
}

pub open spec fn group_sources(prefix: Seq<char>, g: Seq<Seq<char>>) -> Seq<Seq<char>> {
    Seq::new(g.len(), |i: int| plot_file(prefix, g[i])) + page_padding(g.len())
}

/// The tiles of the collected document: each group's graphs, each group
/// starting on a page of its own.
pub open spec fn montage_sources_spec(prefix: Seq<char>, gs: Seq<Seq<Seq<char>>>) -> Seq<Seq<char>>
    decreases gs.len(),
{
    if gs.len() == 0 {
        Seq::empty()
    } else {
        montage_sources_spec(prefix, gs.drop_last()) + group_sources(prefix, gs.last())
    }
}

pub open spec fn groups_view(gs: Seq<Vec<String>>) -> Seq<Seq<Seq<char>>> {
    Seq::new(gs.len(), |i: int| strs_view(gs[i]@))
}

fn push_plot_file(v: &mut Vec<String>, prefix: &str, sel: &str)
    ensures
        strs_view(final(v)@) == strs_view(old(v)@).push(plot_file(prefix@, sel@)),
{
    let mut f = String::from_str(prefix);
    f.append("-");
    f.append(sel);
    f.append(".svg");
    let ghost fv = f@;
    v.push(f);
    assert(strs_view(final(v)@) =~= strs_view(old(v)@).push(fv));
}

impl Grapher {
    pub fn new(file_prefix: Option<&str>) -> (r: Grapher)
        ensures
            r.file_prefix is Some <==> file_prefix is Some,
            r.file_prefix matches Some(p) ==> p@ == file_prefix.unwrap()@,
    {
        match file_prefix {
            Some(p) => Grapher { file_prefix: Some(String::from_str(p)) },
            None => Grapher { file_prefix: None },
        }
    }

    /// The SVG file of the graph named `sel`.
    pub fn plot_filename(&self, sel: &str) -> (r: String)
        requires
            self.file_prefix is Some,
        ensures
            r@ == plot_file(self.file_prefix.unwrap()@, sel@),
    {
        let prefix = self.file_prefix.as_ref().unwrap();
        let mut f = prefix.clone();
        f.append("-");
        f.append(sel);
        f.append(".svg");
        f
    }

    /// The PDF that collects the graphs.
    pub fn pdf_filename(&self) -> (r: String)
        requires
            self.file_prefix is Some,
        ensures
            r@ == self.file_prefix.unwrap()@ + ".pdf"@,
    {
        let mut f = self.file_prefix.as_ref().unwrap().clone();
        f.append(".pdf");
        f
    }

    /// The tiles of the collected document, from the graph names grouped
    /// as they are to be laid out.
    pub fn montage_sources(&self, groups: &Vec<Vec<String>>) -> (r: Vec<String>)
        requires
            self.file_prefix is Some,
        ensures
            strs_view(r@) == montage_sources_spec(self.file_prefix.unwrap()@, groups_view(groups@)),
    {
        let prefix = self.file_prefix.as_ref().unwrap().as_str();
        let ghost p = prefix@;
        let mut srcs: Vec<String> = Vec::new();
        let mut gi: usize = 0;
        while gi < groups.len()
            invariant
                p == self.file_prefix.unwrap()@,
                p == prefix@,
                0 <= gi <= groups@.len(),
                strs_view(srcs@) == montage_sources_spec(p, groups_view(groups@).take(gi as int)),
            decreases groups@.len() - gi,
        {
            let grp = &groups[gi];
            let ghost before = strs_view(srcs@);
            let mut k: usize = 0;
            while k < grp.len()
                invariant
                    p == prefix@,
                    0 <= k <= grp@.len(),
                    strs_view(srcs@) == before + Seq::new(
                        k as nat,
                        |i: int| plot_file(p, grp@[i]@),
                    ),
                decreases grp@.len() - k,
            {
                push_plot_file(&mut srcs, prefix, grp[k].as_str());
                assert(strs_view(srcs@) =~= before + Seq::new(
                    (k + 1) as nat,
                    |i: int| plot_file(p, grp@[i]@),
                ));
                k = k + 1;
            }
            let ghost after_files = strs_view(srcs@);
            let pad = NR_PER_PAGE - grp.len() % NR_PER_PAGE;
            if pad < NR_PER_PAGE {
                let mut j: usize = 0;
                while j < pad
                    invariant
                        0 <= j <= pad,
                        strs_view(srcs@) == after_files + Seq::new(j as nat, |i: int| "null:"@),
                    decreases pad - j,
                {
                    push_str(&mut srcs, "null:");
                    assert(strs_view(srcs@) =~= after_files + Seq::new((j + 1) as nat, |i: int| "null:"@));
                    j = j + 1;
                }
            }
            proof {
                let gv = groups_view(groups@);
                assert(gv.take(gi + 1).drop_last() =~= gv.take(gi as int));
                assert(gv.take(gi + 1).last() == strs_view(grp@));
                assert(Seq::new(grp@.len(), |i: int| plot_file(p, grp@[i]@)) =~= Seq::new(
                    strs_view(grp@).len(),
                    |i: int| plot_file(p, strs_view(grp@)[i]),
                ));
                assert(strs_view(srcs@) =~= montage_sources_spec(p, gv.take(gi + 1)));
            }
            gi = gi + 1;
        }
        assert(groups_view(groups@).take(groups@.len() as int) =~= groups_view(groups@));
        srcs
    }
}

} // verus!
