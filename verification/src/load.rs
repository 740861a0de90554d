//! The block list of a run: every candidate of the input that stands for a
//! block, in order, and the candidates that were turned down.

use vstd::prelude::*;
use crate::block::{NetworkBlock, Source};
use crate::extract::{Candidate, candidate_views, candidates_of, extract_ip_ranges};
use crate::range::{parse_ip_range, range_text_value, RangeError};

verus! {

/// A candidate that stands for no block, with the reason.
#[derive(Debug)]
pub struct Rejected {
    pub text: String,
    pub error: RangeError,
}

impl View for Rejected {
    type V = (Seq<char>, RangeError);

    open spec fn view(&self) -> (Seq<char>, RangeError) {
        (self.text@, self.error)
    }
}

/// The blocks of an input and what was turned down on the way.
#[derive(Debug)]
pub struct RangeList {
    pub blocks: Vec<NetworkBlock>,
    pub rejected: Vec<Rejected>,
}

/// The input holds no block at all.
#[derive(Debug)]
pub struct NoValidRanges {
    pub rejected: Vec<Rejected>,
}

/// A block as address, prefix length and tag.
pub open spec fn block_views(blocks: Seq<NetworkBlock>) -> Seq<(u32, u8, Source)> {
    Seq::new(blocks.len(), |i: int| (blocks[i].addr(), blocks[i].prefix_len(), blocks[i].source()))
}

pub open spec fn rejected_views(list: Seq<Rejected>) -> Seq<(Seq<char>, RangeError)> {
    Seq::new(list.len(), |i: int| list[i]@)
}

/// The blocks of the candidates that stand for one, in order, each with the
/// tag of its candidate.
pub open spec fn accepted(candidates: Seq<(Seq<char>, Source)>) -> Seq<(u32, u8, Source)>
    decreases candidates.len(),
{
    if candidates.len() == 0 {
        Seq::empty()
    } else {
        let rest = accepted(candidates.drop_last());
        match range_text_value(candidates.last().0) {
            Ok((addr, prefix_len)) => rest.push((addr, prefix_len, candidates.last().1)),
            Err(_) => rest,
        }
    }
}

/// The candidates that stand for no block, in order, each with its reason.
pub open spec fn refused(candidates: Seq<(Seq<char>, Source)>) -> Seq<(Seq<char>, RangeError)>
    decreases candidates.len(),
{
    if candidates.len() == 0 {
        Seq::empty()
    } else {
        let rest = refused(candidates.drop_last());
        match range_text_value(candidates.last().0) {
            Ok(_) => rest,
            Err(e) => rest.push((candidates.last().0, e)),
        }
    }
}

/// Whether a result holds the blocks and the rejects of these candidates:
/// a list when there is a block, the error when there is none.
pub open spec fn resolves(
    r: Result<RangeList, NoValidRanges>,
    candidates: Seq<(Seq<char>, Source)>,
) -> bool {
    match r {
        Ok(list) => {
            &&& accepted(candidates).len() > 0
            &&& block_views(list.blocks@) == accepted(candidates)
            &&& rejected_views(list.rejected@) == refused(candidates)
            &&& forall|i: int| 0 <= i < list.blocks@.len() ==> (#[trigger] list.blocks@[i]).wf()
        },
        Err(e) => {
            &&& accepted(candidates).len() == 0
            &&& rejected_views(e.rejected@) == refused(candidates)
        },
    }
}

/// Turns candidates into blocks. One that stands for no block is set aside
/// and the rest goes on; only a list without any block is an error.
pub fn resolve_candidates(candidates: &Vec<Candidate>) -> (r: Result<RangeList, NoValidRanges>)
    ensures
        resolves(r, candidate_views(candidates@)),
{
    let mut blocks: Vec<NetworkBlock> = Vec::new();
    let mut rejected: Vec<Rejected> = Vec::new();
    let mut i: usize = 0;
    let ghost all = candidate_views(candidates@);
    assert(all.take(0) == Seq::<(Seq<char>, Source)>::empty());
    while i < candidates.len()
        invariant
            i <= candidates.len(),
            all == candidate_views(candidates@),
            block_views(blocks@) == accepted(all.take(i as int)),
            rejected_views(rejected@) == refused(all.take(i as int)),
            forall|j: int| 0 <= j < blocks@.len() ==> (#[trigger] blocks@[j]).wf(),
        decreases candidates.len() - i,
    {
        let ghost before_blocks = block_views(blocks@);
        let ghost before_rejected = rejected_views(rejected@);
        let candidate = &candidates[i];
        proof {
            assert(all.take(i + 1).drop_last() == all.take(i as int));
            assert(all.take(i + 1).last() == candidate@);
        }
        match parse_ip_range(candidate.text.as_str(), candidate.source) {
            Ok(block) => {
                blocks.push(block);
                assert(block_views(blocks@) == before_blocks.push(
                    (block.addr(), block.prefix_len(), block.source()),
                ));
            },
            Err(error) => {
                let entry = Rejected { text: candidate.text.clone(), error };
                rejected.push(entry);
                assert(rejected_views(rejected@) == before_rejected.push(entry@));
            },
        }
        i = i + 1;
    }
    assert(all.take(i as int) == all);
    if blocks.len() == 0 {
        Err(NoValidRanges { rejected })
    } else {
        Ok(RangeList { blocks, rejected })
    }
}

/// Reads the blocks of a run from the text of the input.
pub fn load_ranges(content: &str) -> (r: Result<RangeList, NoValidRanges>)
    ensures
        resolves(r, candidates_of(content@)),
{
    let candidates = extract_ip_ranges(content);
    resolve_candidates(&candidates)
}

} // verus!
