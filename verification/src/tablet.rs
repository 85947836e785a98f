//! Which tablet of a seat a stylus tool is on. Each tablet holds at most one
//! tool near it, known by its id.

use vstd::prelude::*;

verus! {

/// Whether `i` is the first tablet of `tools` holding `holding` (`None` for a
/// tablet with no tool near).
pub open spec fn first_holding(tools: Seq<Option<u32>>, holding: Option<u32>, i: int) -> bool {
    &&& 0 <= i < tools.len()
    &&& tools[i] == holding
    &&& forall|j: int| 0 <= j < i ==> tools[j] != holding
}

/// The first tablet holding `holding`: the tablet a tool is on for
/// `Some(tool)`, the tablet that takes a tool coming near for `None`.
pub fn find_tablet(tools: &Vec<Option<u32>>, holding: Option<u32>) -> (res: Option<usize>)
    ensures
        match res {
            Some(i) => first_holding(tools@, holding, i as int),
            None => forall|j: int| 0 <= j < tools@.len() ==> tools@[j] != holding,
        },
{
    let mut i: usize = 0;
    while i < tools.len()
        invariant
            i <= tools@.len(),
            forall|j: int| 0 <= j < i ==> tools@[j] != holding,
        decreases tools@.len() - i,
    {
        if tools[i] == holding {
            return Some(i);
        }
        i = i + 1;
    }
    None
}

/// The tablets holding `tool`, in order: those that let it go when the tool
/// is removed.
pub fn tablets_holding(tools: &Vec<Option<u32>>, tool: u32) -> (res: Vec<usize>)
    ensures
        res@ == Seq::new(tools@.len() as nat, |j: int| j).filter(|j: int| tools@[j] == Some(tool)).map_values(
            |j: int| j as usize,
        ),
        forall|k: int| 0 <= k < res@.len() ==> #[trigger] res@[k] < tools@.len() && tools@[res@[k] as int] == Some(tool),
        forall|j: int| 0 <= j < tools@.len() && tools@[j] == Some(tool) ==> res@.contains(j as usize),
{
    let ghost all = Seq::new(tools@.len() as nat, |j: int| j);
    let mut res: Vec<usize> = Vec::new();
    let mut i: usize = 0;
    while i < tools.len()
        invariant
            i <= tools@.len(),
            all == Seq::new(tools@.len() as nat, |j: int| j),
            res@ == all.take(i as int).filter(|j: int| tools@[j] == Some(tool)).map_values(|j: int| j as usize),
            forall|k: int| 0 <= k < res@.len() ==> #[trigger] res@[k] < i && tools@[res@[k] as int] == Some(tool),
            forall|j: int| 0 <= j < i && tools@[j] == Some(tool) ==> res@.contains(j as usize),
        decreases tools@.len() - i,
    {
        let ghost before = res@;
        proof {
            assert(all.take(i + 1) =~= all.take(i as int).push(i as int));
            all.take(i as int).lemma_filter_push(i as int, |j: int| tools@[j] == Some(tool));
        }
        if tools[i] == Some(tool) {
            res.push(i);
            proof {
                assert(res@ =~= all.take(i + 1).filter(|j: int| tools@[j] == Some(tool)).map_values(
                    |j: int| j as usize,
                ));
                assert(res@[before.len() as int] == i);
            }
        } else {
            proof {
                assert(res@ =~= all.take(i + 1).filter(|j: int| tools@[j] == Some(tool)).map_values(
                    |j: int| j as usize,
                ));
            }
        }
        proof {
            assert forall|j: int| 0 <= j < i + 1 && tools@[j] == Some(tool) implies res@.contains(j as usize) by {
                if j < i {
                    let k = choose|k: int| 0 <= k < before.len() && before[k] == j as usize;
                    assert(res@[k] == j as usize);
                } else {
                    assert(res@[before.len() as int] == i);
                }
            }
        }
        i = i + 1;
    }
    proof {
        assert(all.take(tools@.len() as int) =~= all);
    }
    res
}

} // verus!
