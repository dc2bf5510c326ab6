//! Selection of the companion raw-event node of a matched keyboard.
//!
//! Each matched keyboard exposes, besides its analog interface, one raw
//! event node that the pipeline grabs exclusively so the OS does not also
//! deliver native keystrokes. The node is recognised by the keyboard's
//! vendor and product id and by carrying at least one alphabetic key in its
//! key-code bitmap, which tells the keyboard interface apart from auxiliary
//! nodes of the same device. Zero or several such nodes is a topology
//! error; the pipeline treats an unexpected topology as fatal.

use vstd::prelude::*;

verus! {

/// What the library reads of one raw event node; the process fills it from
/// the platform's device directory at the boundary.
#[derive(Clone, Copy, PartialEq, Eq, Structural, Debug)]
pub struct EvdevCandidate {
    pub vendor: u16,
    pub product: u16,
    /// Whether the node's key-code bitmap holds at least one alphabetic key.
    pub has_alpha_key: bool,
}

/// Zero or several candidate nodes satisfied the match: a configuration
/// error.
#[derive(Clone, Copy, PartialEq, Eq, Structural, Debug)]
pub enum TopologyError {
    NoCandidate,
    MultipleCandidates,
}

/// Whether a node is the keyboard interface of the unit with these ids.
pub open spec fn spec_node_matches(vendor_id: u16, product_id: u16) -> spec_fn(
    EvdevCandidate,
) -> bool {
    |c: EvdevCandidate| c.vendor == vendor_id && c.product == product_id && c.has_alpha_key
}

/// Pick the one candidate node that is the keyboard interface of the unit:
/// its index comes back exactly when one candidate matches, and each error
/// names how the search failed.
pub fn find_evdev(cands: &Vec<EvdevCandidate>, vendor_id: u16, product_id: u16) -> (r: Result<
    usize,
    TopologyError,
>)
    ensures
        ({
            let pred = spec_node_matches(vendor_id, product_id);
            let n = cands@.filter(pred).len();
            match r {
                Ok(i) => n == 1 && i < cands@.len() && pred(cands@[i as int]),
                Err(TopologyError::NoCandidate) => n == 0,
                Err(TopologyError::MultipleCandidates) => n >= 2,
            }
        }),
{
    let ghost pred = spec_node_matches(vendor_id, product_id);
    let mut count: usize = 0;
    let mut first: usize = 0;
    let mut i: usize = 0;
    proof {
        reveal_with_fuel(Seq::filter, 2);
        assert(cands@.take(0) =~= Seq::<EvdevCandidate>::empty());
        assert(Seq::<EvdevCandidate>::empty().filter(pred) =~= Seq::<EvdevCandidate>::empty());
    }
    while i < cands.len()
        invariant
            i <= cands.len(),
            pred == spec_node_matches(vendor_id, product_id),
            count == cands@.take(i as int).filter(pred).len(),
            count > 0 ==> first < i && pred(cands@[first as int]),
        decreases cands.len() - i,
    {
        let c = cands[i];
        proof {
            reveal(Seq::filter);
            let t1 = cands@.take(i as int + 1);
            assert(t1.drop_last() =~= cands@.take(i as int));
            assert(t1.last() == cands@[i as int]);
            cands@.take(i as int).lemma_filter_len(pred);
        }
        if c.vendor == vendor_id && c.product == product_id && c.has_alpha_key {
            if count == 0 {
                first = i;
            }
            count = count + 1;
        }
        i = i + 1;
    }
    proof {
        assert(cands@.take(cands@.len() as int) =~= cands@);
    }
    if count == 0 {
        Err(TopologyError::NoCandidate)
    } else if count == 1 {
        Ok(first)
    } else {
        Err(TopologyError::MultipleCandidates)
    }
}

} // verus!
