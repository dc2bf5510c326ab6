//! Batch gap synthesis.
//!
//! A HID report only lists the scancodes that are currently non-zero, so a
//! released key simply vanishes from the stream. The tracker remembers which
//! scancodes the previous batch carried and, for every one absent from the
//! next batch, hands back a scancode for which the caller synthesizes a
//! zero-value reading — without this, released keys would never reach the
//! state machine's release branch.

use vstd::prelude::*;

use crate::report::ReadKey;

verus! {

/// The scancodes of a batch, in report order.
pub open spec fn spec_codes(batch: Seq<ReadKey>) -> Seq<u16> {
    batch.map_values(|rk: ReadKey| rk.code)
}

/// `s` with later repeats dropped: the first occurrence of each code, in
/// first-seen order.
pub open spec fn spec_dedup(s: Seq<u16>) -> Seq<u16>
    decreases s.len(),
{
    if s.len() == 0 {
        Seq::empty()
    } else {
        let rest = spec_dedup(s.drop_last());
        if rest.contains(s.last()) {
            rest
        } else {
            rest.push(s.last())
        }
    }
}

/// Whether a code is absent from the batch `codes`.
pub open spec fn absent_from(codes: Seq<u16>) -> spec_fn(u16) -> bool {
    |c: u16| !codes.contains(c)
}

/// Dropping repeats keeps exactly the codes that were there.
pub proof fn lemma_dedup_contains(s: Seq<u16>, c: u16)
    ensures
        spec_dedup(s).contains(c) <==> s.contains(c),
    decreases s.len(),
{
    if s.len() > 0 {
        lemma_dedup_contains(s.drop_last(), c);
        assert(s.contains(c) <==> s.drop_last().contains(c) || s.last() == c) by {
            if s.contains(c) {
                let i = choose|i: int| 0 <= i < s.len() && s[i] == c;
                if i < s.len() - 1 {
                    assert(s.drop_last()[i] == c);
                }
            }
            if s.drop_last().contains(c) {
                let i = choose|i: int| 0 <= i < s.drop_last().len() && s.drop_last()[i] == c;
                assert(s[i] == c);
            }
            if s.last() == c {
                assert(s[s.len() - 1] == c);
            }
        }
        let rest = spec_dedup(s.drop_last());
        if !rest.contains(s.last()) {
            assert(rest.push(s.last()).contains(c) <==> rest.contains(c) || s.last() == c) by {
                if rest.contains(c) {
                    let i = choose|i: int| 0 <= i < rest.len() && rest[i] == c;
                    assert(rest.push(s.last())[i] == c);
                }
                assert(rest.push(s.last())[rest.len() as int] == s.last());
            }
        }
    }
}

/// Dropping repeats leaves no repeats.
pub proof fn lemma_dedup_no_duplicates(s: Seq<u16>)
    ensures
        spec_dedup(s).no_duplicates(),
    decreases s.len(),
{
    if s.len() > 0 {
        lemma_dedup_no_duplicates(s.drop_last());
        let rest = spec_dedup(s.drop_last());
        if !rest.contains(s.last()) {
            let out = rest.push(s.last());
            assert forall|i: int, j: int| 0 <= i < j < out.len() implies out[i] != out[j] by {
                if j < out.len() - 1 {
                    assert(out[i] == rest[i] && out[j] == rest[j]);
                } else {
                    assert(out[j] == s.last());
                    assert(out[i] == rest[i]);
                    assert(rest.contains(rest[i]));
                }
            }
        }
    }
}

/// A key present in the previous batch and absent from the next gets a
/// synthesized release: it stands in the list the tracker hands back.
pub proof fn lemma_gap_synthesis(prev: Seq<u16>, codes: Seq<u16>, c: u16)
    requires
        prev.contains(c),
        !codes.contains(c),
    ensures
        prev.filter(absent_from(codes)).contains(c),
{
    let i = choose|i: int| 0 <= i < prev.len() && prev[i] == c;
    prev.lemma_filter_contains(absent_from(codes), i);
}

/// Remembers the scancodes of the previous batch.
pub struct BatchTracker {
    last_pressed: Vec<u16>,
}

impl BatchTracker {
    /// The scancodes the previous batch carried, first occurrences in order.
    pub closed spec fn pressed(self) -> Seq<u16> {
        self.last_pressed@
    }

    /// The remembered list never repeats a code.
    pub open spec fn wf(self) -> bool {
        self.pressed().no_duplicates()
    }

    /// A fresh tracker: nothing was pressed before.
    pub fn new() -> (r: BatchTracker)
        ensures
            r.pressed() == Seq::<u16>::empty(),
            r.wf(),
    {
        BatchTracker { last_pressed: Vec::new() }
    }

    /// Take the next batch: hand back every code pressed before but absent
    /// now, in remembered order, and remember this batch's codes.
    pub fn advance(&mut self, batch: &Vec<ReadKey>) -> (missing: Vec<u16>)
        ensures
            missing@ == old(self).pressed().filter(absent_from(spec_codes(batch@))),
            final(self).pressed() == spec_dedup(spec_codes(batch@)),
            final(self).wf(),
    {
        let ghost codes = spec_codes(batch@);
        let mut pressed: Vec<u16> = Vec::new();
        let mut i: usize = 0;
        proof {
            assert(codes.take(0) =~= Seq::<u16>::empty());
        }
        while i < batch.len()
            invariant
                i <= batch.len(),
                codes == spec_codes(batch@),
                codes.len() == batch@.len(),
                pressed@ == spec_dedup(codes.take(i as int)),
            decreases batch.len() - i,
        {
            let c = batch[i].code;
            proof {
                let t1 = codes.take(i as int + 1);
                assert(t1.drop_last() =~= codes.take(i as int));
                assert(t1.last() == codes[i as int]);
                assert(codes[i as int] == batch@[i as int].code);
            }
            if !contains_code(&pressed, c) {
                pressed.push(c);
            }
            i = i + 1;
        }
        proof {
            assert(codes.take(batch@.len() as int) =~= codes);
            lemma_dedup_no_duplicates(codes);
        }
        let mut missing: Vec<u16> = Vec::new();
        let mut j: usize = 0;
        proof {
            reveal_with_fuel(Seq::filter, 2);
            assert(self.last_pressed@.take(0) =~= Seq::<u16>::empty());
            assert(Seq::<u16>::empty().filter(absent_from(codes)) =~= Seq::<u16>::empty());
        }
        while j < self.last_pressed.len()
            invariant
                j <= self.last_pressed.len(),
                codes == spec_codes(batch@),
                pressed@ == spec_dedup(codes),
                missing@ == self.last_pressed@.take(j as int).filter(absent_from(codes)),
            decreases self.last_pressed.len() - j,
        {
            let c = self.last_pressed[j];
            let present = contains_code(&pressed, c);
            proof {
                reveal(Seq::filter);
                lemma_dedup_contains(codes, c);
                let t1 = self.last_pressed@.take(j as int + 1);
                assert(t1.drop_last() =~= self.last_pressed@.take(j as int));
                assert(t1.last() == self.last_pressed@[j as int]);
            }
            if !present {
                missing.push(c);
            }
            j = j + 1;
        }
        proof {
            assert(self.last_pressed@.take(self.last_pressed@.len() as int)
                =~= self.last_pressed@);
        }
        self.last_pressed = pressed;
        missing
    }
}

/// Whether the list holds the code.
fn contains_code(v: &Vec<u16>, c: u16) -> (r: bool)
    ensures
        r == v@.contains(c),
{
    let mut i: usize = 0;
    while i < v.len()
        invariant
            i <= v.len(),
            forall|k: int| 0 <= k < i ==> v@[k] != c,
        decreases v.len() - i,
    {
        if v[i] == c {
            assert(v@[i as int] == c);
            return true;
        }
        i = i + 1;
    }
    false
}

} // verus!
