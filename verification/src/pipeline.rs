//! One step of the pipeline's consumer loop.
//!
//! The consumer feeds each merged batch to the watcher reading by reading,
//! collects the fired keystrokes, and then — because a report only lists
//! currently-pressed keys — synthesizes a zero-value reading for every key
//! the previous batch held and this one dropped, and feeds those too.

use vstd::prelude::*;

use crate::batch::BatchTracker;
use crate::batch::absent_from;
use crate::batch::spec_codes;
use crate::batch::spec_dedup;
use crate::report::ReadKey;
use crate::watcher::KeyEvent;
use crate::watcher::KeyWatcher;
use crate::watcher::spec_feed;
use crate::watcher::spec_feed_events;
use crate::watcher::spec_feed_seq;

verus! {

/// The synthesized releases of one batch step: a zero-value reading stamped
/// `now_us` for every key of `prev` that `codes` no longer lists, in
/// remembered order.
pub open spec fn spec_releases(prev: Seq<u16>, codes: Seq<u16>, now_us: u64) -> Seq<ReadKey> {
    prev.filter(absent_from(codes)).map_values(
        |c: u16| ReadKey { code: c, value: 0, ts_us: now_us },
    )
}

/// Everything one batch step feeds the watcher: the batch's readings, then
/// the synthesized releases.
pub open spec fn spec_batch_input(prev: Seq<u16>, batch: Seq<ReadKey>, now_us: u64) -> Seq<
    ReadKey,
> {
    batch + spec_releases(prev, spec_codes(batch), now_us)
}

/// Feed one merged batch and its synthesized releases to the watcher, and
/// hand back the keystrokes that fired, in firing order.
pub fn process_batch(
    watcher: &mut KeyWatcher,
    tracker: &mut BatchTracker,
    batch: &Vec<ReadKey>,
    now_us: u64,
) -> (fired: Vec<KeyEvent>)
    ensures
        ({
            let fed = spec_batch_input(old(tracker).pressed(), batch@, now_us);
            &&& final(watcher).state_map() == spec_feed_seq(old(watcher).state_map(), fed)
            &&& fired@ == spec_feed_events(old(watcher).state_map(), fed)
            &&& final(tracker).pressed() == spec_dedup(spec_codes(batch@))
            &&& final(tracker).wf()
        }),
{
    let ghost m0 = old(watcher).state_map();
    let ghost prev0 = old(tracker).pressed();
    let ghost fed = spec_batch_input(prev0, batch@, now_us);
    let ghost rel = spec_releases(prev0, spec_codes(batch@), now_us);
    let mut fired: Vec<KeyEvent> = Vec::new();
    let mut i: usize = 0;
    proof {
        assert(fed.skip(0) =~= fed);
        assert(fired@ + spec_feed_events(watcher.state_map(), fed) =~= spec_feed_events(
            watcher.state_map(),
            fed,
        ));
    }
    while i < batch.len()
        invariant
            i <= batch.len(),
            fed == spec_batch_input(prev0, batch@, now_us),
            rel == spec_releases(prev0, spec_codes(batch@), now_us),
            fed.len() == batch@.len() + rel.len(),
            spec_feed_seq(m0, fed) == spec_feed_seq(watcher.state_map(), fed.skip(i as int)),
            spec_feed_events(m0, fed) == fired@ + spec_feed_events(
                watcher.state_map(),
                fed.skip(i as int),
            ),
        decreases batch.len() - i,
    {
        let r = batch[i];
        let ghost cur = watcher.state_map();
        proof {
            let rem = fed.skip(i as int);
            assert(rem[0] == fed[i as int]);
            assert(fed[i as int] == batch@[i as int]);
            assert(rem.drop_first() =~= fed.skip(i as int + 1));
        }
        let ev = watcher.take_input(&r);
        proof {
            assert(watcher.state_map() =~= spec_feed(cur, r));
        }
        match ev {
            Some(e) => {
                fired.push(e);
                proof {
                    assert(fired@.drop_last() + seq![e] + spec_feed_events(
                        watcher.state_map(),
                        fed.skip(i as int + 1),
                    ) =~= fired@.drop_last() + (seq![e] + spec_feed_events(
                        watcher.state_map(),
                        fed.skip(i as int + 1),
                    )));
                    assert(fired@ =~= fired@.drop_last() + seq![e]);
                }
            },
            None => {
                proof {
                    assert(Seq::<KeyEvent>::empty() + spec_feed_events(
                        watcher.state_map(),
                        fed.skip(i as int + 1),
                    ) =~= spec_feed_events(watcher.state_map(), fed.skip(i as int + 1)));
                }
            },
        }
        i = i + 1;
    }
    let missing = tracker.advance(batch);
    proof {
        assert(missing@ == prev0.filter(absent_from(spec_codes(batch@))));
        assert(rel.len() == missing@.len());
    }
    let mut j: usize = 0;
    while j < missing.len()
        invariant
            j <= missing.len(),
            fed == spec_batch_input(prev0, batch@, now_us),
            rel == spec_releases(prev0, spec_codes(batch@), now_us),
            missing@ == prev0.filter(absent_from(spec_codes(batch@))),
            fed.len() == batch@.len() + missing@.len(),
            spec_feed_seq(m0, fed) == spec_feed_seq(
                watcher.state_map(),
                fed.skip(batch@.len() + j as int),
            ),
            spec_feed_events(m0, fed) == fired@ + spec_feed_events(
                watcher.state_map(),
                fed.skip(batch@.len() + j as int),
            ),
        decreases missing.len() - j,
    {
        let code = missing[j];
        let r = ReadKey { code, value: 0, ts_us: now_us };
        let ghost cur = watcher.state_map();
        proof {
            let rem = fed.skip(batch@.len() + j as int);
            assert(rem[0] == fed[batch@.len() + j as int]);
            assert(fed[batch@.len() + j as int] == rel[j as int]);
            assert(rel[j as int] == r);
            assert(rem.drop_first() =~= fed.skip(batch@.len() + j as int + 1));
        }
        let ev = watcher.take_input(&r);
        proof {
            assert(watcher.state_map() =~= spec_feed(cur, r));
        }
        match ev {
            Some(e) => {
                fired.push(e);
                proof {
                    assert(fired@.drop_last() + seq![e] + spec_feed_events(
                        watcher.state_map(),
                        fed.skip(batch@.len() + j as int + 1),
                    ) =~= fired@.drop_last() + (seq![e] + spec_feed_events(
                        watcher.state_map(),
                        fed.skip(batch@.len() + j as int + 1),
                    )));
                    assert(fired@ =~= fired@.drop_last() + seq![e]);
                }
            },
            None => {
                proof {
                    assert(Seq::<KeyEvent>::empty() + spec_feed_events(
                        watcher.state_map(),
                        fed.skip(batch@.len() + j as int + 1),
                    ) =~= spec_feed_events(
                        watcher.state_map(),
                        fed.skip(batch@.len() + j as int + 1),
                    ));
                }
            },
        }
        j = j + 1;
    }
    proof {
        assert(fed.skip(fed.len() as int).len() == 0);
        assert(fired@ + Seq::<KeyEvent>::empty() =~= fired@);
    }
    fired
}

} // verus!
