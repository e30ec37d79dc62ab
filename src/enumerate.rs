use vstd::prelude::*;

use crate::event::Message;

verus! {

/// Size of the first batch of entries sent while listing a directory.
pub const FIRST_BATCH: usize = 100;

/// Largest batch size; batches double up to it.
pub const MAX_BATCH: usize = 6400;

/// Size of batch number `i`: 100, doubling each time, at most 6400.
pub open spec fn batch_limit(i: nat) -> nat
    decreases i,
{
    if i == 0 {
        FIRST_BATCH as nat
    } else {
        let p = batch_limit((i - 1) as nat);
        if 2 * p > MAX_BATCH {
            MAX_BATCH as nat
        } else {
            2 * p
        }
    }
}

/// The batches one after another.
pub open spec fn joined(bs: Seq<Seq<Seq<char>>>) -> Seq<Seq<char>>
    decreases bs.len(),
{
    if bs.len() == 0 {
        Seq::empty()
    } else {
        joined(bs.drop_last()) + bs.last()
    }
}

pub open spec fn strings(v: Seq<String>) -> Seq<Seq<char>> {
    v.map_values(|s: String| s@)
}

/// Collects directory entries into growing batches.
pub struct EnumerationBatcher {
    pub pending: Vec<String>,
    pub threshold: usize,
    pub flushed: Ghost<Seq<Seq<Seq<char>>>>,
}

impl EnumerationBatcher {
    pub open spec fn wf(&self) -> bool {
        &&& self.threshold == batch_limit(self.flushed@.len())
        &&& self.threshold <= MAX_BATCH
        &&& self.pending@.len() < self.threshold
        &&& forall|i: int| 0 <= i < self.flushed@.len() ==> (#[trigger] self.flushed@[i]).len() == batch_limit(i as nat)
    }

    /// Every entry pushed so far, in order: the flushed batches, then what waits.
    pub open spec fn seen(&self) -> Seq<Seq<char>> {
        joined(self.flushed@) + strings(self.pending@)
    }

    pub fn new() -> (r: EnumerationBatcher)
        ensures
            r.wf(),
            r.seen().len() == 0,
            r.flushed@.len() == 0,
    {
        let r = EnumerationBatcher { pending: Vec::new(), threshold: FIRST_BATCH, flushed: Ghost(Seq::empty()) };
        assert(r.seen() =~= Seq::<Seq<char>>::empty());
        r
    }

    /// Adds one entry. When the waiting entries reach the current batch size
    /// they come back as one batch, and the next batch size doubles, up to
    /// the largest.
    pub fn push(&mut self, entry: String) -> (r: Option<Vec<String>>)
        requires
            old(self).wf(),
        ensures
            final(self).wf(),
            final(self).seen() == old(self).seen().push(entry@),
            match r {
                Some(b) => {
                    &&& strings(b@) == strings(old(self).pending@).push(entry@)
                    &&& b@.len() == batch_limit(old(self).flushed@.len())
                    &&& final(self).flushed@ == old(self).flushed@.push(strings(b@))
                    &&& final(self).pending@.len() == 0
                },
                None => final(self).flushed@ == old(self).flushed@ && strings(final(self).pending@)
                    == strings(old(self).pending@).push(entry@),
            },
    {
        let ghost e = entry@;
        self.pending.push(entry);
        proof {
            assert(strings(self.pending@) =~= strings(old(self).pending@).push(e));
        }
        if self.pending.len() >= self.threshold {
            let mut batch: Vec<String> = Vec::new();
            std::mem::swap(&mut batch, &mut self.pending);
            let ghost before = self.flushed@;
            self.flushed = Ghost(self.flushed@.push(strings(batch@)));
            self.threshold = if self.threshold * 2 > MAX_BATCH {
                MAX_BATCH
            } else {
                self.threshold * 2
            };
            proof {
                assert(self.flushed@.drop_last() =~= before);
                assert(strings(self.pending@) =~= Seq::<Seq<char>>::empty());
                assert(joined(self.flushed@) == joined(before) + strings(batch@));
                assert(self.seen() =~= joined(before) + strings(batch@));
                assert forall|i: int| 0 <= i < self.flushed@.len() implies (#[trigger] self.flushed@[i]).len() == batch_limit(i as nat) by {
                    if i < before.len() {
                        assert(self.flushed@[i] == before[i]);
                    }
                }
            }
            Some(batch)
        } else {
            proof {
                assert(self.seen() =~= old(self).seen().push(e));
            }
            None
        }
    }

    /// Ends the listing of `path`: what still waits comes back as the last
    /// batch, if anything waits, together with the one message that closes
    /// the listing.
    pub fn finish(self, path: String, selection: Option<String>) -> (r: (Option<Vec<String>>, Message))
        requires
            self.wf(),
        ensures
            match r.0 {
                Some(b) => b@.len() > 0 && strings(b@) == strings(self.pending@),
                None => self.pending@.len() == 0,
            },
            r.1 matches Message::EnumerationFinished(p, s) && p == path && s == selection,
    {
        let done = Message::EnumerationFinished(path, selection);
        if self.pending.len() == 0 {
            (None, done)
        } else {
            (Some(self.pending), done)
        }
    }
}

/// Batches as sequences of paths.
pub open spec fn batch_views(bs: Seq<Vec<String>>) -> Seq<Seq<Seq<char>>> {
    bs.map_values(|b: Vec<String>| strings(b@))
}

/// The batches in which a directory with `entries` is reported: taken
/// together they are the entries, once each and in order; batch `i` holds
/// exactly 100 times 2 to the `i` entries, at most 6400, except the last,
/// which holds at least one entry and at most that many.
pub fn enumerate_batches(entries: &Vec<String>) -> (r: Vec<Vec<String>>)
    ensures
        joined(batch_views(r@)) == strings(entries@),
        forall|i: int| 0 <= i < r@.len() - 1 ==> (#[trigger] r@[i])@.len() == batch_limit(i as nat),
        r@.len() > 0 ==> 0 < r@.last()@.len() <= batch_limit((r@.len() - 1) as nat),
        r@.len() == 0 <==> entries@.len() == 0,
{
    let mut batcher = EnumerationBatcher::new();
    let mut out: Vec<Vec<String>> = Vec::new();
    let n = entries.len();
    let mut i: usize = 0;
    proof {
        assert(batch_views(out@) =~= batcher.flushed@);
        assert(strings(entries@.take(0)) =~= batcher.seen());
    }
    while i < n
        invariant
            n == entries@.len(),
            i <= n,
            batcher.wf(),
            batcher.seen() == strings(entries@.take(i as int)),
            batch_views(out@) == batcher.flushed@,
        decreases n - i,
    {
        let ghost before = out@;
        match batcher.push(entries[i].clone()) {
            Some(b) => {
                out.push(b);
                proof {
                    assert(batch_views(out@) =~= batch_views(before).push(strings(b@)));
                }
            },
            None => {},
        }
        proof {
            assert(strings(entries@.take(i + 1)) =~= strings(entries@.take(i as int)).push(entries@[i as int]@));
        }
        i = i + 1;
    }
    let ghost flushed = batcher.flushed@;
    let ghost pending = strings(batcher.pending@);
    let ghost full = out@;
    proof {
        assert(entries@.take(n as int) =~= entries@);
        assert forall|j: int| 0 <= j < full.len() implies (#[trigger] full[j])@.len() == batch_limit(j as nat) by {
            assert(batch_views(full)[j] == strings(full[j]@));
            assert(flushed[j].len() == batch_limit(j as nat));
        }
    }
    match batcher.finish(String::new(), None).0 {
        Some(b) => {
            out.push(b);
            proof {
                assert(batch_views(out@) =~= batch_views(full).push(strings(b@)));
                assert(batch_views(out@).drop_last() =~= flushed);
                assert(out@.last() == b);
                assert(forall|j: int| 0 <= j < full.len() ==> out@[j] == full[j]);
            }
        },
        None => {
            proof {
                assert(pending =~= Seq::<Seq<char>>::empty());
                assert(joined(flushed) + pending =~= joined(flushed));
                if full.len() > 0 {
                    assert(flushed.len() > 0);
                }
            }
        },
    }
    out
}

proof fn lemma_limit_positive(i: nat)
    ensures
        batch_limit(i) >= FIRST_BATCH,
    decreases i,
{
    if i > 0 {
        lemma_limit_positive((i - 1) as nat);
    }
}

/// The paths a message announces.
pub open spec fn payload(m: Message) -> Seq<Seq<char>> {
    match m {
        Message::PathsAdded(b) => strings(b@),
        _ => Seq::empty(),
    }
}

/// The messages that report a listing of `path` with `entries`: a
/// `PathsAdded` for each batch, in order, then exactly one
/// `EnumerationFinished`, last; an empty directory gives that one only.
pub fn enumeration_messages(path: String, selection: Option<String>, entries: &Vec<String>) -> (r: Vec<Message>)
    ensures
        r@.len() >= 1,
        r@.last() matches Message::EnumerationFinished(p, s) && p == path && s == selection,
        forall|i: int| 0 <= i < r@.len() - 1 ==> (#[trigger] r@[i] matches Message::PathsAdded(b) && 0
            < b@.len() <= batch_limit(i as nat) && (i < r@.len() - 2 ==> b@.len() == batch_limit(i as nat))),
        joined(r@.drop_last().map_values(|m: Message| payload(m))) == strings(entries@),
        entries@.len() == 0 ==> r@.len() == 1,
{
    let mut batches = enumerate_batches(entries);
    let ghost all = batches@;
    let nb = batches.len();
    let mut out: Vec<Message> = Vec::new();
    let mut i: usize = 0;
    while i < nb
        invariant
            nb == all.len(),
            batches@.len() == nb,
            forall|j: int| i <= j < nb ==> batches@[j] == all[j],
            i <= nb,
            out@.len() == i,
            forall|j: int| 0 <= j < i ==> (#[trigger] out@[j] matches Message::PathsAdded(b) && b@ == all[j]@),
        decreases nb - i,
    {
        let mut b: Vec<String> = Vec::new();
        std::mem::swap(&mut b, &mut batches[i]);
        out.push(Message::PathsAdded(b));
        i = i + 1;
    }
    let ghost body = out@;
    out.push(Message::EnumerationFinished(path, selection));
    proof {
        assert(out@.drop_last() =~= body);
        assert(body.map_values(|m: Message| payload(m)) =~= batch_views(all)) by {
            assert forall|j: int| 0 <= j < body.len() implies body.map_values(|m: Message| payload(m))[j]
                == batch_views(all)[j] by {
                assert(body[j] matches Message::PathsAdded(b) && b@ == all[j]@);
            }
        }
        assert forall|j: int| 0 <= j < out@.len() - 1 implies (#[trigger] out@[j] matches Message::PathsAdded(b)
            && 0 < b@.len() <= batch_limit(j as nat) && (j < out@.len() - 2 ==> b@.len() == batch_limit(j as nat))) by {
            assert(out@[j] == body[j]);
            assert(body[j] matches Message::PathsAdded(b) && b@ == all[j]@);
            if j < all.len() - 1 {
                assert((all[j])@.len() == batch_limit(j as nat));
            } else {
                assert(all.last() == all[j]);
            }
            lemma_limit_positive(j as nat);
        }
    }
    out
}

} // verus!
