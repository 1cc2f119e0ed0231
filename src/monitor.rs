//! The monitor's dedupe tracker: which fetched records a poll displays, and
//! which of them are marked new.

use vstd::prelude::*;
use vstd::seq_lib::{lemma_no_dup_in_concat, seq_to_set_distributes_over_add};
use crate::text::texts;

verus! {

/// Positions in `ids` of the records a later poll displays: those whose id
/// is neither seen before nor met earlier in the same batch.
pub open spec fn fresh_positions(seen: Set<Seq<char>>, ids: Seq<Seq<char>>) -> Seq<int>
    decreases ids.len(),
{
    if ids.len() == 0 {
        Seq::empty()
    } else {
        let before = fresh_positions(seen, ids.drop_last());
        if seen.contains(ids.last()) || ids.drop_last().contains(ids.last()) {
            before
        } else {
            before.push(ids.len() - 1)
        }
    }
}

/// Positions in `ids` displayed by a poll: all of them on the first
/// successful poll, which sets the baseline; the fresh ones afterwards.
pub open spec fn poll_shows(seen: Set<Seq<char>>, first: bool, ids: Seq<Seq<char>>) -> Seq<int> {
    if first {
        Seq::new(ids.len(), |i: int| i)
    } else {
        fresh_positions(seen, ids)
    }
}

/// The ids a poll marks as new: none on the first poll, the fresh ones after.
pub open spec fn new_ids(seen: Set<Seq<char>>, first: bool, ids: Seq<Seq<char>>) -> Seq<Seq<char>> {
    if first {
        Seq::empty()
    } else {
        fresh_positions(seen, ids).map_values(|i: int| ids[i])
    }
}

/// The ids marked new over a session of polls, in order; `None` stands for
/// a failed fetch, which changes nothing.
pub open spec fn session_new(
    seen: Set<Seq<char>>,
    first: bool,
    polls: Seq<Option<Seq<Seq<char>>>>,
) -> Seq<Seq<char>>
    decreases polls.len(),
{
    if polls.len() == 0 {
        Seq::empty()
    } else {
        match polls[0] {
            None => session_new(seen, first, polls.drop_first()),
            Some(ids) => new_ids(seen, first, ids) + session_new(
                seen + ids.to_set(),
                false,
                polls.drop_first(),
            ),
        }
    }
}

/// The seen ids of a monitor session and whether its baseline is still to
/// be set.
pub struct MonitorState {
    seen: Vec<String>,
    first_run: bool,
}

impl MonitorState {
    /// The ids seen so far.
    pub closed spec fn seen_ids(&self) -> Set<Seq<char>> {
        texts(self.seen@).to_set()
    }

    /// Whether no poll has succeeded yet.
    pub closed spec fn awaiting_baseline(&self) -> bool {
        self.first_run
    }

    /// The state at monitor start: nothing seen, baseline pending.
    pub fn new() -> (r: Self)
        ensures
            r.seen_ids() == Set::<Seq<char>>::empty(),
            r.awaiting_baseline(),
    {
        let r = MonitorState { seen: Vec::new(), first_run: true };
        assert(texts(r.seen@) =~= Seq::<Seq<char>>::empty());
        r
    }

    /// Whether no poll has succeeded yet.
    pub fn is_first_run(&self) -> (r: bool)
        ensures
            r == self.awaiting_baseline(),
    {
        self.first_run
    }

    /// Whether `id` was seen.
    pub fn has_seen(&self, id: &String) -> (r: bool)
        ensures
            r == self.seen_ids().contains(id@),
    {
        let mut i: usize = 0;
        while i < self.seen.len()
            invariant
                i <= self.seen@.len(),
                forall|k: int| 0 <= k < i ==> self.seen@[k]@ != id@,
            decreases self.seen@.len() - i,
        {
            if self.seen[i] == *id {
                assert(texts(self.seen@)[i as int] == id@);
                return true;
            }
            i = i + 1;
        }
        assert forall|x: Seq<char>| texts(self.seen@).contains(x) implies x != id@ by {
            let k = choose|k: int| 0 <= k < texts(self.seen@).len() && texts(self.seen@)[k] == x;
            assert(self.seen@[k]@ == x);
        }
        false
    }

    /// Classifies one successful fetch, whose filtered records carry `ids`
    /// in fetch order: returns the positions to display and records every
    /// id as seen. A failed fetch is not classified and changes nothing.
    pub fn classify(&mut self, ids: &Vec<String>) -> (r: Vec<usize>)
        ensures
            r@.map_values(|i: usize| i as int) == poll_shows(
                old(self).seen_ids(),
                old(self).awaiting_baseline(),
                texts(ids@),
            ),
            final(self).seen_ids() == old(self).seen_ids() + texts(ids@).to_set(),
            !final(self).awaiting_baseline(),
    {
        let ghost seen0 = self.seen_ids();
        let first = self.first_run;
        let mut r: Vec<usize> = Vec::new();
        let mut i: usize = 0;
        while i < ids.len()
            invariant
                i <= ids@.len(),
                self.first_run == first,
                self.seen_ids() == seen0 + texts(ids@.take(i as int)).to_set(),
                r@.map_values(|i: usize| i as int) == poll_shows(seen0, first, texts(ids@.take(i as int))),
            decreases ids@.len() - i,
        {
            let id = &ids[i];
            let known = self.has_seen(id);
            let ghost prev = r@;
            let ghost before = texts(ids@.take(i as int));
            let ghost now = texts(ids@.take(i + 1));
            proof {
                assert(now.drop_last() =~= before);
                assert(now.last() == id@);
                assert(now =~= before.push(id@));
                before.lemma_push_to_set_commute(id@);
                seq_to_set_distributes_over_add(before, seq![id@]);
            }
            if first || !known {
                r.push(i);
                assert(r@.map_values(|i: usize| i as int) =~= prev.map_values(|i: usize| i as int).push(
                    i as int,
                ));
            }
            if !known {
                let ghost old_seen = self.seen@;
                self.seen.push(id.clone());
                proof {
                    assert(texts(self.seen@) =~= texts(old_seen).push(id@));
                    texts(old_seen).lemma_push_to_set_commute(id@);
                }
            }
            i = i + 1;
            proof {
                assert(self.seen_ids() =~= seen0 + texts(ids@.take(i as int)).to_set());
                if first {
                    assert(r@.map_values(|i: usize| i as int) =~= poll_shows(
                        seen0,
                        first,
                        texts(ids@.take(i as int)),
                    ));
                }
            }
        }
        assert(ids@.take(i as int) =~= ids@);
        self.first_run = false;
        r
    }
}

/// `p` holds increasing positions in `ids` whose ids are neither in `seen`
/// nor met earlier in `ids`.
pub open spec fn fresh_fit(seen: Set<Seq<char>>, ids: Seq<Seq<char>>, p: Seq<int>) -> bool {
    &&& forall|k: int| 0 <= k < p.len() ==> 0 <= #[trigger] p[k] < ids.len()
    &&& forall|k: int| 0 <= k < p.len() ==> !seen.contains(ids[#[trigger] p[k]])
    &&& forall|k: int, l: int| 0 <= k < l < p.len() ==> #[trigger] p[k] < #[trigger] p[l]
    &&& forall|k: int, j: int|
        0 <= k < p.len() && 0 <= j < p[k] ==> #[trigger] ids[j] != ids[#[trigger] p[k]]
}

/// The fresh positions are increasing, in range, and name ids neither seen
/// before nor met earlier in the batch.
pub proof fn lemma_fresh_positions(seen: Set<Seq<char>>, ids: Seq<Seq<char>>)
    ensures
        fresh_fit(seen, ids, fresh_positions(seen, ids)),
    decreases ids.len(),
{
    if ids.len() > 0 {
        let d = ids.drop_last();
        let pd = fresh_positions(seen, d);
        lemma_fresh_positions(seen, d);
        let x = ids.last();
        let p = fresh_positions(seen, ids);
        assert forall|i: int| 0 <= i < d.len() implies d[i] == ids[i] by {}
        if seen.contains(x) || d.contains(x) {
            assert(p == pd);
            assert forall|k: int, j: int| 0 <= k < p.len() && 0 <= j < p[k] implies #[trigger] ids[j]
                != ids[#[trigger] p[k]] by {
                assert(d[j] != d[pd[k]]);
            }
        } else {
            assert(p == pd.push(ids.len() - 1));
            assert forall|k: int, j: int| 0 <= k < p.len() && 0 <= j < p[k] implies #[trigger] ids[j]
                != ids[#[trigger] p[k]] by {
                if k < pd.len() {
                    assert(d[j] != d[pd[k]]);
                } else {
                    assert(d[j] == ids[j]);
                    if ids[j] == x {
                        assert(d.contains(x));
                    }
                }
            }
            assert forall|k: int| 0 <= k < p.len() implies !seen.contains(ids[#[trigger] p[k]]) by {
                if k < pd.len() {
                    assert(ids[pd[k]] == d[pd[k]]);
                }
            }
        }
    }
}

/// The ids a poll marks new are distinct, unseen before, and from the batch.
pub proof fn lemma_new_ids(seen: Set<Seq<char>>, first: bool, ids: Seq<Seq<char>>)
    ensures
        new_ids(seen, first, ids).no_duplicates(),
        forall|k: int|
            0 <= k < new_ids(seen, first, ids).len() ==> !seen.contains(
                #[trigger] new_ids(seen, first, ids)[k],
            ) && ids.to_set().contains(new_ids(seen, first, ids)[k]),
{
    if !first {
        lemma_fresh_positions(seen, ids);
        let p = fresh_positions(seen, ids);
        let n = new_ids(seen, first, ids);
        assert forall|k: int, l: int| 0 <= k < n.len() && 0 <= l < n.len() && k != l implies n[k]
            != n[l] by {
            if k < l {
                assert(p[k] < p[l]);
            } else {
                assert(p[l] < p[k]);
            }
        }
        assert forall|k: int| 0 <= k < n.len() implies ids.to_set().contains(n[k]) by {
            assert(ids.contains(ids[p[k]]));
        }
    }
}

/// Over a session of polls from any state, no id is marked new twice, and
/// none that was seen at the start.
pub proof fn lemma_session_new(seen: Set<Seq<char>>, first: bool, polls: Seq<Option<Seq<Seq<char>>>>)
    ensures
        session_new(seen, first, polls).no_duplicates(),
        forall|k: int|
            0 <= k < session_new(seen, first, polls).len() ==> !seen.contains(
                #[trigger] session_new(seen, first, polls)[k],
            ),
    decreases polls.len(),
{
    if polls.len() > 0 {
        match polls[0] {
            None => {
                lemma_session_new(seen, first, polls.drop_first());
            },
            Some(ids) => {
                let next = seen + ids.to_set();
                lemma_session_new(next, false, polls.drop_first());
                lemma_new_ids(seen, first, ids);
                let h = new_ids(seen, first, ids);
                let t = session_new(next, false, polls.drop_first());
                assert forall|i: int, j: int| 0 <= i < h.len() && 0 <= j < t.len() implies h[i]
                    != t[j] by {
                    assert(next.contains(h[i]));
                }
                lemma_no_dup_in_concat(h, t);
                assert forall|k: int| 0 <= k < (h + t).len() implies !seen.contains(
                    #[trigger] (h + t)[k],
                ) by {
                    if k >= h.len() {
                        assert((h + t)[k] == t[k - h.len()]);
                    }
                }
            },
        }
    }
}

/// A record id is marked new at most once over a monitor session, whatever
/// the polls fetch and whichever of them fail.
pub proof fn lemma_new_at_most_once(polls: Seq<Option<Seq<Seq<char>>>>)
    ensures
        session_new(Set::empty(), true, polls).no_duplicates(),
{
    lemma_session_new(Set::empty(), true, polls);
}

/// The first successful poll sets the baseline: it displays every filtered
/// record and marks none of them new.
pub proof fn lemma_baseline_not_new(seen: Set<Seq<char>>, ids: Seq<Seq<char>>)
    ensures
        new_ids(seen, true, ids).len() == 0,
        poll_shows(seen, true, ids) == Seq::new(ids.len(), |i: int| i),
{
}

/// The ids a poll displays, in order.
pub open spec fn shown_ids(seen: Set<Seq<char>>, first: bool, ids: Seq<Seq<char>>) -> Seq<Seq<char>> {
    poll_shows(seen, first, ids).map_values(|i: int| ids[i])
}

/// The ids displayed over a session of polls, in order.
pub open spec fn session_shown(
    seen: Set<Seq<char>>,
    first: bool,
    polls: Seq<Option<Seq<Seq<char>>>>,
) -> Seq<Seq<char>>
    decreases polls.len(),
{
    if polls.len() == 0 {
        Seq::empty()
    } else {
        match polls[0] {
            None => session_shown(seen, first, polls.drop_first()),
            Some(ids) => shown_ids(seen, first, ids) + session_shown(
                seen + ids.to_set(),
                false,
                polls.drop_first(),
            ),
        }
    }
}

/// The seen ids after a session of polls.
pub open spec fn session_seen(
    seen: Set<Seq<char>>,
    first: bool,
    polls: Seq<Option<Seq<Seq<char>>>>,
) -> Set<Seq<char>>
    decreases polls.len(),
{
    if polls.len() == 0 {
        seen
    } else {
        match polls[0] {
            None => session_seen(seen, first, polls.drop_first()),
            Some(ids) => session_seen(seen + ids.to_set(), false, polls.drop_first()),
        }
    }
}

/// Every id of a later batch is seen before or displayed by that poll.
pub proof fn lemma_fresh_covers(seen: Set<Seq<char>>, ids: Seq<Seq<char>>)
    ensures
        forall|j: int|
            0 <= j < ids.len() ==> seen.contains(#[trigger] ids[j]) || shown_ids(seen, false, ids).contains(
                ids[j],
            ),
    decreases ids.len(),
{
    if ids.len() > 0 {
        let d = ids.drop_last();
        lemma_fresh_covers(seen, d);
        lemma_fresh_positions(seen, ids);
        let p = fresh_positions(seen, ids);
        let pd = fresh_positions(seen, d);
        assert forall|j: int| 0 <= j < ids.len() implies seen.contains(#[trigger] ids[j])
            || shown_ids(seen, false, ids).contains(ids[j]) by {
            let x = ids.last();
            if j < d.len() {
                assert(d[j] == ids[j]);
                if !seen.contains(ids[j]) {
                    assert(shown_ids(seen, false, d).contains(d[j]));
                    let k = choose|k: int|
                        0 <= k < shown_ids(seen, false, d).len() && shown_ids(seen, false, d)[k] == d[j];
                    lemma_fresh_positions(seen, d);
                    assert(p[k] == pd[k]);
                    assert(shown_ids(seen, false, ids)[k] == ids[j]);
                }
            } else if !seen.contains(x) {
                if d.contains(x) {
                    let j2 = choose|j2: int| 0 <= j2 < d.len() && d[j2] == x;
                    assert(d[j2] == ids[j2]);
                    assert(shown_ids(seen, false, d).contains(d[j2]));
                    let k = choose|k: int|
                        0 <= k < shown_ids(seen, false, d).len() && shown_ids(seen, false, d)[k] == d[j2];
                    lemma_fresh_positions(seen, d);
                    assert(p[k] == pd[k]);
                    assert(shown_ids(seen, false, ids)[k] == x);
                } else {
                    assert(p.last() == ids.len() - 1);
                    assert(shown_ids(seen, false, ids)[p.len() - 1] == x);
                }
            }
        }
    }
}

/// After a poll, the seen ids are those seen before together with those the
/// poll displayed.
pub proof fn lemma_poll_seen_is_shown(seen: Set<Seq<char>>, first: bool, ids: Seq<Seq<char>>)
    ensures
        seen + ids.to_set() == seen + shown_ids(seen, first, ids).to_set(),
{
    let sh = shown_ids(seen, first, ids);
    if first {
        assert(sh =~= ids);
    } else {
        lemma_fresh_covers(seen, ids);
        lemma_fresh_positions(seen, ids);
        assert forall|x: Seq<char>| (seen + ids.to_set()).contains(x) implies (seen
            + sh.to_set()).contains(x) by {
            if ids.to_set().contains(x) && !seen.contains(x) {
                let j = choose|j: int| 0 <= j < ids.len() && ids[j] == x;
                assert(sh.contains(ids[j]));
            }
        }
        assert forall|x: Seq<char>| (seen + sh.to_set()).contains(x) implies (seen
            + ids.to_set()).contains(x) by {
            if sh.to_set().contains(x) {
                let k = choose|k: int| 0 <= k < sh.len() && sh[k] == x;
                assert(ids.contains(ids[fresh_positions(seen, ids)[k]]));
            }
        }
    }
    assert((seen + ids.to_set()) =~= (seen + sh.to_set()));
}

/// Over a session from any state, the seen ids are those seen at the start
/// together with every id displayed; they never shrink.
pub proof fn lemma_session_seen(seen: Set<Seq<char>>, first: bool, polls: Seq<Option<Seq<Seq<char>>>>)
    ensures
        session_seen(seen, first, polls) == seen + session_shown(seen, first, polls).to_set(),
        seen.subset_of(session_seen(seen, first, polls)),
    decreases polls.len(),
{
    if polls.len() > 0 {
        let rest = polls.drop_first();
        match polls[0] {
            None => {
                lemma_session_seen(seen, first, rest);
            },
            Some(ids) => {
                let next = seen + ids.to_set();
                lemma_session_seen(next, false, rest);
                lemma_poll_seen_is_shown(seen, first, ids);
                let sh = shown_ids(seen, first, ids);
                let t = session_shown(next, false, rest);
                seq_to_set_distributes_over_add(sh, t);
                assert(session_seen(seen, first, polls) =~= seen + (sh + t).to_set());
            },
        }
    }
}

/// In a monitor session the seen ids are exactly the ids displayed so far.
pub proof fn lemma_seen_is_displayed(polls: Seq<Option<Seq<Seq<char>>>>)
    ensures
        session_seen(Set::empty(), true, polls) == session_shown(Set::empty(), true, polls).to_set(),
{
    lemma_session_seen(Set::empty(), true, polls);
    assert(session_seen(Set::empty(), true, polls) =~= session_shown(Set::empty(), true, polls).to_set());
}

/// No id of the baseline batch is ever marked new, in that poll or later.
pub proof fn lemma_baseline_never_new(ids: Seq<Seq<char>>, rest: Seq<Option<Seq<Seq<char>>>>)
    ensures
        forall|k: int|
            0 <= k < session_new(Set::empty(), true, seq![Some(ids)] + rest).len() ==> !ids.contains(
                #[trigger] session_new(Set::empty(), true, seq![Some(ids)] + rest)[k],
            ),
{
    let polls = seq![Some(ids)] + rest;
    assert(polls.drop_first() =~= rest);
    let next = Set::<Seq<char>>::empty() + ids.to_set();
    lemma_session_new(next, false, rest);
    assert(new_ids(Set::empty(), true, ids) =~= Seq::<Seq<char>>::empty());
    assert(session_new(Set::empty(), true, polls) =~= session_new(next, false, rest));
    assert forall|k: int| 0 <= k < session_new(next, false, rest).len() implies !ids.contains(
        #[trigger] session_new(next, false, rest)[k],
    ) by {
        let x = session_new(next, false, rest)[k];
        if ids.contains(x) {
            assert(next.contains(x));
        }
    }
}

} // verus!
