use vstd::prelude::*;

verus! {

/// The navigation engine: a two-stack cursor over an immutable deck.
///
/// Slides are addressed by their index in the deck. `forward` holds the
/// slides not yet shown, next on top (at the end); `backward` holds the
/// slides already left behind, most recent on top; `current` is the slide
/// on screen, if any; `position` is its 1-based ordinal (0 before the first
/// advance).
pub struct NavState {
    pub forward: Vec<usize>,
    pub backward: Vec<usize>,
    pub current: Option<usize>,
    pub position: usize,
    pub total: usize,
}

/// The mathematical image of a `NavState`.
pub ghost struct NavModel {
    pub forward: Seq<int>,
    pub backward: Seq<int>,
    pub current: Option<int>,
    pub position: int,
    pub total: int,
}

impl View for NavState {
    type V = NavModel;

    open spec fn view(&self) -> NavModel {
        NavModel {
            forward: self.forward@.map_values(|v: usize| v as int),
            backward: self.backward@.map_values(|v: usize| v as int),
            current: match self.current {
                Some(i) => Some(i as int),
                None => None,
            },
            position: self.position as int,
            total: self.total as int,
        }
    }
}

/// The slide on screen, as a sequence: empty before the first advance.
pub open spec fn current_seq(m: NavModel) -> Seq<int> {
    match m.current {
        Some(i) => seq![i],
        None => Seq::empty(),
    }
}

/// The deck order as the navigation state remembers it: the slides left
/// behind (oldest first), then the one on screen, then the ones still to
/// come (next first).
pub open spec fn nav_trace(m: NavModel) -> Seq<int> {
    m.backward + current_seq(m) + m.forward.reverse()
}

/// Replay consistency: the trace reconstructs the original deck order
/// exactly, the position counts the slides shown so far, and the cursor is
/// unset only before anything was shown.
pub open spec fn nav_wf(m: NavModel) -> bool {
    &&& m.total >= 0
    &&& nav_trace(m) == Seq::new(m.total as nat, |k: int| k)
    &&& m.position == m.backward.len() + current_seq(m).len()
    &&& (m.current is None ==> m.backward.len() == 0)
}

/// The freshly built navigation state for a deck of `total` slides:
/// nothing shown yet, the whole deck ahead.
pub open spec fn init_nav(total: int) -> NavModel {
    NavModel {
        forward: Seq::new(total as nat, |k: int| total - 1 - k),
        backward: Seq::empty(),
        current: None,
        position: 0,
        total,
    }
}

/// One Advance transition: pop the next slide into the cursor, remember
/// the old cursor; a no-op when nothing is ahead.
pub open spec fn advance_model(m: NavModel) -> NavModel {
    if m.forward.len() == 0 {
        m
    } else {
        NavModel {
            forward: m.forward.drop_last(),
            backward: m.backward + current_seq(m),
            current: Some(m.forward.last()),
            position: m.position + 1,
            total: m.total,
        }
    }
}

/// One Retreat transition: pop the most recent previous slide into the
/// cursor, give the old cursor back to the forward stack; a no-op when
/// nothing was left behind.
pub open spec fn retreat_model(m: NavModel) -> NavModel {
    if m.backward.len() == 0 {
        m
    } else {
        NavModel {
            forward: m.forward + current_seq(m),
            backward: m.backward.drop_last(),
            current: Some(m.backward.last()),
            position: m.position - 1,
            total: m.total,
        }
    }
}

impl NavState {
    /// Sets up navigation over a deck of `total` slides, nothing shown yet.
    pub fn new(total: usize) -> (s: NavState)
        ensures
            s@ == init_nav(total as int),
            nav_wf(s@),
    {
        let mut forward: Vec<usize> = Vec::new();
        let mut k: usize = 0;
        while k < total
            invariant
                k <= total,
                forward@.len() == k,
                forall|j: int|
                    0 <= j < k ==> #[trigger] forward@[j] as int == total - 1 - j,
            decreases total - k,
        {
            forward.push(total - 1 - k);
            k = k + 1;
        }
        let s = NavState { forward, backward: Vec::new(), current: None, position: 0, total };
        proof {
            assert(s@.forward =~= init_nav(total as int).forward);
            assert(s@.backward =~= Seq::<int>::empty());
            assert(s@ == init_nav(total as int));
            assert(s@.forward.reverse() =~= Seq::new(total as nat, |k: int| k));
            assert(nav_trace(s@) =~= Seq::new(total as nat, |k: int| k));
        }
        s
    }

    /// The index of the slide on screen, if any.
    pub fn current(&self) -> (c: Option<usize>)
        ensures
            c == self.current,
            self@.current == (match c {
                Some(i) => Some(i as int),
                None => None::<int>,
            }),
    {
        self.current
    }

    /// The 1-based ordinal of the slide on screen; 0 before the first
    /// advance.
    pub fn position(&self) -> (p: usize)
        ensures
            p as int == self@.position,
    {
        self.position
    }

    /// The deck length this cursor was built for.
    pub fn total(&self) -> (t: usize)
        ensures
            t as int == self@.total,
    {
        self.total
    }

    /// Steps to the next slide; reports whether the cursor moved (it does
    /// not at the end of the deck).
    pub fn advance(&mut self) -> (changed: bool)
        requires
            nav_wf(old(self)@),
        ensures
            final(self)@ == advance_model(old(self)@),
            nav_wf(final(self)@),
            changed == (old(self)@.forward.len() > 0),
    {
        proof {
            lemma_nav_counts(old(self)@);
            lemma_advance_preserves_wf(old(self)@);
        }
        match self.forward.pop() {
            None => false,
            Some(next) => {
                match self.current {
                    Some(c) => {
                        self.backward.push(c);
                    },
                    None => {},
                }
                self.current = Some(next);
                self.position = self.position + 1;
                proof {
                    assert(self@.forward =~= old(self)@.forward.drop_last());
                    assert(self@.backward =~= old(self)@.backward + current_seq(old(self)@));
                }
                true
            },
        }
    }

    /// Steps back to the most recently shown slide; reports whether the
    /// cursor moved (it does not when no slide was left behind).
    pub fn retreat(&mut self) -> (changed: bool)
        requires
            nav_wf(old(self)@),
        ensures
            final(self)@ == retreat_model(old(self)@),
            nav_wf(final(self)@),
            changed == (old(self)@.backward.len() > 0),
    {
        proof {
            lemma_nav_counts(old(self)@);
            lemma_retreat_preserves_wf(old(self)@);
        }
        match self.backward.pop() {
            None => false,
            Some(prev) => {
                match self.current {
                    Some(c) => {
                        self.forward.push(c);
                    },
                    None => {},
                }
                self.current = Some(prev);
                self.position = self.position - 1;
                proof {
                    assert(self@.backward =~= old(self)@.backward.drop_last());
                    assert(self@.forward =~= old(self)@.forward + current_seq(old(self)@));
                }
                true
            },
        }
    }
}

/// In a replay-consistent state the stacks and the cursor account for the
/// whole deck, and the position never runs past either end.
pub proof fn lemma_nav_counts(m: NavModel)
    requires
        nav_wf(m),
    ensures
        m.backward.len() + current_seq(m).len() + m.forward.len() == m.total,
        0 <= m.position <= m.total,
        m.forward.len() > 0 ==> m.position < m.total,
        m.backward.len() > 0 ==> m.position >= 2,
{
    assert(nav_trace(m).len() == m.total);
}

/// Advancing preserves replay consistency: the trace after the step still
/// spells out the original deck order.
pub proof fn lemma_advance_preserves_wf(m: NavModel)
    requires
        nav_wf(m),
    ensures
        nav_wf(advance_model(m)),
{
    if m.forward.len() > 0 {
        let m1 = advance_model(m);
        assert(m.forward.reverse() =~= seq![m.forward.last()] + m.forward.drop_last().reverse());
        assert(nav_trace(m1) =~= nav_trace(m));
    }
}

/// Retreating preserves replay consistency.
pub proof fn lemma_retreat_preserves_wf(m: NavModel)
    requires
        nav_wf(m),
    ensures
        nav_wf(retreat_model(m)),
{
    if m.backward.len() > 0 {
        let m1 = retreat_model(m);
        assert((m.forward + current_seq(m)).reverse() =~= current_seq(m) + m.forward.reverse());
        assert(nav_trace(m1) =~= nav_trace(m));
    }
}

/// The round trip: from any state already showing a slide, Advance followed
/// by Retreat restores the state exactly — same cursor, same position, same
/// stacks. (From the initial unset state the first Advance leaves nothing
/// behind to retreat to, so that state is excluded.)
pub proof fn lemma_advance_then_retreat(m: NavModel)
    requires
        nav_wf(m),
        m.forward.len() > 0,
        m.current is Some,
    ensures
        retreat_model(advance_model(m)) == m,
{
    let m1 = advance_model(m);
    let m2 = retreat_model(m1);
    assert(m1.backward.len() > 0);
    assert(m2.forward =~= m.forward);
    assert(m2.backward =~= m.backward);
    assert(m2.current == m.current);
}

/// The retreat half of the round trip: from any state with a slide left
/// behind, Retreat followed by Advance restores the state exactly.
pub proof fn lemma_retreat_then_advance(m: NavModel)
    requires
        nav_wf(m),
        m.backward.len() > 0,
    ensures
        advance_model(retreat_model(m)) == m,
{
    let m1 = retreat_model(m);
    let m2 = advance_model(m1);
    assert(m.current is Some);
    assert(m1.forward.len() > 0);
    assert(m2.forward =~= m.forward);
    assert(m2.backward =~= m.backward);
    assert(m2.current == m.current);
}

/// One navigation action: Advance when `advance` holds, Retreat otherwise.
pub open spec fn nav_step(m: NavModel, advance: bool) -> NavModel {
    if advance {
        advance_model(m)
    } else {
        retreat_model(m)
    }
}

/// The state after a whole sequence of Advance/Retreat actions, applied in
/// order.
pub open spec fn apply_actions(m: NavModel, acts: Seq<bool>) -> NavModel
    decreases acts.len(),
{
    if acts.len() == 0 {
        m
    } else {
        apply_actions(nav_step(m, acts[0]), acts.drop_first())
    }
}

/// Replay consistency under any action sequence: starting from a
/// well-formed state, after every prefix of any sequence of Advance and
/// Retreat actions the trace — slides left behind, then the cursor, then
/// the slides ahead — still reconstructs the original deck order exactly.
pub proof fn lemma_actions_keep_wf(m: NavModel, acts: Seq<bool>)
    requires
        nav_wf(m),
    ensures
        nav_wf(apply_actions(m, acts)),
    decreases acts.len(),
{
    if acts.len() > 0 {
        if acts[0] {
            lemma_advance_preserves_wf(m);
        } else {
            lemma_retreat_preserves_wf(m);
        }
        lemma_actions_keep_wf(nav_step(m, acts[0]), acts.drop_first());
    }
}

/// No-op boundaries: Retreat with nothing shown yet (position 0, cursor
/// unset) or with nothing left behind leaves the state unchanged, and so
/// does Advance once every slide has been shown (position equal to the deck
/// length).
pub proof fn lemma_noop_boundaries(m: NavModel)
    requires
        nav_wf(m),
    ensures
        m.position == 0 ==> retreat_model(m) == m,
        m.current is None ==> retreat_model(m) == m,
        m.position == m.total ==> advance_model(m) == m,
{
    lemma_nav_counts(m);
}

} // verus!
