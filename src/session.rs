use vstd::prelude::*;
use crate::entry::Entry;
use crate::review::{is_over, next_aliases, next_count, next_turn, Mode, Reply, Turn};

verus! {

/// A review pass over a word list: the entries are taken one after another in
/// file order, each for one turn, skipping those whose count has reached the
/// mastery threshold.
pub struct Session {
    entries: Vec<Entry>,
    mode: Mode,
    skip_cnt: u32,
    index: usize,
    turn: Turn,
    start: Ghost<Seq<Entry>>,
}

/// Two entries stand for the same row.
pub open spec fn same_row(a: Entry, b: Entry) -> bool {
    a.en == b.en && a.zh == b.zh && a.meta_str == b.meta_str
}

impl Session {
    /// The entries as they stood when the session began.
    pub closed spec fn start(&self) -> Seq<Entry> {
        self.start@
    }

    /// The entries as they stand now.
    pub closed spec fn entries_view(&self) -> Seq<Entry> {
        self.entries@
    }

    /// The entry whose turn it is, or the number of entries once all are done.
    pub closed spec fn index_view(&self) -> int {
        self.index as int
    }

    /// The current entry's turn.
    pub closed spec fn turn_view(&self) -> Turn {
        self.turn
    }

    /// The mastery threshold.
    pub closed spec fn skip_view(&self) -> u32 {
        self.skip_cnt
    }

    /// The direction of the questions.
    pub closed spec fn mode_view(&self) -> Mode {
        self.mode
    }

    /// The session's invariant. Rows are neither reordered nor changed, only
    /// their statistics; counts never go down; an entry whose count had
    /// reached the threshold at the start keeps its statistics; the entries
    /// after the current one are as they were; the current one is due and its
    /// turn is not over.
    pub closed spec fn wf(&self) -> bool {
        let s = self.start@;
        let e = self.entries@;
        &&& e.len() == s.len()
        &&& self.index <= e.len()
        &&& forall|i: int|
            0 <= i < e.len() ==> {
                &&& same_row(#[trigger] e[i], s[i])
                &&& e[i].meta.wf()
                &&& e[i].meta.cnt >= s[i].meta.cnt
                &&& (s[i].meta.cnt >= self.skip_cnt ==> e[i].meta == s[i].meta)
                &&& (i > self.index ==> e[i] == s[i])
            }
        &&& self.index < e.len() ==> s[self.index as int].meta.cnt < self.skip_cnt && !is_over(
            self.turn,
        )
    }

    /// The first entry from `from` on that is due.
    fn next_due(entries: &Vec<Entry>, from: usize, skip_cnt: u32) -> (r: usize)
        requires
            from <= entries@.len(),
        ensures
            from <= r <= entries@.len(),
            forall|j: int| from <= j < r ==> !(#[trigger] entries@[j]).is_due(skip_cnt),
            r < entries@.len() ==> entries@[r as int].is_due(skip_cnt),
    {
        let mut i = from;
        while i < entries.len() && entries[i].meta.cnt >= skip_cnt
            invariant
                from <= i <= entries@.len(),
                forall|j: int| from <= j < i ==> !(#[trigger] entries@[j]).is_due(skip_cnt),
            decreases entries@.len() - i,
        {
            i = i + 1;
        }
        i
    }

    /// Begins a session over `entries` in the given direction with mastery
    /// threshold `skip_cnt`; the first due entry's question comes first.
    pub fn new(entries: Vec<Entry>, mode: Mode, skip_cnt: u32) -> (r: Session)
        requires
            forall|i: int| 0 <= i < entries@.len() ==> (#[trigger] entries@[i]).meta.wf(),
        ensures
            r.wf(),
            r.start() == entries@,
            r.entries_view() == entries@,
            r.mode_view() == mode,
            r.skip_view() == skip_cnt,
            0 <= r.index_view() <= entries@.len(),
            forall|j: int| 0 <= j < r.index_view() ==> !(#[trigger] entries@[j]).is_due(skip_cnt),
            r.index_view() < entries@.len() ==> entries@[r.index_view()].is_due(skip_cnt),
            r.index_view() < entries@.len() ==> r.turn_view() == Turn::Question,
    {
        let index = Self::next_due(&entries, 0, skip_cnt);
        let ghost start = entries@;
        Session { entries, mode, skip_cnt, index, turn: Turn::Question, start: Ghost(start) }
    }

    /// The index of the entry whose turn it is, or `None` once the pass is
    /// over.
    pub fn current(&self) -> (r: Option<usize>)
        ensures
            r is Some <==> self.index_view() < self.entries_view().len(),
            r is Some ==> r->0 == self.index_view(),
    {
        if self.index < self.entries.len() {
            Some(self.index)
        } else {
            None
        }
    }

    /// The current entry's turn.
    pub fn turn(&self) -> (r: Turn)
        ensures
            r == self.turn_view(),
    {
        self.turn
    }

    /// The direction of the questions.
    pub fn mode(&self) -> (r: Mode)
        ensures
            r == self.mode_view(),
    {
        self.mode
    }

    /// The entries as they stand now.
    pub fn entries(&self) -> (r: &Vec<Entry>)
        ensures
            r@ == self.entries_view(),
    {
        &self.entries
    }

    /// Takes the user's reply for the current entry, as `Entry::prompt` does,
    /// and returns the turn it leads to. When that turn is over the session
    /// moves on to the next due entry in file order. Once the pass is over a
    /// reply changes nothing.
    pub fn reply(&mut self, reply: Reply) -> (r: Turn)
        requires
            old(self).wf(),
        ensures
            final(self).wf(),
            final(self).start() == old(self).start(),
            final(self).skip_view() == old(self).skip_view(),
            final(self).mode_view() == old(self).mode_view(),
            old(self).index_view() <= final(self).index_view() <= final(self).entries_view().len(),
            final(self).entries_view().len() == old(self).entries_view().len(),
            old(self).index_view() == old(self).entries_view().len() ==> *final(self)
                == *old(self),
            old(self).index_view() < old(self).entries_view().len() ==> ({
                let i = old(self).index_view();
                let before = old(self).entries_view()[i];
                let after = final(self).entries_view()[i];
                &&& r == next_turn(old(self).turn_view(), reply)
                &&& final(self).entries_view() == old(self).entries_view().update(i, after)
                &&& after.meta.cnt == next_count(before.meta.cnt, old(self).turn_view(), reply)
                &&& after.meta.alias_set() == next_aliases(
                    before.meta.alias_set(),
                    old(self).turn_view(),
                    reply,
                )
                &&& (!is_over(r) ==> final(self).index_view() == i && final(self).turn_view() == r)
                &&& (is_over(r) ==> final(self).index_view() > i && forall|j: int|
                    i < j < final(self).index_view() ==> !(
                    #[trigger] old(self).entries_view()[j]).is_due(old(self).skip_view()))
                &&& (is_over(r) && final(self).index_view() < old(self).entries_view().len()
                    ==> old(self).entries_view()[final(self).index_view()].is_due(
                    old(self).skip_view(),
                ) && final(self).turn_view() == Turn::Question)
            }),
    {
        if self.index >= self.entries.len() {
            return Turn::Closed;
        }
        let ghost old_entries = self.entries@;
        let i = self.index;
        let mut e = self.entries.remove(i);
        let t = e.prompt(self.turn, reply);
        self.entries.insert(i, e);
        assert(self.entries@ =~= old_entries.update(i as int, e));
        if t.over() {
            let next = Self::next_due(&self.entries, i + 1, self.skip_cnt);
            self.index = next;
            self.turn = Turn::Question;
            assert forall|j: int| i < j < next implies !(#[trigger] old_entries[j]).is_due(
                self.skip_cnt,
            ) by {
                assert(self.entries@[j] == old_entries[j]);
            }
        } else {
            self.turn = t;
        }
        t
    }

    /// Ends the session and hands the entries back.
    pub fn into_entries(self) -> (r: Vec<Entry>)
        requires
            self.wf(),
        ensures
            r@ == self.entries_view(),
    {
        self.entries
    }
}

/// What a session keeps true at every step: each row stays where it was with
/// its terms, counts only grow, and an entry whose count had reached the
/// threshold when the session began keeps its statistics unchanged.
pub proof fn lemma_session_laws(s: Session)
    requires
        s.wf(),
    ensures
        s.entries_view().len() == s.start().len(),
        forall|i: int|
            0 <= i < s.start().len() ==> {
                &&& same_row(#[trigger] s.entries_view()[i], s.start()[i])
                &&& s.entries_view()[i].meta.cnt >= s.start()[i].meta.cnt
                &&& (s.start()[i].meta.cnt >= s.skip_view() ==> s.entries_view()[i].meta
                    == s.start()[i].meta)
            },
{
}

} // verus!
