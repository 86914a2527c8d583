use vstd::prelude::*;
use crate::entry::Entry;
use crate::meta::bumped;

verus! {

/// Which side of an entry is asked.
#[derive(Clone, Copy, Debug, PartialEq, Eq, Structural)]
pub enum Mode {
    /// The English term is asked, the Chinese one is the answer.
    E2Z,
    /// The Chinese term is asked, the English one is the answer.
    Z2E,
}

/// Where an entry's turn stands, and so what the user is asked next.
#[derive(Clone, Copy, Debug, PartialEq, Eq, Structural)]
pub enum Turn {
    /// The question is shown, with the choice `check` or `pass`.
    Question,
    /// The answer is shown, with the choice `right`, `wrong` or `add alias`.
    Judging,
    /// A new alias is asked for as free text.
    Naming,
    /// The turn is over and the answer is shown for reference.
    Revealed,
    /// The turn is over.
    Closed,
}

/// What the user answered to the last request.
#[derive(Debug)]
pub enum Reply {
    Check,
    Pass,
    Right,
    Wrong,
    AddAlias,
    Text(String),
}

/// The turn that follows `turn` on `reply`. A reply that does not answer the
/// current request leaves the turn where it is.
pub open spec fn next_turn(turn: Turn, reply: Reply) -> Turn {
    match (turn, reply) {
        (Turn::Question, Reply::Check) => Turn::Judging,
        (Turn::Question, Reply::Pass) => Turn::Revealed,
        (Turn::Judging, Reply::Right) => Turn::Closed,
        (Turn::Judging, Reply::Wrong) => Turn::Revealed,
        (Turn::Judging, Reply::AddAlias) => Turn::Naming,
        (Turn::Naming, Reply::Text(_)) => Turn::Judging,
        _ => turn,
    }
}

/// The correct count after `reply` in `turn`: one more on `right`, the same
/// otherwise.
pub open spec fn next_count(cnt: u32, turn: Turn, reply: Reply) -> u32 {
    if turn == Turn::Judging && reply is Right {
        bumped(cnt)
    } else {
        cnt
    }
}

/// The aliases after `reply` in `turn`: the typed text is recorded when an
/// alias was asked for.
pub open spec fn next_aliases(aliases: Set<Seq<char>>, turn: Turn, reply: Reply) -> Set<Seq<char>> {
    match reply {
        Reply::Text(s) => if turn == Turn::Naming { aliases.insert(s@) } else { aliases },
        _ => aliases,
    }
}

/// Whether a turn is over.
pub open spec fn is_over(turn: Turn) -> bool {
    turn == Turn::Revealed || turn == Turn::Closed
}

impl Turn {
    /// Whether the turn is over.
    pub fn over(self) -> (r: bool)
        ensures
            r == is_over(self),
    {
        match self {
            Turn::Revealed | Turn::Closed => true,
            _ => false,
        }
    }
}

impl Entry {
    /// Whether the entry is asked at all this session: an entry whose count has
    /// reached the mastery threshold `skip_cnt` is left alone.
    pub open spec fn is_due(&self, skip_cnt: u32) -> bool {
        self.meta.cnt < skip_cnt
    }

    /// The turn an entry starts in: `Question` when it is due, else `Closed`,
    /// so that nothing is asked.
    pub fn begin(&self, skip_cnt: u32) -> (r: Turn)
        ensures
            r == if self.is_due(skip_cnt) { Turn::Question } else { Turn::Closed },
    {
        if self.meta.cnt >= skip_cnt {
            Turn::Closed
        } else {
            Turn::Question
        }
    }

    /// The question and the answer of the entry in the given mode.
    pub fn question_answer(&self, mode: Mode) -> (r: (String, String))
        ensures
            mode == Mode::E2Z ==> r.0@ == self.en@ && r.1@ == self.zh@,
            mode == Mode::Z2E ==> r.0@ == self.zh@ && r.1@ == self.en@,
    {
        match mode {
            Mode::E2Z => (self.en.clone(), self.zh.clone()),
            Mode::Z2E => (self.zh.clone(), self.en.clone()),
        }
    }

    /// Takes the user's reply in the current turn, updates the statistics and
    /// returns the next turn. `right` adds one to the count and ends the turn;
    /// `wrong` and `pass` end it and show the answer; `add alias` asks for a
    /// text, which is recorded as an alias before the judgment is asked again.
    pub fn prompt(&mut self, turn: Turn, reply: Reply) -> (next: Turn)
        requires
            old(self).meta.wf(),
        ensures
            next == next_turn(turn, reply),
            final(self).meta.wf(),
            final(self).meta.cnt == next_count(old(self).meta.cnt, turn, reply),
            final(self).meta.alias_set() == next_aliases(old(self).meta.alias_set(), turn, reply),
            final(self).en == old(self).en,
            final(self).zh == old(self).zh,
            final(self).meta_str == old(self).meta_str,
    {
        match (turn, reply) {
            (Turn::Question, Reply::Check) => Turn::Judging,
            (Turn::Question, Reply::Pass) => Turn::Revealed,
            (Turn::Judging, Reply::Right) => {
                self.meta.record_right();
                Turn::Closed
            },
            (Turn::Judging, Reply::Wrong) => Turn::Revealed,
            (Turn::Judging, Reply::AddAlias) => Turn::Naming,
            (Turn::Naming, Reply::Text(s)) => {
                self.meta.add_alias(s);
                Turn::Judging
            },
            (t, _) => t,
        }
    }

    /// The answer of the entry in the given mode.
    pub open spec fn answer_view(&self, mode: Mode) -> Seq<char> {
        if mode == Mode::E2Z {
            self.zh@
        } else {
            self.en@
        }
    }

    /// Free-text review: whether the typed text is exactly the answer.
    pub fn is_answer(&self, mode: Mode, typed: &String) -> (r: bool)
        ensures
            r == (typed@ == self.answer_view(mode)),
    {
        match mode {
            Mode::E2Z => self.zh.eq(typed),
            Mode::Z2E => self.en.eq(typed),
        }
    }

    /// Free-text review: settles a typed answer. The exact answer counts as
    /// right. Another text counts as right only when the user agreed
    /// (`register`) to keep it as an alias, which is then recorded; else
    /// nothing changes. Returns whether the answer was counted.
    pub fn answer_typed(&mut self, mode: Mode, typed: String, register: bool) -> (r: bool)
        requires
            old(self).meta.wf(),
        ensures
            r == (typed@ == old(self).answer_view(mode) || register),
            final(self).meta.wf(),
            final(self).meta.cnt == if r { bumped(old(self).meta.cnt) } else { old(self).meta.cnt },
            final(self).meta.alias_set() == if typed@ != old(self).answer_view(mode) && register {
                old(self).meta.alias_set().insert(typed@)
            } else {
                old(self).meta.alias_set()
            },
            final(self).en == old(self).en,
            final(self).zh == old(self).zh,
            final(self).meta_str == old(self).meta_str,
    {
        if self.is_answer(mode, &typed) {
            self.meta.record_right();
            true
        } else if register {
            self.meta.add_alias(typed);
            self.meta.record_right();
            true
        } else {
            false
        }
    }
}

/// The correct count never decreases, and it changes only on a `right`
/// judgment.
pub proof fn lemma_count_monotone(cnt: u32, turn: Turn, reply: Reply)
    ensures
        next_count(cnt, turn, reply) >= cnt,
        next_count(cnt, turn, reply) != cnt ==> turn == Turn::Judging && reply is Right,
{
}

/// An entry whose count has reached the threshold starts its turn over, and
/// no reply then changes its turn or its statistics.
pub proof fn lemma_mastered_untouched(e: Entry, skip_cnt: u32, reply: Reply)
    requires
        e.meta.cnt >= skip_cnt,
    ensures
        !e.is_due(skip_cnt),
        next_turn(Turn::Closed, reply) == Turn::Closed,
        next_count(e.meta.cnt, Turn::Closed, reply) == e.meta.cnt,
        next_aliases(e.meta.alias_set(), Turn::Closed, reply) == e.meta.alias_set(),
{
}

} // verus!
