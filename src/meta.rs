use vstd::prelude::*;
use vstd::string::*;

verus! {

/// Per-entry review statistics: how often the entry was judged correct, and
/// the alternative answers the user accepted for it.
#[derive(Debug)]
pub struct Meta {
    pub cnt: u32,
    pub aka: Vec<String>,
}

/// `a` comes before `b` when their characters are compared in order, a
/// proper prefix first.
pub open spec fn lex_lt(a: Seq<char>, b: Seq<char>) -> bool
    decreases a.len(),
{
    if b.len() == 0 {
        false
    } else if a.len() == 0 {
        true
    } else if a[0] != b[0] {
        a[0] < b[0]
    } else {
        lex_lt(a.drop_first(), b.drop_first())
    }
}

/// Each string of `s` comes before the ones after it.
pub open spec fn sorted(s: Seq<Seq<char>>) -> bool {
    forall|i: int, j: int| 0 <= i < j < s.len() ==> lex_lt(#[trigger] s[i], #[trigger] s[j])
}

pub proof fn lemma_lex_irreflexive(a: Seq<char>)
    ensures
        !lex_lt(a, a),
    decreases a.len(),
{
    if a.len() > 0 {
        lemma_lex_irreflexive(a.drop_first());
    }
}

pub proof fn lemma_lex_transitive(a: Seq<char>, b: Seq<char>, c: Seq<char>)
    requires
        lex_lt(a, b),
        lex_lt(b, c),
    ensures
        lex_lt(a, c),
    decreases a.len(),
{
    if a.len() > 0 && b.len() > 0 && c.len() > 0 && a[0] == b[0] && b[0] == c[0] {
        lemma_lex_transitive(a.drop_first(), b.drop_first(), c.drop_first());
    }
}

pub proof fn lemma_lex_total(a: Seq<char>, b: Seq<char>)
    requires
        a != b,
    ensures
        lex_lt(a, b) || lex_lt(b, a),
    decreases a.len(),
{
    if a.len() > 0 && b.len() > 0 && a[0] == b[0] {
        if a.drop_first() == b.drop_first() {
            assert(a =~= seq![a[0]] + a.drop_first());
            assert(b =~= seq![b[0]] + b.drop_first());
        }
        lemma_lex_total(a.drop_first(), b.drop_first());
    } else if a.len() == 0 && b.len() == 0 {
        assert(a =~= b);
    }
}

/// A sorted list holds each string once.
pub proof fn lemma_sorted_no_duplicates(s: Seq<Seq<char>>)
    requires
        sorted(s),
    ensures
        s.no_duplicates(),
{
    assert forall|i: int, j: int| 0 <= i < s.len() && 0 <= j < s.len() && i != j implies s[i]
        != s[j] by {
        if i < j {
            lemma_lex_irreflexive(s[i]);
        } else {
            lemma_lex_irreflexive(s[j]);
        }
    }
}

/// Two sorted lists of the same strings are the same list.
pub proof fn lemma_sorted_unique(s: Seq<Seq<char>>, t: Seq<Seq<char>>)
    requires
        sorted(s),
        sorted(t),
        s.to_set() == t.to_set(),
    ensures
        s == t,
    decreases s.len(),
{
    lemma_sorted_no_duplicates(s);
    lemma_sorted_no_duplicates(t);
    if s.len() == 0 {
        if t.len() > 0 {
            assert(t.to_set().contains(t[0]));
        }
        assert(s =~= t);
    } else {
        assert(s.to_set().contains(s[0]));
        assert(t.len() > 0);
        assert(t.to_set().contains(t[0]));
        let k = choose|k: int| 0 <= k < t.len() && t[k] == s[0];
        let m = choose|m: int| 0 <= m < s.len() && s[m] == t[0];
        if k > 0 {
            assert(lex_lt(t[0], t[k]));
            if m > 0 {
                assert(lex_lt(s[0], s[m]));
                lemma_lex_transitive(s[0], t[0], s[0]);
            }
            lemma_lex_irreflexive(s[0]);
        }
        assert(s[0] == t[0]);
        let s1 = s.drop_first();
        let t1 = t.drop_first();
        assert(sorted(s1)) by {
            assert forall|i: int, j: int| 0 <= i < j < s1.len() implies lex_lt(s1[i], s1[j]) by {
                assert(s1[i] == s[i + 1] && s1[j] == s[j + 1]);
            }
        }
        assert(sorted(t1)) by {
            assert forall|i: int, j: int| 0 <= i < j < t1.len() implies lex_lt(t1[i], t1[j]) by {
                assert(t1[i] == t[i + 1] && t1[j] == t[j + 1]);
            }
        }
        assert(s1.to_set() =~= t1.to_set()) by {
            assert forall|x: Seq<char>| s1.to_set().contains(x) implies t1.to_set().contains(x) by {
                let i = choose|i: int| 0 <= i < s1.len() && s1[i] == x;
                assert(s.to_set().contains(x) && s[i + 1] == x);
                let j = choose|j: int| 0 <= j < t.len() && t[j] == x;
                assert(j != 0);
                assert(t1[j - 1] == x);
            }
            assert forall|x: Seq<char>| t1.to_set().contains(x) implies s1.to_set().contains(x) by {
                let i = choose|i: int| 0 <= i < t1.len() && t1[i] == x;
                assert(t.to_set().contains(x) && t[i + 1] == x);
                let j = choose|j: int| 0 <= j < s.len() && s[j] == x;
                assert(j != 0);
                assert(s1[j - 1] == x);
            }
        }
        lemma_sorted_unique(s1, t1);
        assert(s =~= seq![s[0]] + s1);
        assert(t =~= seq![t[0]] + t1);
    }
}

/// The count after one more correct answer; it stops at the largest `u32`.
pub open spec fn bumped(cnt: u32) -> u32 {
    if cnt < u32::MAX {
        (cnt + 1) as u32
    } else {
        cnt
    }
}

/// The alias list as a sequence of character strings.
pub open spec fn strs_view(aka: Seq<String>) -> Seq<Seq<char>> {
    aka.map_values(|s: String| s@)
}

impl Meta {
    /// The aliases, in the order they were first recorded.
    pub open spec fn aliases(&self) -> Seq<Seq<char>> {
        strs_view(self.aka@)
    }

    /// The aliases as a set.
    pub open spec fn alias_set(&self) -> Set<Seq<char>> {
        self.aliases().to_set()
    }

    /// The aliases are held in one canonical order, sorted by their
    /// characters, so each once and equal sets as equal lists.
    pub open spec fn wf(&self) -> bool {
        sorted(self.aliases())
    }

    /// Statistics of an entry that was never reviewed.
    pub fn new() -> (r: Meta)
        ensures
            r.wf(),
            r.cnt == 0,
            r.aliases() == Seq::<Seq<char>>::empty(),
            r.alias_set() == Set::<Seq<char>>::empty(),
    {
        let r = Meta { cnt: 0, aka: Vec::new() };
        assert(r.aliases() =~= Seq::<Seq<char>>::empty());
        assert(r.alias_set() =~= Set::<Seq<char>>::empty());
        r
    }

    /// Whether `a` is one of the aliases.
    pub fn has_alias(&self, a: &String) -> (r: bool)
        ensures
            r == self.aliases().contains(a@),
    {
        let mut i: usize = 0;
        while i < self.aka.len()
            invariant
                i <= self.aka@.len(),
                forall|j: int| 0 <= j < i ==> self.aliases()[j] != a@,
            decreases self.aka@.len() - i,
        {
            if self.aka[i].eq(a) {
                assert(self.aliases()[i as int] == a@);
                return true;
            }
            i = i + 1;
        }
        false
    }

    /// Records `a` as an accepted alternative answer, at its place in the
    /// canonical order; an alias already held is not recorded again.
    pub fn add_alias(&mut self, a: String)
        requires
            old(self).wf(),
        ensures
            final(self).wf(),
            final(self).cnt == old(self).cnt,
            final(self).alias_set() == old(self).alias_set().insert(a@),
    {
        let ghost before = self.aliases();
        let mut p: usize = 0;
        while p < self.aka.len() && lex_less(&self.aka[p], &a)
            invariant
                p <= self.aka@.len(),
                before == self.aliases(),
                forall|i: int| 0 <= i < p ==> lex_lt(#[trigger] before[i], a@),
            decreases self.aka@.len() - p,
        {
            p = p + 1;
        }
        if p < self.aka.len() && self.aka[p].eq(&a) {
            assert(before[p as int] == a@);
            assert(before.to_set().contains(a@));
            assert(before.to_set().insert(a@) =~= before.to_set());
            return;
        }
        proof {
            if p < before.len() {
                lemma_lex_total(before[p as int], a@);
            }
        }
        let ghost av = a@;
        self.aka.insert(p, a);
        let ghost after = self.aliases();
        assert(after =~= before.insert(p as int, av));
        assert forall|i: int, j: int| 0 <= i < j < after.len() implies lex_lt(
            #[trigger] after[i],
            #[trigger] after[j],
        ) by {
            if j < p {
            } else if j == p {
            } else if i < p {
                assert(after[i] == before[i] && after[j] == before[j - 1]);
            } else if i == p {
                assert(after[j] == before[j - 1]);
                if j - 1 > p {
                    assert(lex_lt(before[p as int], before[j - 1]));
                    lemma_lex_transitive(av, before[p as int], before[j - 1]);
                }
            } else {
                assert(after[i] == before[i - 1] && after[j] == before[j - 1]);
            }
        }
        assert(after.to_set() =~= before.to_set().insert(av)) by {
            assert forall|x: Seq<char>| after.to_set().contains(x) implies before.to_set().insert(
                av,
            ).contains(x) by {
                let k = choose|k: int| 0 <= k < after.len() && after[k] == x;
                if k < p {
                    assert(before[k] == x);
                } else if k > p {
                    assert(before[k - 1] == x);
                }
            }
            assert forall|x: Seq<char>| before.to_set().insert(av).contains(x) implies after.to_set().contains(
                x,
            ) by {
                if x == av {
                    assert(after[p as int] == av);
                } else {
                    let k = choose|k: int| 0 <= k < before.len() && before[k] == x;
                    if k < p {
                        assert(after[k] == x);
                    } else {
                        assert(after[k + 1] == x);
                    }
                }
            }
        }
    }

    /// Records one correct answer. The count stops at the largest `u32`.
    pub fn record_right(&mut self)
        ensures
            final(self).aka == old(self).aka,
            final(self).cnt == bumped(old(self).cnt),
    {
        if self.cnt < u32::MAX {
            self.cnt = self.cnt + 1;
        }
    }
}

/// Whether `a` comes before `b` in the canonical order.
pub fn lex_less(a: &String, b: &String) -> (r: bool)
    ensures
        r == lex_lt(a@, b@),
{
    let la = a.as_str().unicode_len();
    let lb = b.as_str().unicode_len();
    let mut i: usize = 0;
    assert(a@.subrange(0, la as int) =~= a@);
    assert(b@.subrange(0, lb as int) =~= b@);
    while i < la && i < lb
        invariant
            la == a@.len(),
            lb == b@.len(),
            i <= la,
            i <= lb,
            lex_lt(a@, b@) == lex_lt(a@.subrange(i as int, la as int), b@.subrange(i as int, lb as int)),
        decreases la - i,
    {
        let ca = a.as_str().get_char(i);
        let cb = b.as_str().get_char(i);
        let ghost sa = a@.subrange(i as int, la as int);
        let ghost sb = b@.subrange(i as int, lb as int);
        assert(sa[0] == ca && sb[0] == cb);
        if ca != cb {
            return ca < cb;
        }
        assert(sa.drop_first() =~= a@.subrange(i + 1, la as int));
        assert(sb.drop_first() =~= b@.subrange(i + 1, lb as int));
        i = i + 1;
    }
    i == la && i < lb
}

/// Recording an alias a second time changes nothing: the aliases then hold
/// exactly one copy of it.
pub proof fn lemma_alias_idempotent(m: Meta, a: Seq<char>)
    requires
        m.wf(),
    ensures
        m.alias_set().insert(a).insert(a) == m.alias_set().insert(a),
        m.alias_set().insert(a).contains(a),
        m.aliases().no_duplicates(),
{
    lemma_sorted_no_duplicates(m.aliases());
    assert(m.alias_set().insert(a).insert(a) =~= m.alias_set().insert(a));
}

/// Statistics with equal counts and equal alias sets are held alike, so they
/// are saved as the same text.
pub proof fn lemma_canonical(m1: Meta, m2: Meta)
    requires
        m1.wf(),
        m2.wf(),
        m1.alias_set() == m2.alias_set(),
    ensures
        m1.aliases() == m2.aliases(),
{
    lemma_sorted_unique(m1.aliases(), m2.aliases());
}

} // verus!
