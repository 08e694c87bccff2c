//! The candidates of a completion: the names that begin with what was
//! typed, in order and without repetitions.

use vstd::prelude::*;
use crate::command::{lemma_builtin_found_by_name, Builtin};
use crate::text::{chars_of, lemma_texts_push, texts};

verus! {

/// How one text stands to another in the order of their characters.
#[derive(Debug, Clone, Copy, PartialEq, Eq)]
pub enum Rank {
    Before,
    Same,
    After,
}

/// Whether `a` comes before `b`, given that they agree before position `i`:
/// at the first position where they differ `a` holds the smaller character,
/// or `a` ends there and `b` goes on.
pub open spec fn lt_from(a: Seq<char>, b: Seq<char>, i: int) -> bool
    decreases b.len() - i,
{
    if i < 0 || i >= b.len() {
        false
    } else if i >= a.len() {
        true
    } else if a[i] != b[i] {
        a[i] < b[i]
    } else {
        lt_from(a, b, i + 1)
    }
}

/// Whether `a` comes before `b` in the order of their characters.
pub open spec fn text_lt(a: Seq<char>, b: Seq<char>) -> bool {
    lt_from(a, b, 0)
}

/// Each text comes before the next one.
pub open spec fn strictly_sorted(v: Seq<Seq<char>>) -> bool {
    forall|i: int| 0 <= i && i + 1 < v.len() ==> text_lt(#[trigger] v[i], v[i + 1])
}

/// No text comes before itself.
pub proof fn lemma_lt_irreflexive(a: Seq<char>, i: int)
    requires
        0 <= i,
    ensures
        !lt_from(a, a, i),
    decreases a.len() - i,
{
    if i < a.len() {
        lemma_lt_irreflexive(a, i + 1);
    }
}

/// What comes before a text comes before everything after that text.
pub proof fn lemma_lt_transitive(a: Seq<char>, b: Seq<char>, c: Seq<char>, i: int)
    requires
        0 <= i,
        lt_from(a, b, i),
        lt_from(b, c, i),
    ensures
        lt_from(a, c, i),
    decreases c.len() - i,
{
    if i < a.len() && i < c.len() && a[i] == b[i] && b[i] == c[i] {
        lemma_lt_transitive(a, b, c, i + 1);
    }
}

/// In a sorted sequence every text comes before every later one, so no
/// text stands in it twice.
pub proof fn lemma_sorted_pairs(v: Seq<Seq<char>>, i: int, j: int)
    requires
        strictly_sorted(v),
        0 <= i < j < v.len(),
    ensures
        text_lt(v[i], v[j]),
        v[i] != v[j],
    decreases j - i,
{
    if i + 1 < j {
        lemma_sorted_pairs(v, i, j - 1);
        assert(text_lt(v[j - 1], v[j]));
        lemma_lt_transitive(v[i], v[j - 1], v[j], 0);
    } else {
        assert(text_lt(v[i], v[i + 1]));
    }
    lemma_lt_irreflexive(v[i], 0);
}

/// What is left of a sorted sequence without its first text is sorted.
pub proof fn lemma_sorted_tail(v: Seq<Seq<char>>)
    requires
        strictly_sorted(v),
        v.len() > 0,
    ensures
        strictly_sorted(v.drop_first()),
{
    let tail = v.drop_first();
    assert forall|i: int| 0 <= i && i + 1 < tail.len() implies text_lt(
        #[trigger] tail[i],
        tail[i + 1],
    ) by {
        assert(text_lt(v[i + 1], v[i + 2]));
    }
}

/// Whether two sequences hold the same texts.
pub open spec fn same_texts(a: Seq<Seq<char>>, b: Seq<Seq<char>>) -> bool {
    forall|t: Seq<char>|
        #![trigger a.contains(t)]
        #![trigger b.contains(t)]
        a.contains(t) <==> b.contains(t)
}

/// Two sorted sequences that hold the same texts begin with the same one.
pub proof fn lemma_sorted_same_first(a: Seq<Seq<char>>, b: Seq<Seq<char>>)
    requires
        strictly_sorted(a),
        strictly_sorted(b),
        same_texts(a, b),
        a.len() > 0,
    ensures
        b.len() > 0,
        a[0] == b[0],
{
    assert(a.contains(a[0]));
    assert(b.contains(a[0]));
    let j = choose|j: int| 0 <= j < b.len() && b[j] == a[0];
    assert(b.contains(b[0]));
    assert(a.contains(b[0]));
    let i = choose|i: int| 0 <= i < a.len() && a[i] == b[0];
    if j > 0 && i > 0 {
        lemma_sorted_pairs(b, 0, j);
        lemma_sorted_pairs(a, 0, i);
        lemma_lt_transitive(a[0], b[0], a[0], 0);
        lemma_lt_irreflexive(a[0], 0);
    }
}

/// What a sorted sequence holds after its first text is what it holds
/// apart from that text.
pub proof fn lemma_sorted_tail_holds(v: Seq<Seq<char>>, t: Seq<char>)
    requires
        strictly_sorted(v),
        v.len() > 0,
    ensures
        v.drop_first().contains(t) <==> (v.contains(t) && t != v[0]),
{
    let tail = v.drop_first();
    if tail.contains(t) {
        let k = choose|k: int| 0 <= k < tail.len() && tail[k] == t;
        lemma_sorted_pairs(v, 0, k + 1);
        assert(v[k + 1] == t);
    }
    if v.contains(t) && t != v[0] {
        let m = choose|m: int| 0 <= m < v.len() && v[m] == t;
        assert(tail[m - 1] == t);
    }
}

/// Two sorted sequences that hold the same texts are equal: the texts
/// that a sorted sequence holds decide the sequence.
pub proof fn lemma_sorted_same_texts(a: Seq<Seq<char>>, b: Seq<Seq<char>>)
    requires
        strictly_sorted(a),
        strictly_sorted(b),
        same_texts(a, b),
    ensures
        a == b,
    decreases a.len(),
{
    if a.len() == 0 {
        if b.len() > 0 {
            assert(b.contains(b[0]));
            assert(a.contains(b[0]));
        }
        assert(a =~= b);
    } else {
        lemma_sorted_same_first(a, b);
        let a1 = a.drop_first();
        let b1 = b.drop_first();
        lemma_sorted_tail(a);
        lemma_sorted_tail(b);
        assert forall|t: Seq<char>|
            #![trigger a1.contains(t)]
            #![trigger b1.contains(t)]
            a1.contains(t) <==> b1.contains(t) by {
            lemma_sorted_tail_holds(a, t);
            lemma_sorted_tail_holds(b, t);
            assert(a.contains(t) <==> b.contains(t));
        }
        lemma_sorted_same_texts(a1, b1);
        assert(a =~= seq![a[0]] + a1);
        assert(b =~= seq![b[0]] + b1);
    }
}

/// How `a` stands to `b` in the order of their characters.
pub fn rank(a: &Vec<char>, b: &Vec<char>) -> (r: Rank)
    ensures
        match r {
            Rank::Before => text_lt(a@, b@),
            Rank::Same => a@ == b@,
            Rank::After => text_lt(b@, a@),
        },
{
    let mut i: usize = 0;
    while i < a.len() && i < b.len()
        invariant
            i <= a.len(),
            i <= b.len(),
            forall|k: int| 0 <= k < i ==> a@[k] == b@[k],
            text_lt(a@, b@) == lt_from(a@, b@, i as int),
            text_lt(b@, a@) == lt_from(b@, a@, i as int),
        decreases a.len() - i,
    {
        if a[i] != b[i] {
            return if a[i] < b[i] {
                Rank::Before
            } else {
                Rank::After
            };
        }
        i += 1;
    }
    if a.len() == b.len() {
        assert(a@ =~= b@);
        Rank::Same
    } else if a.len() < b.len() {
        Rank::Before
    } else {
        Rank::After
    }
}

/// Whether `s` begins with `prefix`.
pub fn starts_with(s: &Vec<char>, prefix: &Vec<char>) -> (r: bool)
    ensures
        r == prefix@.is_prefix_of(s@),
{
    if prefix.len() > s.len() {
        return false;
    }
    let mut i: usize = 0;
    while i < prefix.len()
        invariant
            i <= prefix.len() <= s.len(),
            forall|k: int| 0 <= k < i ==> prefix@[k] == s@[k],
        decreases prefix.len() - i,
    {
        if prefix[i] != s[i] {
            assert(s@.subrange(0, prefix@.len() as int)[i as int] == s@[i as int]);
            return false;
        }
        i += 1;
    }
    assert(prefix@ =~= s@.subrange(0, prefix@.len() as int));
    true
}

/// Puts `item` in its place in the sorted `list`, unless the list holds it
/// already.
pub fn insert_sorted(list: &mut Vec<String>, item: String)
    requires
        strictly_sorted(texts(old(list)@)),
    ensures
        strictly_sorted(texts(final(list)@)),
        forall|t: Seq<char>|
            #![trigger texts(final(list)@).contains(t)]
            texts(final(list)@).contains(t) <==> (texts(old(list)@).contains(t) || t == item@),
{
    let word = chars_of(item.as_str());
    let ghost before = texts(list@);
    let mut p: usize = 0;
    while p < list.len()
        invariant
            p <= list@.len(),
            list@ == old(list)@,
            before == texts(list@),
            strictly_sorted(before),
            word@ == item@,
            forall|k: int| 0 <= k < p ==> text_lt(#[trigger] before[k], word@),
        decreases list@.len() - p,
    {
        let here = chars_of(list[p].as_str());
        assert(before[p as int] == here@);
        match rank(&here, &word) {
            Rank::Before => {
                p += 1;
            },
            Rank::Same => {
                assert forall|t: Seq<char>|
                    before.contains(t) <==> (before.contains(t) || t == item@) by {
                    if t == item@ {
                        assert(before[p as int] == t);
                    }
                }
                return ;
            },
            Rank::After => {
                list.insert(p, item);
                let ghost after = texts(list@);
                assert(after =~= before.insert(p as int, word@));
                assert forall|i: int| 0 <= i && i + 1 < after.len() implies text_lt(
                    #[trigger] after[i],
                    after[i + 1],
                ) by {
                    if i + 1 < p {
                        assert(text_lt(before[i], before[i + 1]));
                    } else if i + 1 == p {
                        assert(text_lt(before[i], word@));
                    } else if i == p {
                    } else {
                        assert(text_lt(before[i - 1], before[i]));
                    }
                }
                assert forall|t: Seq<char>|
                    after.contains(t) <==> (before.contains(t) || t == word@) by {
                    if after.contains(t) {
                        let k = choose|k: int| 0 <= k < after.len() && after[k] == t;
                        if k < p {
                            assert(before[k] == t);
                        } else if k > p {
                            assert(before[k - 1] == t);
                        }
                    }
                    if before.contains(t) {
                        let k = choose|k: int| 0 <= k < before.len() && before[k] == t;
                        if k < p {
                            assert(after[k] == t);
                        } else {
                            assert(after[k + 1] == t);
                        }
                    }
                    if t == word@ {
                        assert(after[p as int] == t);
                    }
                }
                return ;
            },
        }
    }
    proof {
        lemma_texts_push(list@, item);
    }
    list.push(item);
    let ghost after = texts(list@);
    assert forall|i: int| 0 <= i && i + 1 < after.len() implies text_lt(
        #[trigger] after[i],
        after[i + 1],
    ) by {
        if i + 1 < before.len() {
            assert(text_lt(before[i], before[i + 1]));
        } else {
            assert(text_lt(before[i], word@));
        }
    }
    assert forall|t: Seq<char>| after.contains(t) <==> (before.contains(t) || t == word@) by {
        if after.contains(t) {
            let k = choose|k: int| 0 <= k < after.len() && after[k] == t;
            if k < before.len() {
                assert(before[k] == t);
            }
        }
        if before.contains(t) {
            let k = choose|k: int| 0 <= k < before.len() && before[k] == t;
            assert(after[k] == t);
        }
        if t == word@ {
            assert(after[before.len() as int] == t);
        }
    }
}

/// A sequence with one more text holds what it held, and that text.
pub proof fn lemma_contains_push(s: Seq<Seq<char>>, x: Seq<char>, t: Seq<char>)
    ensures
        s.push(x).contains(t) <==> (s.contains(t) || t == x),
{
    let longer = s.push(x);
    if longer.contains(t) {
        let k = choose|k: int| 0 <= k < longer.len() && longer[k] == t;
        if k < s.len() {
            assert(s[k] == t);
        }
    }
    if s.contains(t) {
        let k = choose|k: int| 0 <= k < s.len() && s[k] == t;
        assert(longer[k] == t);
    }
    if t == x {
        assert(longer[s.len() as int] == t);
    }
}

/// Adds to the sorted `list` the names that begin with `prefix`.
pub fn add_matching(list: &mut Vec<String>, names: &Vec<String>, prefix: &Vec<char>)
    requires
        strictly_sorted(texts(old(list)@)),
    ensures
        strictly_sorted(texts(final(list)@)),
        forall|t: Seq<char>|
            #![trigger texts(final(list)@).contains(t)]
            texts(final(list)@).contains(t) <==> (texts(old(list)@).contains(t) || (texts(
                names@,
            ).contains(t) && prefix@.is_prefix_of(t))),
{
    let ghost all = texts(names@);
    let ghost start = texts(list@);
    let mut i: usize = 0;
    assert(all.subrange(0, 0) =~= Seq::<Seq<char>>::empty());
    while i < names.len()
        invariant
            i <= names@.len(),
            all == texts(names@),
            strictly_sorted(texts(list@)),
            forall|t: Seq<char>|
                #![trigger texts(list@).contains(t)]
                texts(list@).contains(t) <==> (start.contains(t) || (all.subrange(
                    0,
                    i as int,
                ).contains(t) && prefix@.is_prefix_of(t))),
        decreases names@.len() - i,
    {
        let name = chars_of(names[i].as_str());
        assert(all[i as int] == name@);
        let ghost held = texts(list@);
        let ghost seen = all.subrange(0, i as int);
        let matching = starts_with(&name, prefix);
        if matching {
            insert_sorted(list, names[i].clone());
        }
        i += 1;
        assert(all.subrange(0, i as int) =~= seen.push(name@));
        assert forall|t: Seq<char>|
            #![trigger texts(list@).contains(t)]
            texts(list@).contains(t) <==> (start.contains(t) || (all.subrange(
                0,
                i as int,
            ).contains(t) && prefix@.is_prefix_of(t))) by {
            lemma_contains_push(seen, name@, t);
            assert(held.contains(t) <==> (start.contains(t) || (seen.contains(t)
                && prefix@.is_prefix_of(t))));
            if matching {
                assert(texts(list@).contains(t) <==> (held.contains(t) || t == name@));
            }
        }
    }
    assert(all.subrange(0, i as int) =~= all);
}

/// The names of the built-in commands, as strings.
fn builtin_names() -> (names: Vec<String>)
    ensures
        forall|t: Seq<char>| texts(names@).contains(t) <==> Builtin::named(t) is Some,
{
    let every = Builtin::every();
    let mut names: Vec<String> = Vec::new();
    let mut i: usize = 0;
    assert(texts(names@) =~= Seq::<Seq<char>>::empty());
    while i < every.len()
        invariant
            i <= every@.len(),
            every@.len() == 6,
            names@.len() == i,
            forall|k: int| 0 <= k < i ==> (#[trigger] texts(names@)[k]) == every@[k].spec_name(),
        decreases every@.len() - i,
    {
        let name = every[i].name().to_owned();
        proof {
            lemma_texts_push(names@, name);
        }
        names.push(name);
        i += 1;
    }
    let ghost held = texts(names@);
    assert forall|t: Seq<char>| held.contains(t) <==> Builtin::named(t) is Some by {
        if held.contains(t) {
            let k = choose|k: int| 0 <= k < held.len() && held[k] == t;
            lemma_builtin_found_by_name(every@[k]);
        }
        if Builtin::named(t) is Some {
            let b = Builtin::named(t)->0;
            let k: int = match b {
                Builtin::Cd => 0,
                Builtin::Echo => 1,
                Builtin::Exit => 2,
                Builtin::History => 3,
                Builtin::Pwd => 4,
                Builtin::Type => 5,
            };
            assert(every@[k] == b);
            assert(held[k] == t);
        }
    }
    names
}

/// The commands that begin with `prefix`: the built-in commands and the
/// given names of executables, in order, each once.
pub fn find_matching_executables(names: &Vec<String>, prefix: &str) -> (found: Vec<String>)
    ensures
        strictly_sorted(texts(found@)),
        forall|t: Seq<char>|
            texts(found@).contains(t) <==> (prefix@.is_prefix_of(t) && (Builtin::named(t) is Some
                || texts(names@).contains(t))),
{
    let typed = chars_of(prefix);
    let mut found: Vec<String> = Vec::new();
    assert(texts(found@) =~= Seq::<Seq<char>>::empty());
    let builtins = builtin_names();
    add_matching(&mut found, &builtins, &typed);
    add_matching(&mut found, names, &typed);
    found
}

/// The given names in order, each once.
pub fn sorted_names(names: &Vec<String>) -> (sorted: Vec<String>)
    ensures
        strictly_sorted(texts(sorted@)),
        forall|t: Seq<char>| texts(sorted@).contains(t) <==> texts(names@).contains(t),
{
    let nothing: Vec<char> = Vec::new();
    let mut sorted: Vec<String> = Vec::new();
    assert(texts(sorted@) =~= Seq::<Seq<char>>::empty());
    add_matching(&mut sorted, names, &nothing);
    assert forall|t: Seq<char>| texts(sorted@).contains(t) <==> texts(names@).contains(t) by {
        assert(nothing@ =~= t.subrange(0, 0));
        assert(nothing@.is_prefix_of(t));
    }
    sorted
}

/// An entry of a directory.
#[derive(Debug, Clone, PartialEq, Eq)]
pub struct DirEntry {
    pub name: String,
    pub is_dir: bool,
}

/// What an entry is completed to: its name, with `/` after a directory.
pub open spec fn label(entry: DirEntry) -> Seq<char> {
    if entry.is_dir {
        entry.name@.push('/')
    } else {
        entry.name@
    }
}

/// Whether the entry at `k` begins with `stem` and is completed to `t`.
pub open spec fn hit(entries: Seq<DirEntry>, stem: Seq<char>, k: int, t: Seq<char>) -> bool {
    0 <= k < entries.len() && stem.is_prefix_of(entries[k].name@) && label(entries[k]) == t
}

/// Whether one of the first `n` entries begins with `stem` and is completed
/// to `t`.
pub open spec fn hit_among(entries: Seq<DirEntry>, stem: Seq<char>, n: int, t: Seq<char>) -> bool {
    exists|k: int| k < n && #[trigger] hit(entries, stem, k, t)
}

/// The entries whose names begin with `stem`, each as its name, a
/// directory with `/` after it; in order, each once.
pub fn find_matching_files(entries: &Vec<DirEntry>, stem: &str) -> (found: Vec<String>)
    ensures
        strictly_sorted(texts(found@)),
        forall|t: Seq<char>|
            texts(found@).contains(t) <==> hit_among(entries@, stem@, entries@.len() as int, t),
{
    let typed = chars_of(stem);
    let mut found: Vec<String> = Vec::new();
    assert(texts(found@) =~= Seq::<Seq<char>>::empty());
    let mut i: usize = 0;
    while i < entries.len()
        invariant
            i <= entries@.len(),
            typed@ == stem@,
            strictly_sorted(texts(found@)),
            forall|t: Seq<char>| texts(found@).contains(t) <==> hit_among(entries@, stem@, i as int, t),
        decreases entries@.len() - i,
    {
        let name = chars_of(entries[i].name.as_str());
        let ghost held = texts(found@);
        let ghost entry = entries@[i as int];
        let matching = starts_with(&name, &typed);
        if matching {
            let mut candidate = entries[i].name.clone();
            if entries[i].is_dir {
                candidate.push('/');
            }
            assert(candidate@ == label(entry));
            insert_sorted(&mut found, candidate);
        }
        assert forall|t: Seq<char>|
            texts(found@).contains(t) <==> hit_among(entries@, stem@, i + 1, t) by {
            assert(held.contains(t) <==> hit_among(entries@, stem@, i as int, t));
            if matching {
                assert(texts(found@).contains(t) <==> (held.contains(t) || t == label(entry)));
            }
            if hit_among(entries@, stem@, i as int, t) {
                let k = choose|k: int| k < i && #[trigger] hit(entries@, stem@, k, t);
                assert(k < i + 1 && hit(entries@, stem@, k, t));
            }
            if hit_among(entries@, stem@, i + 1, t) {
                let k = choose|k: int| k < i + 1 && #[trigger] hit(entries@, stem@, k, t);
                if k < i {
                    assert(hit_among(entries@, stem@, i as int, t));
                }
            }
            if matching && t == label(entry) {
                assert(hit(entries@, stem@, i as int, t));
            }
        }
        i += 1;
        assert forall|t: Seq<char>|
            texts(found@).contains(t) <==> hit_among(entries@, stem@, i as int, t) by {
            assert(texts(found@).contains(t) <==> hit_among(entries@, stem@, (i - 1) + 1, t));
        }
    }
    found
}

} // verus!
