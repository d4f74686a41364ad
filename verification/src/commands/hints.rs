//! The sample of known names that an "unknown name" message shows.

use crate::name_map::slices;
use crate::text::{
    decimal, decimal_text, is_before, join, joined, lemma_text_before_irreflexive,
    lemma_text_before_total, lemma_text_before_transitive, lemma_texts_push, same_text,
    text_before, texts,
};
use vstd::prelude::*;
use vstd::string::*;

verus! {

/// How many names a sample shows.
pub const SAMPLE_SIZE: usize = 5;

/// Whether each name of `names` comes before all that follow it.
pub open spec fn strictly_sorted(names: Seq<Seq<char>>) -> bool {
    forall|i: int, j: int| 0 <= i < j < names.len() ==> text_before(names[i], names[j])
}

/// Whether `names` holds exactly the names of `set`, in order and each once.
pub open spec fn lists(names: Seq<Seq<char>>, set: Set<Seq<char>>) -> bool {
    strictly_sorted(names) && names.to_set() == set
}

/// The names of `set` in order, each once.
pub open spec fn sorted_names(set: Set<Seq<char>>) -> Seq<Seq<char>> {
    choose|names: Seq<Seq<char>>| lists(names, set)
}

/// The sample of a sorted list of names: the first five, separated by a
/// comma and a space, and behind them the number of names left out, if any
/// are.
pub open spec fn sample_text(sorted: Seq<Seq<char>>) -> Seq<char> {
    if sorted.len() > SAMPLE_SIZE {
        joined(sorted.take(SAMPLE_SIZE as int), ", "@) + " … (+"@ + decimal_text(
            (sorted.len() - SAMPLE_SIZE) as nat,
        ) + ")"@
    } else {
        joined(sorted, ", "@)
    }
}

/// The sample of a set of names.
pub open spec fn sample_of(set: Set<Seq<char>>) -> Seq<char> {
    sample_text(sorted_names(set))
}

/// Two lists in strict order that hold the same names are the same list.
pub proof fn lemma_sorted_unique(s: Seq<Seq<char>>, t: Seq<Seq<char>>)
    requires
        strictly_sorted(s),
        strictly_sorted(t),
        s.to_set() == t.to_set(),
    ensures
        s == t,
    decreases s.len(),
{
    if s.len() == 0 {
        if t.len() > 0 {
            assert(t.contains(t[0]));
            assert(s.to_set().contains(t[0]));
        }
        assert(s =~= t);
    } else {
        assert(s.contains(s.last()));
        assert(t.to_set().contains(s.last()));
        let k = choose|k: int| 0 <= k < t.len() && t[k] == s.last();
        assert(t.contains(t.last()));
        assert(s.to_set().contains(t.last()));
        let m = choose|m: int| 0 <= m < s.len() && s[m] == t.last();
        if k < t.len() - 1 {
            assert(text_before(t[k], t[t.len() - 1]));
            if m < s.len() - 1 {
                assert(text_before(s[m], s[s.len() - 1]));
                lemma_text_before_transitive(s.last(), t.last(), s.last());
            }
            lemma_text_before_irreflexive(s.last());
        }
        assert(t.last() == s.last());
        let s0 = s.drop_last();
        let t0 = t.drop_last();
        assert forall|x: Seq<char>| s0.to_set().contains(x) <==> t0.to_set().contains(x) by {
            if s0.contains(x) {
                let i = choose|i: int| 0 <= i < s0.len() && s0[i] == x;
                assert(text_before(s[i], s[s.len() - 1]));
                assert(s.contains(x));
                assert(t.to_set().contains(x));
                let j = choose|j: int| 0 <= j < t.len() && t[j] == x;
                if j == t.len() - 1 {
                    lemma_text_before_irreflexive(x);
                }
                assert(t0[j] == x);
            }
            if t0.contains(x) {
                let i = choose|i: int| 0 <= i < t0.len() && t0[i] == x;
                assert(text_before(t[i], t[t.len() - 1]));
                assert(t.contains(x));
                assert(s.to_set().contains(x));
                let j = choose|j: int| 0 <= j < s.len() && s[j] == x;
                if j == s.len() - 1 {
                    lemma_text_before_irreflexive(x);
                }
                assert(s0[j] == x);
            }
        }
        assert(s0.to_set() =~= t0.to_set());
        assert(strictly_sorted(s0)) by {
            assert forall|i: int, j: int| 0 <= i < j < s0.len() implies text_before(
                s0[i],
                s0[j],
            ) by {
                assert(text_before(s[i], s[j]));
            }
        }
        assert(strictly_sorted(t0)) by {
            assert forall|i: int, j: int| 0 <= i < j < t0.len() implies text_before(
                t0[i],
                t0[j],
            ) by {
                assert(text_before(t[i], t[j]));
            }
        }
        lemma_sorted_unique(s0, t0);
        assert(s =~= s0.push(s.last()));
        assert(t =~= t0.push(t.last()));
    }
}

/// A list that holds the names of `set` in strict order is the sorted list
/// of `set`.
pub proof fn lemma_sorted_names(names: Seq<Seq<char>>, set: Set<Seq<char>>)
    requires
        lists(names, set),
    ensures
        sorted_names(set) == names,
{
    lemma_sorted_unique(sorted_names(set), names);
}

/// Mapping to characters goes through `insert`.
proof fn lemma_texts_insert(v: Seq<String>, at: int, s: String)
    requires
        0 <= at <= v.len(),
    ensures
        texts(v.insert(at, s)) == texts(v).insert(at, s@),
{
    assert(texts(v.insert(at, s)) =~= texts(v).insert(at, s@));
}

/// Where `name` belongs in the sorted list `sorted`: behind the names that
/// come before it.
pub open spec fn rank(sorted: Seq<Seq<char>>, name: Seq<char>) -> int
    decreases sorted.len(),
{
    if sorted.len() == 0 || text_before(sorted.last(), name) {
        sorted.len() as int
    } else {
        rank(sorted.drop_last(), name)
    }
}

/// `sorted` with `name` in its place, unless it is there.
pub open spec fn with_name(sorted: Seq<Seq<char>>, name: Seq<char>) -> Seq<Seq<char>> {
    let at = rank(sorted, name);
    if at < sorted.len() && sorted[at] == name {
        sorted
    } else {
        sorted.insert(at, name)
    }
}

/// In a sorted list the names before the rank of `name` come before
/// `name`, and the others do not.
pub proof fn lemma_rank(sorted: Seq<Seq<char>>, name: Seq<char>)
    requires
        strictly_sorted(sorted),
    ensures
        0 <= rank(sorted, name) <= sorted.len(),
        forall|k: int| 0 <= k < rank(sorted, name) ==> text_before(#[trigger] sorted[k], name),
        forall|k: int|
            rank(sorted, name) <= k < sorted.len() ==> !text_before(#[trigger] sorted[k], name),
    decreases sorted.len(),
{
    if sorted.len() > 0 {
        let last = sorted.len() - 1;
        if text_before(sorted.last(), name) {
            assert forall|k: int| 0 <= k < sorted.len() implies text_before(
                #[trigger] sorted[k],
                name,
            ) by {
                if k < last {
                    assert(text_before(sorted[k], sorted[last]));
                    lemma_text_before_transitive(sorted[k], sorted[last], name);
                }
            }
        } else {
            let before = sorted.drop_last();
            assert(strictly_sorted(before)) by {
                assert forall|i: int, j: int| 0 <= i < j < before.len() implies text_before(
                    before[i],
                    before[j],
                ) by {
                    assert(text_before(sorted[i], sorted[j]));
                }
            }
            lemma_rank(before, name);
            assert forall|k: int| 0 <= k < rank(sorted, name) implies text_before(
                #[trigger] sorted[k],
                name,
            ) by {
                assert(sorted[k] == before[k]);
            }
            assert forall|k: int| rank(sorted, name) <= k < sorted.len() implies !text_before(
                #[trigger] sorted[k],
                name,
            ) by {
                if k < last {
                    assert(sorted[k] == before[k]);
                }
            }
        }
    }
}

/// Putting a name in its place keeps a list sorted and adds the name to
/// the names it holds.
pub proof fn lemma_with_name(sorted: Seq<Seq<char>>, name: Seq<char>)
    requires
        strictly_sorted(sorted),
    ensures
        lists(with_name(sorted, name), sorted.to_set().insert(name)),
{
    lemma_rank(sorted, name);
    let at = rank(sorted, name);
    if at < sorted.len() && sorted[at] == name {
        assert(sorted.contains(name));
        assert(sorted.to_set() =~= sorted.to_set().insert(name));
    } else {
        let after = sorted.insert(at, name);
        assert forall|k: int| at <= k < sorted.len() implies text_before(
            name,
            #[trigger] sorted[k],
        ) by {
            lemma_text_before_total(sorted[at], name);
            if at < k {
                assert(text_before(sorted[at], sorted[k]));
                lemma_text_before_transitive(name, sorted[at], sorted[k]);
            }
        }
        assert forall|i: int, j: int| 0 <= i < j < after.len() implies text_before(
            after[i],
            after[j],
        ) by {
            if j < at {
                assert(text_before(sorted[i], sorted[j]));
            } else if j == at {
                assert(after[i] == sorted[i]);
            } else if i < at {
                assert(text_before(sorted[i], sorted[j - 1]));
            } else if i == at {
                assert(after[j] == sorted[j - 1]);
            } else {
                assert(text_before(sorted[i - 1], sorted[j - 1]));
            }
        }
        assert forall|x: Seq<char>| after.to_set().contains(x) <==> sorted.to_set().insert(
            name,
        ).contains(x) by {
            if after.contains(x) {
                let i = choose|i: int| 0 <= i < after.len() && after[i] == x;
                if i < at {
                    assert(sorted[i] == x);
                } else if i > at {
                    assert(sorted[i - 1] == x);
                }
            }
            if sorted.contains(x) {
                let i = choose|i: int| 0 <= i < sorted.len() && sorted[i] == x;
                if i < at {
                    assert(after[i] == x);
                } else {
                    assert(after[i + 1] == x);
                }
            }
            if x == name {
                assert(after[at] == x);
            }
        }
        assert(after.to_set() =~= sorted.to_set().insert(name));
    }
}

/// The names of a list are the names before its last and its last.
pub proof fn lemma_to_set_last(items: Seq<Seq<char>>)
    requires
        items.len() > 0,
    ensures
        items.to_set() == items.drop_last().to_set().insert(items.last()),
{
    let rest = items.drop_last();
    assert forall|x: Seq<char>| items.to_set().contains(x) <==> rest.to_set().insert(
        items.last(),
    ).contains(x) by {
        if items.contains(x) {
            let k = choose|k: int| 0 <= k < items.len() && items[k] == x;
            if k < rest.len() {
                assert(rest[k] == x);
            }
        }
        if rest.contains(x) {
            let k = choose|k: int| 0 <= k < rest.len() && rest[k] == x;
            assert(items[k] == x);
        }
        if x == items.last() {
            assert(items[items.len() - 1] == x);
        }
    }
    assert(items.to_set() =~= rest.to_set().insert(items.last()));
}

/// The names of every list can be sorted: `sorted_names` holds exactly
/// the names of the list, in order and each once.
pub proof fn lemma_sorted_names_exist(items: Seq<Seq<char>>)
    ensures
        lists(sorted_names(items.to_set()), items.to_set()),
    decreases items.len(),
{
    if items.len() == 0 {
        let none = Seq::<Seq<char>>::empty();
        assert(none.to_set() =~= items.to_set());
        assert(lists(none, items.to_set()));
    } else {
        let rest = items.drop_last();
        lemma_sorted_names_exist(rest);
        lemma_with_name(sorted_names(rest.to_set()), items.last());
        lemma_to_set_last(items);
        assert(lists(with_name(sorted_names(rest.to_set()), items.last()), items.to_set()));
    }
}

/// Puts `name` in its place in a sorted list, unless it is there.
fn insert_sorted(sorted: &mut Vec<String>, name: &str)
    requires
        strictly_sorted(texts(old(sorted)@)),
    ensures
        texts(final(sorted)@) == with_name(texts(old(sorted)@), name@),
{
    let ghost before = texts(sorted@);
    let mut at: usize = 0;
    while at < sorted.len() && is_before(sorted[at].as_str(), name)
        invariant
            at <= sorted.len(),
            texts(sorted@) == before,
            forall|k: int| 0 <= k < at ==> text_before(#[trigger] before[k], name@),
        decreases sorted.len() - at,
    {
        at = at + 1;
    }
    proof {
        lemma_rank(before, name@);
        let r = rank(before, name@);
        if at < r {
            assert(text_before(before[at as int], name@));
        }
        if r < at {
            assert(text_before(before[r], name@));
        }
        assert(at == r);
    }
    let held = at < sorted.len() && same_text(sorted[at].as_str(), name);
    if !held {
        let owned = name.to_owned();
        proof {
            lemma_texts_insert(sorted@, at as int, owned);
        }
        sorted.insert(at, owned);
    }
}

/// The names of `items` in order, each once.
pub fn sorted_distinct(items: &Vec<&str>) -> (r: Vec<String>)
    ensures
        texts(r@) == sorted_names(slices(items@).to_set()),
{
    let mut sorted: Vec<String> = Vec::new();
    let mut i: usize = 0;
    proof {
        assert(texts(sorted@).to_set() =~= slices(items@).take(0).to_set());
    }
    while i < items.len()
        invariant
            i <= items.len(),
            lists(texts(sorted@), slices(items@).take(i as int).to_set()),
        decreases items.len() - i,
    {
        proof {
            let seen = slices(items@).take(i + 1);
            assert(seen.drop_last() == slices(items@).take(i as int));
            assert(seen.last() == items@[i as int]@);
            lemma_with_name(texts(sorted@), items@[i as int]@);
            lemma_to_set_last(seen);
        }
        insert_sorted(&mut sorted, items[i]);
        i = i + 1;
    }
    proof {
        assert(slices(items@).take(items.len() as int) == slices(items@));
        lemma_sorted_names(texts(sorted@), slices(items@).to_set());
    }
    sorted
}

/// The sample of `items`: they are sorted, what occurs twice is counted
/// once, and at most five are shown, with the number of the others behind
/// them.
pub fn list_sample(items: Vec<&str>) -> (r: String)
    ensures
        r@ == sample_of(slices(items@).to_set()),
{
    let sorted = sorted_distinct(&items);
    if sorted.len() > SAMPLE_SIZE {
        let mut preview: Vec<String> = Vec::new();
        let mut i: usize = 0;
        while i < SAMPLE_SIZE
            invariant
                i <= SAMPLE_SIZE < sorted.len(),
                texts(preview@) == texts(sorted@).take(i as int),
            decreases SAMPLE_SIZE - i,
        {
            proof {
                lemma_texts_push(preview@, sorted@[i as int]);
                assert(texts(sorted@).take(i + 1) =~= texts(sorted@).take(i as int).push(
                    sorted@[i as int]@,
                ));
            }
            preview.push(sorted[i].clone());
            i = i + 1;
        }
        let mut r = join(&preview, ", ");
        r.append(" … (+");
        r.append(decimal((sorted.len() - SAMPLE_SIZE) as u64).as_str());
        r.append(")");
        r
    } else {
        join(&sorted, ", ")
    }
}

/// The sample of a list of names depends on which names it holds, not on
/// how often or in what order.
pub proof fn lemma_sample_by_set(a: Seq<Seq<char>>, b: Seq<Seq<char>>)
    requires
        a.to_set() == b.to_set(),
    ensures
        sample_of(a.to_set()) == sample_of(b.to_set()),
{
}

} // verus!
