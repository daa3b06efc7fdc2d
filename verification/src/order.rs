//! The order of texts, by their characters.
use crate::text;
use vstd::prelude::*;

verus! {

/// Whether one text comes before another.
pub open spec fn before(a: Seq<char>, b: Seq<char>) -> bool
    decreases a.len(),
{
    if b.len() == 0 {
        false
    } else if a.len() == 0 {
        true
    } else if a[0] == b[0] {
        before(a.skip(1), b.skip(1))
    } else {
        a[0] < b[0]
    }
}

/// Of two different texts one comes before the other.
pub proof fn lemma_total(a: Seq<char>, b: Seq<char>)
    ensures
        before(a, b) || before(b, a) || a == b,
    decreases a.len(),
{
    if a.len() > 0 && b.len() > 0 && a[0] == b[0] {
        lemma_total(a.skip(1), b.skip(1));
        if a.skip(1) == b.skip(1) {
            assert(a =~= seq![a[0]] + a.skip(1));
            assert(b =~= seq![b[0]] + b.skip(1));
        }
    } else if a.len() == 0 && b.len() == 0 {
        assert(a =~= b);
    }
}

/// No text comes before itself, nor before one that comes before it.
pub proof fn lemma_strict(a: Seq<char>, b: Seq<char>)
    requires
        before(a, b),
    ensures
        !before(b, a),
        a != b,
    decreases a.len(),
{
    if a.len() > 0 && a[0] == b[0] {
        lemma_strict(a.skip(1), b.skip(1));
    }
}

/// The order is transitive.
pub proof fn lemma_chain(a: Seq<char>, b: Seq<char>, c: Seq<char>)
    requires
        before(a, b),
        before(b, c),
    ensures
        before(a, c),
    decreases a.len(),
{
    if a.len() > 0 && a[0] == b[0] && b[0] == c[0] {
        lemma_chain(a.skip(1), b.skip(1), c.skip(1));
    }
}

/// Whether texts stand in order, each once.
pub open spec fn ascending(list: Seq<Seq<char>>) -> bool {
    forall|i: int, j: int| 0 <= i < j < list.len() ==> before(#[trigger] list[i], #[trigger] list[j])
}

/// Whether a list holds exactly the texts of a set, in order.
pub open spec fn lists(list: Seq<Seq<char>>, set: Set<Seq<char>>) -> bool {
    &&& ascending(list)
    &&& forall|s: Seq<char>| #[trigger] set.contains(s) <==> list.contains(s)
}

/// The texts of a set, in order.
pub open spec fn in_order(set: Set<Seq<char>>) -> Seq<Seq<char>> {
    choose|list: Seq<Seq<char>>| lists(list, set)
}

/// There is only one way to list a set in order.
pub proof fn lemma_one_list(a: Seq<Seq<char>>, b: Seq<Seq<char>>, set: Set<Seq<char>>)
    requires
        lists(a, set),
        lists(b, set),
    ensures
        a == b,
    decreases a.len(),
{
    if a.len() == 0 {
        if b.len() > 0 {
            assert(b.contains(b[0]));
            assert(set.contains(b[0]));
            assert(a.contains(b[0]));
        }
        assert(a =~= b);
    } else {
        assert(a.contains(a[0]));
        assert(set.contains(a[0]));
        assert(b.contains(a[0]));
        let j = choose|j: int| 0 <= j < b.len() && b[j] == a[0];
        assert(b.contains(b[0]));
        assert(set.contains(b[0]));
        assert(a.contains(b[0]));
        let i = choose|i: int| 0 <= i < a.len() && a[i] == b[0];
        if i > 0 && j > 0 {
            assert(before(a[0], a[i]));
            assert(before(b[0], b[j]));
            lemma_strict(a[0], b[0]);
        }
        assert(a[0] == b[0]);
        let rest = set.remove(a[0]);
        assert(lists(a.skip(1), rest)) by {
            lemma_rest(a, set);
        }
        assert(lists(b.skip(1), rest)) by {
            lemma_rest(b, set);
        }
        lemma_one_list(a.skip(1), b.skip(1), rest);
        assert(a =~= seq![a[0]] + a.skip(1));
        assert(b =~= seq![b[0]] + b.skip(1));
    }
}

proof fn lemma_rest(list: Seq<Seq<char>>, set: Set<Seq<char>>)
    requires
        lists(list, set),
        list.len() > 0,
    ensures
        lists(list.skip(1), set.remove(list[0])),
{
    let rest = list.skip(1);
    let smaller = set.remove(list[0]);
    assert forall|i: int, j: int| 0 <= i < j < rest.len() implies before(
        #[trigger] rest[i],
        #[trigger] rest[j],
    ) by {
        assert(before(list[i + 1], list[j + 1]));
    }
    assert forall|s: Seq<char>| #[trigger] smaller.contains(s) <==> rest.contains(s) by {
        if smaller.contains(s) {
            assert(list.contains(s));
            let k = choose|k: int| 0 <= k < list.len() && list[k] == s;
            assert(rest[k - 1] == s);
        }
        if rest.contains(s) {
            let k = choose|k: int| 0 <= k < rest.len() && rest[k] == s;
            assert(list[k + 1] == s);
            assert(list.contains(s));
            assert(before(list[0], list[k + 1]));
            lemma_strict(list[0], s);
        }
    }
}

/// A list in order is the one of its set.
pub proof fn lemma_in_order(list: Seq<Seq<char>>, set: Set<Seq<char>>)
    requires
        lists(list, set),
    ensures
        in_order(set) == list,
{
    lemma_one_list(in_order(set), list, set);
}

/// A list in order with one more text at its place.
pub open spec fn with_text(list: Seq<Seq<char>>, item: Seq<char>) -> Seq<Seq<char>>
    decreases list.len(),
{
    if list.len() == 0 || before(list.last(), item) {
        list.push(item)
    } else {
        with_text(list.drop_last(), item).push(list.last())
    }
}

proof fn lemma_with_text(list: Seq<Seq<char>>, item: Seq<char>)
    requires
        ascending(list),
        !list.contains(item),
    ensures
        ascending(with_text(list, item)),
        forall|s: Seq<char>|
            #[trigger] with_text(list, item).contains(s) <==> list.contains(s) || s == item,
    decreases list.len(),
{
    let all = with_text(list, item);
    if list.len() == 0 || before(list.last(), item) {
        assert forall|i: int, j: int| 0 <= i < j < all.len() implies before(
            #[trigger] all[i],
            #[trigger] all[j],
        ) by {
            if j == all.len() - 1 && i < list.len() - 1 {
                assert(before(list[i], list[list.len() - 1]));
                lemma_chain(list[i], list.last(), item);
            } else if j < list.len() {
                assert(before(list[i], list[j]));
            }
        }
        assert forall|s: Seq<char>| #[trigger] all.contains(s) <==> list.contains(s) || s == item by {
            if list.contains(s) {
                let k = choose|k: int| 0 <= k < list.len() && list[k] == s;
                assert(all[k] == s);
            }
            assert(all[all.len() - 1] == item);
            if all.contains(s) {
                let k = choose|k: int| 0 <= k < all.len() && all[k] == s;
                if k < list.len() {
                    assert(list[k] == s);
                }
            }
        }
    } else {
        let head = list.drop_last();
        let last = list.last();
        assert forall|s: Seq<char>| list.contains(s) <==> head.contains(s) || s == last by {
            if list.contains(s) {
                let k = choose|k: int| 0 <= k < list.len() && list[k] == s;
                if k < head.len() {
                    assert(head[k] == s);
                }
            }
            if head.contains(s) {
                let k = choose|k: int| 0 <= k < head.len() && head[k] == s;
                assert(list[k] == s);
            }
            assert(list[list.len() - 1] == last);
        }
        assert(ascending(head)) by {
            assert forall|i: int, j: int| 0 <= i < j < head.len() implies before(
                #[trigger] head[i],
                #[trigger] head[j],
            ) by {
                assert(before(list[i], list[j]));
            }
        }
        lemma_with_text(head, item);
        let known = with_text(head, item);
        assert(list.contains(last));
        lemma_total(item, last);
        assert forall|i: int, j: int| 0 <= i < j < all.len() implies before(
            #[trigger] all[i],
            #[trigger] all[j],
        ) by {
            if j == all.len() - 1 {
                assert(known.contains(known[i]));
                if known[i] != item {
                    let k = choose|k: int| 0 <= k < head.len() && head[k] == known[i];
                    assert(before(list[k], list[list.len() - 1]));
                }
            } else {
                assert(before(known[i], known[j]));
            }
        }
        assert forall|s: Seq<char>| #[trigger] all.contains(s) <==> list.contains(s) || s == item by {
            if known.contains(s) {
                let k = choose|k: int| 0 <= k < known.len() && known[k] == s;
                assert(all[k] == s);
            }
            assert(all[all.len() - 1] == last);
            if all.contains(s) {
                let k = choose|k: int| 0 <= k < all.len() && all[k] == s;
                if k < known.len() {
                    assert(known[k] == s);
                }
            }
        }
    }
}

/// Every finite set of texts can be listed in order, and is.
pub proof fn lemma_listed(set: Set<Seq<char>>)
    requires
        set.finite(),
    ensures
        lists(in_order(set), set),
    decreases set.len(),
{
    if set.len() == 0 {
        let none = Seq::<Seq<char>>::empty();
        assert(set =~= Set::empty());
        assert(lists(none, set));
    } else {
        let item = set.choose();
        let rest = set.remove(item);
        lemma_listed(rest);
        let known = in_order(rest);
        assert(!rest.contains(item));
        assert(!known.contains(item));
        lemma_with_text(known, item);
        let all = with_text(known, item);
        assert forall|s: Seq<char>| #[trigger] set.contains(s) <==> all.contains(s) by {
            assert(rest.contains(s) <==> known.contains(s));
        }
        assert(lists(all, set));
    }
}

/// Whether one text comes before another.
pub fn comes_before(a: &str, b: &str) -> (yes: bool)
    ensures
        yes == before(a@, b@),
{
    let left = text::chars_of(a);
    let right = text::chars_of(b);
    let mut i: usize = 0;
    assert(a@.skip(0) =~= a@);
    assert(b@.skip(0) =~= b@);
    while i < left.len() && i < right.len()
        invariant
            left@ == a@,
            right@ == b@,
            i <= left.len(),
            i <= right.len(),
            before(a@, b@) == before(a@.skip(i as int), b@.skip(i as int)),
        decreases left.len() - i,
    {
        assert(a@.skip(i as int).skip(1) =~= a@.skip(i as int + 1));
        assert(b@.skip(i as int).skip(1) =~= b@.skip(i as int + 1));
        if left[i] != right[i] {
            return left[i] < right[i];
        }
        i += 1;
    }
    i < right.len()
}

/// What a list of texts means.
pub open spec fn texts(list: Seq<String>) -> Seq<Seq<char>> {
    list.map_values(|s: String| s@)
}

/// Puts a text into a list in order, where it is not there yet.
pub fn insert(list: &mut Vec<String>, item: &str)
    requires
        ascending(texts(old(list)@)),
    ensures
        ascending(texts(final(list)@)),
        forall|s: Seq<char>|
            #[trigger] texts(final(list)@).contains(s) <==> texts(old(list)@).contains(s) || s
                == item@,
{
    let ghost known = texts(list@);
    let mut i: usize = 0;
    while i < list.len() && comes_before(list[i].as_str(), item)
        invariant
            known == texts(list@),
            i <= list.len(),
            forall|k: int| 0 <= k < i ==> before(#[trigger] known[k], item@),
        decreases list.len() - i,
    {
        assert(known[i as int] == list@[i as int]@);
        i += 1;
    }
    if i < list.len() && text::same(list[i].as_str(), item) {
        assert(known[i as int] == item@);
        return;
    }
    let ghost own = list@;
    let added = text::owned(item);
    list.insert(i, added);
    proof {
        let now = texts(list@);
        assert(now =~= known.insert(i as int, item@));
        if i < known.len() {
            assert(known[i as int] == own[i as int]@);
            lemma_total(known[i as int], item@);
        }
        assert forall|a: int, b: int| 0 <= a < b < now.len() implies before(
            #[trigger] now[a],
            #[trigger] now[b],
        ) by {
            if b < i {
                assert(before(known[a], known[b]));
            } else if b == i {
                assert(before(known[a], item@));
            } else if a > i {
                assert(before(known[a - 1], known[b - 1]));
            } else if a == i {
                if b - 1 > i {
                    assert(before(known[i as int], known[b - 1]));
                    lemma_chain(item@, known[i as int], known[b - 1]);
                }
            } else {
                assert(before(known[a], known[b - 1]));
            }
        }
        assert forall|s: Seq<char>| #[trigger] now.contains(s) <==> known.contains(s) || s
            == item@ by {
            if now.contains(s) {
                let k = choose|k: int| 0 <= k < now.len() && now[k] == s;
                if k < i {
                    assert(known[k] == s);
                } else if k > i {
                    assert(known[k - 1] == s);
                }
            }
            if known.contains(s) {
                let k = choose|k: int| 0 <= k < known.len() && known[k] == s;
                if k < i {
                    assert(now[k] == s);
                } else {
                    assert(now[k + 1] == s);
                }
            }
            if s == item@ {
                assert(now[i as int] == s);
            }
        }
    }
}

} // verus!
