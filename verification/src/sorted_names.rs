//! Names in the order of their characters.

use crate::text::texts;
use vstd::prelude::*;

verus! {

/// Whether a text comes before another one: at the first character in which they
/// differ it has the smaller one, or it ends where the other one goes on.
pub open spec fn text_before(a: Seq<char>, b: Seq<char>) -> bool
    decreases a.len(),
{
    if b.len() == 0 {
        false
    } else if a.len() == 0 {
        true
    } else if a[0] != b[0] {
        (a[0] as int) < (b[0] as int)
    } else {
        text_before(a.drop_first(), b.drop_first())
    }
}

/// Every name comes before all that follow it.
pub open spec fn in_name_order(names: Seq<Seq<char>>) -> bool {
    forall|i: int, j: int|
        0 <= i < j < names.len() ==> text_before(#[trigger] names[i], #[trigger] names[j])
}

proof fn lemma_before_is_transitive(a: Seq<char>, b: Seq<char>, c: Seq<char>)
    requires
        text_before(a, b),
        text_before(b, c),
    ensures
        text_before(a, c),
    decreases a.len(),
{
    if a.len() > 0 && a[0] == b[0] && b[0] == c[0] {
        lemma_before_is_transitive(a.drop_first(), b.drop_first(), c.drop_first());
    }
}

proof fn lemma_before_is_total(a: Seq<char>, b: Seq<char>)
    ensures
        a == b || text_before(a, b) || text_before(b, a),
    decreases a.len(),
{
    if a.len() == 0 && b.len() == 0 {
        assert(a =~= b);
    } else if a.len() > 0 && b.len() > 0 && a[0] == b[0] {
        lemma_before_is_total(a.drop_first(), b.drop_first());
        if a.drop_first() == b.drop_first() {
            assert(a =~= seq![a[0]] + a.drop_first());
            assert(b =~= seq![b[0]] + b.drop_first());
        }
    }
}

/// Whether a name comes before another one.
fn is_before(a: &String, b: &String) -> (before: bool)
    ensures
        before == text_before(a@, b@),
{
    let left = a.as_str();
    let right = b.as_str();
    let n: usize = left.unicode_len();
    let m: usize = right.unicode_len();
    let mut i: usize = 0;
    assert(a@.skip(0) =~= a@);
    assert(b@.skip(0) =~= b@);
    while i < m
        invariant
            left@ == a@,
            right@ == b@,
            n == a@.len(),
            m == b@.len(),
            i <= n,
            i <= m,
            text_before(a@, b@) == text_before(a@.skip(i as int), b@.skip(i as int)),
        decreases m - i,
    {
        if i == n {
            return true;
        }
        let x: char = left.get_char(i);
        let y: char = right.get_char(i);
        assert(a@.skip(i as int)[0] == x && b@.skip(i as int)[0] == y);
        if x != y {
            return (x as u32) < (y as u32);
        }
        assert(a@.skip(i as int).drop_first() =~= a@.skip(i + 1));
        assert(b@.skip(i as int).drop_first() =~= b@.skip(i + 1));
        i = i + 1;
    }
    false
}

/// Puts a name into its place, unless it is there already.
pub(crate) fn insert_name(names: &mut Vec<String>, name: String)
    requires
        in_name_order(texts(old(names)@)),
    ensures
        in_name_order(texts(final(names)@)),
        forall|text: Seq<char>| #[trigger]
            texts(final(names)@).contains(text) <==> texts(old(names)@).contains(text) || text
                == name@,
{
    let ghost before = texts(names@);
    let ghost added = name@;
    let mut i: usize = 0;
    while i < names.len() && is_before(&names[i], &name)
        invariant
            i <= names.len(),
            before == texts(names@),
            added == name@,
            forall|j: int| 0 <= j < i ==> text_before(#[trigger] before[j], added),
        decreases names.len() - i,
    {
        assert(before[i as int] == names@[i as int]@);
        i = i + 1;
    }
    if i < names.len() && names[i] == name {
        assert(before[i as int] == added);
        return;
    }
    proof {
        if i < names.len() {
            lemma_before_is_total(before[i as int], added);
        }
        assert forall|j: int| i <= j < before.len() implies text_before(
            added,
            #[trigger] before[j],
        ) by {
            if j > i {
                lemma_before_is_transitive(added, before[i as int], before[j]);
            }
        }
    }
    names.insert(i, name);
    proof {
        let after = texts(names@);
        assert(after =~= before.insert(i as int, added));
        assert forall|a: int, b: int| 0 <= a < b < after.len() implies text_before(
            #[trigger] after[a],
            #[trigger] after[b],
        ) by {
            let old_a = if a < i {
                a
            } else {
                a - 1
            };
            let old_b = if b < i {
                b
            } else {
                b - 1
            };
            if a != i && b != i {
                assert(after[a] == before[old_a] && after[b] == before[old_b]);
            } else if a == i {
                assert(after[b] == before[old_b]);
            } else {
                assert(after[a] == before[old_a]);
            }
        }
        assert forall|text: Seq<char>| #[trigger] after.contains(text) <==> before.contains(text)
            || text == added by {
            if before.contains(text) {
                let j = choose|j: int| 0 <= j < before.len() && before[j] == text;
                if j < i {
                    assert(after[j] == text);
                } else {
                    assert(after[j + 1] == text);
                }
            }
            if text == added {
                assert(after[i as int] == text);
            }
            if after.contains(text) && text != added {
                let j = choose|j: int| 0 <= j < after.len() && after[j] == text;
                if j < i {
                    assert(before[j] == text);
                } else {
                    assert(before[j - 1] == text);
                }
            }
        }
    }
}

} // verus!
