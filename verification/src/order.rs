//! The order of texts by their characters, and lists kept in that order.
//!
//! A map keyed by text is a list of pairs whose keys go strictly upward, so that walking the
//! list visits the keys in order and no key occurs twice.
use vstd::prelude::*;

use crate::text;

verus! {

/// Whether `a` comes before `b`: at the first place where they differ, `a` ends or has the
/// smaller character.
pub open spec fn before(a: Seq<char>, b: Seq<char>) -> bool
    decreases a.len(),
{
    if b.len() == 0 {
        false
    } else if a.len() == 0 {
        true
    } else if a[0] == b[0] {
        before(a.drop_first(), b.drop_first())
    } else {
        a[0] < b[0]
    }
}

/// Whether keys go strictly upward.
pub open spec fn sorted(keys: Seq<Seq<char>>) -> bool {
    forall|i: int, j: int|
        0 <= i < j < keys.len() ==> before(#[trigger] keys[i], #[trigger] keys[j])
}

/// No text comes before itself.
pub proof fn before_is_irreflexive(a: Seq<char>)
    ensures
        !before(a, a),
    decreases a.len(),
{
    if a.len() > 0 {
        before_is_irreflexive(a.drop_first());
    }
}

/// What comes before something comes before what follows it.
pub proof fn before_is_transitive(a: Seq<char>, b: Seq<char>, c: Seq<char>)
    requires
        before(a, b),
        before(b, c),
    ensures
        before(a, c),
    decreases a.len(),
{
    if a.len() > 0 && a[0] == b[0] && b[0] == c[0] {
        before_is_transitive(a.drop_first(), b.drop_first(), c.drop_first());
    }
}

/// Of two texts that differ, one comes before the other.
pub proof fn before_is_total(a: Seq<char>, b: Seq<char>)
    ensures
        a == b || before(a, b) || before(b, a),
    decreases a.len(),
{
    if a.len() > 0 && b.len() > 0 {
        if a[0] == b[0] {
            before_is_total(a.drop_first(), b.drop_first());
            if a.drop_first() == b.drop_first() {
                assert(a =~= seq![a[0]] + a.drop_first());
                assert(b =~= seq![b[0]] + b.drop_first());
            }
        }
    } else if a.len() == 0 && b.len() == 0 {
        assert(a =~= b);
    }
}

/// How two texts stand to each other.
#[derive(Debug, Clone, Copy, PartialEq, Eq, Structural)]
pub enum Place {
    Before,
    Same,
    After,
}

/// How `a` stands to `b`.
pub fn compare(a: &str, b: &str) -> (r: Place)
    ensures
        (r == Place::Before) == before(a@, b@),
        (r == Place::Same) == (a@ == b@),
        (r == Place::After) == before(b@, a@),
{
    let x = text::to_chars(a);
    let y = text::to_chars(b);
    let mut i: usize = 0;
    proof {
        assert(x@.skip(0) =~= a@);
        assert(y@.skip(0) =~= b@);
        before_is_total(a@, b@);
        before_is_irreflexive(a@);
        before_is_irreflexive(b@);
        if before(a@, b@) && before(b@, a@) {
            before_is_transitive(a@, b@, a@);
        }
    }
    loop
        invariant
            x@ == a@,
            y@ == b@,
            i <= x@.len(),
            i <= y@.len(),
            x@.take(i as int) == y@.take(i as int),
            before(a@, b@) == before(x@.skip(i as int), y@.skip(i as int)),
            before(b@, a@) == before(y@.skip(i as int), x@.skip(i as int)),
            !(before(a@, b@) && before(b@, a@)),
            a@ == b@ ==> !before(a@, b@),
        decreases x@.len() - i,
    {
        if i == x.len() {
            if i == y.len() {
                assert(x@ =~= x@.take(i as int));
                assert(y@ =~= y@.take(i as int));
                return Place::Same;
            }
            return Place::Before;
        }
        if i == y.len() {
            return Place::After;
        }
        assert(x@.skip(i as int)[0] == x@[i as int]);
        assert(y@.skip(i as int)[0] == y@[i as int]);
        if x[i] != y[i] {
            assert(a@ != b@);
            if x[i] < y[i] {
                return Place::Before;
            }
            return Place::After;
        }
        assert(x@.skip(i as int).drop_first() =~= x@.skip(i + 1));
        assert(y@.skip(i as int).drop_first() =~= y@.skip(i + 1));
        assert(x@.take(i + 1) =~= x@.take(i as int).push(x@[i as int]));
        assert(y@.take(i + 1) =~= y@.take(i as int).push(y@[i as int]));
        i += 1;
    }
}

/// Keys in order are all different.
pub proof fn sorted_keys_differ(keys: Seq<Seq<char>>, i: int, j: int)
    requires
        sorted(keys),
        0 <= i < j < keys.len(),
    ensures
        keys[i] != keys[j],
{
    before_is_irreflexive(keys[i]);
}

/// Texts are ordered by the first place where they differ: the smaller character comes first, and
/// a text comes before every longer one that begins with it.
pub proof fn the_first_difference_decides(
    head: Seq<char>,
    a: char,
    b: char,
    x: Seq<char>,
    y: Seq<char>,
)
    ensures
        a != b ==> (before(head + seq![a] + x, head + seq![b] + y) <==> a < b),
        before(head, head + seq![a] + x),
        !before(head + x, head),
    decreases head.len(),
{
    let left = head + seq![a] + x;
    let right = head + seq![b] + y;
    if head.len() == 0 {
        assert(left[0] == a && right[0] == b);
    } else {
        let rest = head.drop_first();
        the_first_difference_decides(rest, a, b, x, y);
        assert(left.drop_first() =~= rest + seq![a] + x);
        assert(right.drop_first() =~= rest + seq![b] + y);
        assert(left[0] == head[0] && right[0] == head[0]);
        assert((head + x).drop_first() =~= rest + x);
        assert((head + x)[0] == head[0]);
    }
}

} // verus!
