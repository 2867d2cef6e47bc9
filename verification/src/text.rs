//! The dictionary order on strings, character by character.

use vstd::prelude::*;
use vstd::std_specs::iter::IteratorSpec;

verus! {

/// `a` comes strictly before `b` in dictionary order: at the first position
/// where the two differ `a` holds the smaller character, or `a` ends there
/// and `b` goes on.
pub open spec fn precedes(a: Seq<char>, b: Seq<char>) -> bool
    decreases a.len(),
{
    if b.len() == 0 {
        false
    } else if a.len() == 0 {
        true
    } else if a[0] == b[0] {
        precedes(a.drop_first(), b.drop_first())
    } else {
        a[0] < b[0]
    }
}

/// Where one string stands relative to another in dictionary order.
#[derive(Clone, Copy, Debug, PartialEq, Eq)]
pub enum Place {
    /// It comes first.
    Before,
    /// The two are the same string.
    Same,
    /// It comes second.
    After,
}

/// Finds where `a` stands relative to `b`.
pub fn str_place(a: &str, b: &str) -> (place: Place)
    ensures
        place is Before <==> precedes(a@, b@),
        place is Same <==> a@ == b@,
        place is After <==> precedes(b@, a@),
{
    let mut left = a.chars();
    let mut right = b.chars();
    loop
        invariant
            precedes(a@, b@) == precedes(left.remaining(), right.remaining()),
            precedes(b@, a@) == precedes(right.remaining(), left.remaining()),
            (a@ == b@) == (left.remaining() == right.remaining()),
            left.decrease() is Some,
        decreases left.decrease()->0,
    {
        let ghost l = left.remaining();
        let ghost r = right.remaining();
        proof {
            lemma_precedes_connected(l, r);
        }
        let x = left.next();
        let y = right.next();
        match (x, y) {
            (None, None) => {
                assert(l =~= r);
                return Place::Same;
            },
            (Some(_), None) => {
                return Place::After;
            },
            (None, Some(_)) => {
                return Place::Before;
            },
            (Some(c), Some(d)) => {
                if c < d {
                    return Place::Before;
                }
                if d < c {
                    return Place::After;
                }
                proof {
                    assert(l =~= seq![l[0]] + l.drop_first());
                    assert(r =~= seq![r[0]] + r.drop_first());
                }
            },
        }
    }
}

/// Decides `precedes` for two strings.
pub fn str_precedes(a: &str, b: &str) -> (r: bool)
    ensures
        r == precedes(a@, b@),
{
    match str_place(a, b) {
        Place::Before => true,
        _ => false,
    }
}

/// Decides whether two strings are the same.
pub fn str_same(a: &str, b: &str) -> (r: bool)
    ensures
        r == (a@ == b@),
{
    match str_place(a, b) {
        Place::Same => true,
        _ => false,
    }
}

/// No string comes before itself.
pub proof fn lemma_precedes_irreflexive(a: Seq<char>)
    ensures
        !precedes(a, a),
    decreases a.len(),
{
    if a.len() > 0 {
        lemma_precedes_irreflexive(a.drop_first());
    }
}

/// Of two different strings exactly one comes before the other.
pub proof fn lemma_precedes_connected(a: Seq<char>, b: Seq<char>)
    ensures
        a != b ==> (precedes(a, b) <==> !precedes(b, a)),
        a == b ==> !precedes(a, b) && !precedes(b, a),
    decreases a.len(),
{
    if a == b {
        lemma_precedes_irreflexive(a);
    } else if a.len() > 0 && b.len() > 0 && a[0] == b[0] {
        lemma_precedes_connected(a.drop_first(), b.drop_first());
        if a.drop_first() == b.drop_first() {
            assert(a =~= seq![a[0]] + a.drop_first());
            assert(b =~= seq![b[0]] + b.drop_first());
        }
    } else if a.len() == 0 && b.len() == 0 {
        assert(a =~= b);
    }
}

/// What comes before a string also comes before everything after it.
pub proof fn lemma_precedes_transitive(a: Seq<char>, b: Seq<char>, c: Seq<char>)
    requires
        precedes(a, b),
        precedes(b, c),
    ensures
        precedes(a, c),
    decreases a.len(),
{
    if a.len() > 0 && a[0] == b[0] && b[0] == c[0] {
        lemma_precedes_transitive(a.drop_first(), b.drop_first(), c.drop_first());
    }
}

} // verus!
