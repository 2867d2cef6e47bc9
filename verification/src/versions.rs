//! Sets of version names, kept as a list in dictionary order.

use crate::text::{
    lemma_precedes_connected, lemma_precedes_irreflexive, lemma_precedes_transitive, precedes,
    str_place, str_same, Place,
};
use vstd::prelude::*;

verus! {

/// What a list of strings holds, as a list of character sequences.
pub open spec fn texts(names: Seq<String>) -> Seq<Seq<char>> {
    Seq::new(names.len(), |i: int| names[i]@)
}

/// Every name comes before all the names behind it.
pub open spec fn ascending(names: Seq<Seq<char>>) -> bool {
    forall|i: int, j: int|
        0 <= i < j < names.len() ==> precedes(#[trigger] names[i], #[trigger] names[j])
}

/// The members of a set as a list in dictionary order.
pub open spec fn sorted_listing(names: Set<Seq<char>>) -> Seq<Seq<char>> {
    choose|list: Seq<Seq<char>>| ascending(list) && list.to_set() == names
}

/// An ascending list holds no name twice.
pub proof fn lemma_ascending_no_duplicates(names: Seq<Seq<char>>)
    requires
        ascending(names),
    ensures
        names.no_duplicates(),
        names.to_set().len() == names.len(),
{
    assert forall|i: int, j: int| 0 <= i < names.len() && 0 <= j < names.len() && i != j implies names[i]
        != names[j] by {
        lemma_precedes_irreflexive(names[i]);
        if i < j {
            assert(precedes(names[i], names[j]));
        } else {
            assert(precedes(names[j], names[i]));
        }
    }
    names.unique_seq_to_set();
}

/// A set has at most one ascending list: two ascending lists with the same
/// members are the same list.
pub proof fn lemma_ascending_unique(p: Seq<Seq<char>>, q: Seq<Seq<char>>)
    requires
        ascending(p),
        ascending(q),
        p.to_set() == q.to_set(),
    ensures
        p == q,
    decreases p.len(),
{
    lemma_ascending_no_duplicates(p);
    lemma_ascending_no_duplicates(q);
    if p.len() == 0 {
        assert(p =~= q);
    } else {
        lemma_same_head(p, q);
        lemma_same_head(q, p);
        let p1 = p.drop_first();
        let q1 = q.drop_first();
        lemma_tail_members(p, q);
        lemma_tail_members(q, p);
        assert(p1.to_set() =~= q1.to_set());
        assert(ascending(p1)) by {
            assert forall|i: int, j: int| 0 <= i < j < p1.len() implies precedes(
                #[trigger] p1[i],
                #[trigger] p1[j],
            ) by {
                assert(precedes(p[i + 1], p[j + 1]));
            }
        }
        assert(ascending(q1)) by {
            assert forall|i: int, j: int| 0 <= i < j < q1.len() implies precedes(
                #[trigger] q1[i],
                #[trigger] q1[j],
            ) by {
                assert(precedes(q[i + 1], q[j + 1]));
            }
        }
        lemma_ascending_unique(p1, q1);
        assert(p =~= seq![p[0]] + p1);
        assert(q =~= seq![q[0]] + q1);
    }
}

/// A name put into an ascending list behind all that come before it and in
/// front of all that come after it leaves the list ascending, and is its one
/// new member.
pub proof fn lemma_insert_ascending(list: Seq<Seq<char>>, at: int, name: Seq<char>)
    requires
        ascending(list),
        0 <= at <= list.len(),
        forall|j: int| 0 <= j < at ==> precedes(list[j], name),
        forall|j: int| at <= j < list.len() ==> precedes(name, list[j]),
    ensures
        ascending(list.insert(at, name)),
        list.insert(at, name).to_set() == list.to_set().insert(name),
        !list.to_set().contains(name),
{
    let after = list.insert(at, name);
    assert forall|a: int, b: int| 0 <= a < b < after.len() implies precedes(
        #[trigger] after[a],
        #[trigger] after[b],
    ) by {
        if b < at {
            assert(precedes(list[a], list[b]));
        } else if b == at {
        } else if a < at {
            assert(precedes(list[a], list[b - 1]));
        } else if a == at {
        } else {
            assert(precedes(list[a - 1], list[b - 1]));
        }
    }
    assert forall|x: Seq<char>| after.to_set().contains(x) implies list.to_set().insert(
        name,
    ).contains(x) by {
        let k = choose|k: int| 0 <= k < after.len() && after[k] == x;
        if k < at {
            assert(list[k] == x);
        } else if k > at {
            assert(list[k - 1] == x);
        }
    }
    assert forall|x: Seq<char>| list.to_set().insert(name).contains(x) implies after.to_set().contains(
        x,
    ) by {
        if x == name {
            assert(after[at] == x);
        } else {
            let k = choose|k: int| 0 <= k < list.len() && list[k] == x;
            if k < at {
                assert(after[k] == x);
            } else {
                assert(after[k + 1] == x);
            }
        }
    }
    assert(after.to_set() =~= list.to_set().insert(name));
    assert forall|j: int| 0 <= j < list.len() implies list[j] != name by {
        lemma_precedes_irreflexive(name);
    }
}

/// How many names of `list` come before `name`.
spec fn names_before(list: Seq<Seq<char>>, name: Seq<char>) -> int
    decreases list.len(),
{
    if list.len() == 0 {
        0
    } else if precedes(list.last(), name) {
        list.len() as int
    } else {
        names_before(list.drop_last(), name)
    }
}

/// In an ascending list the names that come before `name` stand in front,
/// and those behind them do not come before it.
proof fn lemma_names_before(list: Seq<Seq<char>>, name: Seq<char>)
    requires
        ascending(list),
    ensures
        0 <= names_before(list, name) <= list.len(),
        forall|j: int| 0 <= j < names_before(list, name) ==> precedes(list[j], name),
        forall|j: int| names_before(list, name) <= j < list.len() ==> !precedes(list[j], name),
    decreases list.len(),
{
    if list.len() > 0 {
        if precedes(list.last(), name) {
            assert forall|j: int| 0 <= j < list.len() implies precedes(list[j], name) by {
                if j < list.len() - 1 {
                    assert(precedes(list[j], list[list.len() - 1]));
                    lemma_precedes_transitive(list[j], list.last(), name);
                }
            }
        } else {
            let front = list.drop_last();
            assert forall|i: int, j: int| 0 <= i < j < front.len() implies precedes(
                #[trigger] front[i],
                #[trigger] front[j],
            ) by {
                assert(precedes(list[i], list[j]));
            }
            lemma_names_before(front, name);
            assert forall|j: int| 0 <= j < names_before(list, name) implies precedes(
                list[j],
                name,
            ) by {
                assert(front[j] == list[j]);
            }
            assert forall|j: int| names_before(list, name) <= j < list.len() implies !precedes(
                list[j],
                name,
            ) by {
                if j < front.len() {
                    assert(front[j] == list[j]);
                }
            }
        }
    }
}

/// Every finite set of names has a sorted listing: an ascending list that
/// holds exactly its members.
pub proof fn lemma_sorted_listing_exists(names: Set<Seq<char>>)
    requires
        names.finite(),
    ensures
        ascending(sorted_listing(names)),
        sorted_listing(names).to_set() == names,
        sorted_listing(names).len() == names.len(),
    decreases names.len(),
{
    if names.len() == 0 {
        let none = Seq::<Seq<char>>::empty();
        assert(names =~= Set::<Seq<char>>::empty());
        assert(none.to_set() =~= names);
        assert(ascending(none));
    } else {
        let name = names.choose();
        let rest = names.remove(name);
        lemma_sorted_listing_exists(rest);
        let list = sorted_listing(rest);
        let at = names_before(list, name);
        lemma_names_before(list, name);
        assert forall|j: int| at <= j < list.len() implies precedes(name, list[j]) by {
            assert(rest.contains(list[j]));
            lemma_precedes_connected(list[j], name);
        }
        lemma_insert_ascending(list, at, name);
        assert(rest.insert(name) =~= names);
        assert(ascending(list.insert(at, name)) && list.insert(at, name).to_set() == names);
    }
    lemma_ascending_no_duplicates(sorted_listing(names));
}

/// An ascending list is the sorted listing of its members.
pub proof fn lemma_sorted_listing(list: Seq<Seq<char>>)
    requires
        ascending(list),
    ensures
        sorted_listing(list.to_set()) == list,
{
    lemma_ascending_unique(sorted_listing(list.to_set()), list);
}

/// The head of an ascending list is a member that no other list with the
/// same members puts behind its own head.
proof fn lemma_same_head(p: Seq<Seq<char>>, q: Seq<Seq<char>>)
    requires
        ascending(p),
        ascending(q),
        p.to_set() == q.to_set(),
        p.len() > 0,
        q.len() > 0,
    ensures
        p[0] == q[0] || precedes(q[0], p[0]),
{
    assert(p.to_set().contains(p[0]));
    assert(q.contains(p[0]));
    let k = choose|k: int| 0 <= k < q.len() && q[k] == p[0];
    if k > 0 {
        assert(precedes(q[0], q[k]));
    }
}

/// Behind equal heads, two ascending lists with the same members hold the
/// same members again.
proof fn lemma_tail_members(p: Seq<Seq<char>>, q: Seq<Seq<char>>)
    requires
        ascending(p),
        ascending(q),
        p.to_set() == q.to_set(),
        p.len() > 0,
        q.len() > 0,
    ensures
        p[0] == q[0],
        forall|x: Seq<char>| p.drop_first().contains(x) ==> q.drop_first().contains(x),
{
    lemma_same_head(p, q);
    lemma_same_head(q, p);
    lemma_precedes_connected(p[0], q[0]);
    assert forall|x: Seq<char>| p.drop_first().contains(x) implies q.drop_first().contains(x) by {
        let i = choose|i: int| 0 <= i < p.drop_first().len() && p.drop_first()[i] == x;
        assert(p[i + 1] == x);
        assert(precedes(p[0], p[i + 1]));
        assert(p.to_set().contains(x));
        assert(q.contains(x));
        let j = choose|j: int| 0 <= j < q.len() && q[j] == x;
        lemma_precedes_irreflexive(x);
        assert(j > 0);
        assert(q.drop_first()[j - 1] == x);
    }
}

/// A set of version names.
///
/// The names are held in dictionary order, each once, so that the set can be
/// shown as a list without further work.
#[derive(Debug)]
pub struct VersionSet {
    names: Vec<String>,
}

impl View for VersionSet {
    type V = Set<Seq<char>>;

    /// The names in the set.
    open spec fn view(&self) -> Set<Seq<char>> {
        self.listing().to_set()
    }
}

impl VersionSet {
    /// The names of the set in dictionary order.
    pub closed spec fn listing(&self) -> Seq<Seq<char>> {
        texts(self.names@)
    }

    #[verifier::type_invariant]
    spec fn in_order(&self) -> bool {
        ascending(self.listing())
    }

    /// The empty set.
    pub fn new() -> (set: VersionSet)
        ensures
            set@ == Set::<Seq<char>>::empty(),
    {
        let set = VersionSet { names: Vec::new() };
        assert(set.listing() =~= Seq::<Seq<char>>::empty());
        assert(set@ =~= Set::<Seq<char>>::empty());
        set
    }

    /// The number of names in the set.
    pub fn len(&self) -> (n: usize)
        ensures
            n == self@.len(),
    {
        proof {
            use_type_invariant(self);
            lemma_ascending_no_duplicates(self.listing());
        }
        self.names.len()
    }

    /// Whether the set holds no name.
    pub fn is_empty(&self) -> (empty: bool)
        ensures
            empty == (self@ == Set::<Seq<char>>::empty()),
    {
        let n = self.names.len();
        proof {
            if n == 0 {
                assert(self@ =~= Set::<Seq<char>>::empty());
            } else {
                assert(self@.contains(self.listing()[0]));
            }
        }
        n == 0
    }

    /// Whether `name` is in the set.
    pub fn contains(&self, name: &str) -> (found: bool)
        ensures
            found == self@.contains(name@),
    {
        let n = self.names.len();
        let mut i: usize = 0;
        while i < n
            invariant
                i <= n,
                n == self.names@.len(),
                forall|j: int| 0 <= j < i ==> self.listing()[j] != name@,
            decreases n - i,
        {
            if str_same(self.names[i].as_str(), name) {
                assert(self.listing()[i as int] == name@);
                return true;
            }
            i += 1;
        }
        false
    }

    /// The name at place `i` of the dictionary order, if there are that many.
    pub fn get(&self, i: usize) -> (name: Option<&String>)
        ensures
            i < self@.len() ==> name is Some && name->0@ == sorted_listing(self@)[i as int],
            i >= self@.len() ==> name is None,
    {
        proof {
            use_type_invariant(self);
            lemma_ascending_no_duplicates(self.listing());
            lemma_sorted_listing(self.listing());
        }
        if i < self.names.len() {
            Some(&self.names[i])
        } else {
            None
        }
    }

    /// The names of the set as a list in dictionary order.
    pub fn names(&self) -> (list: Vec<String>)
        ensures
            texts(list@) == sorted_listing(self@),
            ascending(texts(list@)),
            texts(list@).to_set() == self@,
    {
        proof {
            use_type_invariant(self);
            lemma_sorted_listing(self.listing());
        }
        let list = self.names.clone();
        assert(texts(list@) =~= self.listing());
        list
    }

    /// The set of the names in `list`, in whatever order and however often
    /// the list holds them.
    pub fn from_names(list: &Vec<String>) -> (set: VersionSet)
        ensures
            set@ == texts(list@).to_set(),
    {
        let mut set = VersionSet::new();
        let n = list.len();
        let mut i: usize = 0;
        while i < n
            invariant
                i <= n,
                n == list@.len(),
                set@ == texts(list@).take(i as int).to_set(),
            decreases n - i,
        {
            set.insert(list[i].clone());
            proof {
                let all = texts(list@);
                assert(all.take(i + 1) =~= all.take(i as int).push(all[i as int]));
                all.take(i as int).lemma_push_to_set_commute(all[i as int]);
            }
            i += 1;
        }
        assert(texts(list@).take(n as int) =~= texts(list@));
        set
    }

    /// Puts `name` into the set. Says whether it was new.
    pub fn insert(&mut self, name: String) -> (added: bool)
        ensures
            final(self)@ == old(self)@.insert(name@),
            added == !old(self)@.contains(name@),
    {
        proof {
            use_type_invariant(&*self);
        }
        let ghost before = self.listing();
        let n = self.names.len();
        let mut i: usize = 0;
        while i < n
            invariant
                i <= n,
                n == self.names@.len(),
                self.listing() == before,
                forall|j: int| 0 <= j < i ==> precedes(before[j], name@),
            ensures
                i <= n,
                i < n ==> precedes(name@, before[i as int]),
            decreases n - i,
        {
            match str_place(self.names[i].as_str(), name.as_str()) {
                Place::Before => {},
                Place::Same => {
                    assert(before[i as int] == name@);
                    assert(self@.insert(name@) =~= self@);
                    return false;
                },
                Place::After => {
                    break;
                },
            }
            i += 1;
        }
        proof {
            assert forall|j: int| i <= j < n implies precedes(name@, before[j]) by {
                if i < j {
                    assert(precedes(before[i as int], before[j]));
                    lemma_precedes_transitive(name@, before[i as int], before[j]);
                }
            }
            lemma_insert_ascending(before, i as int, name@);
        }
        let ghost text = name@;
        let mut names: Vec<String> = Vec::new();
        core::mem::swap(&mut self.names, &mut names);
        names.insert(i, name);
        assert(texts(names@) =~= before.insert(i as int, text));
        self.names = names;
        true
    }
}

impl Clone for VersionSet {
    fn clone(&self) -> (copy: VersionSet)
        ensures
            copy@ == self@,
    {
        proof {
            use_type_invariant(self);
        }
        let names = self.names.clone();
        assert(texts(names@) =~= self.listing());
        VersionSet { names }
    }
}

impl PartialEq for VersionSet {
    /// Two sets are equal when they hold the same names.
    fn eq(&self, other: &VersionSet) -> (same: bool) {
        proof {
            use_type_invariant(self);
            use_type_invariant(other);
            if self@ == other@ {
                lemma_ascending_unique(self.listing(), other.listing());
            }
        }
        let n = self.names.len();
        if n != other.names.len() {
            return false;
        }
        let mut i: usize = 0;
        while i < n
            invariant
                i <= n,
                n == self.names@.len(),
                n == other.names@.len(),
                self@ == other@ ==> self.listing() == other.listing(),
                forall|j: int| 0 <= j < i ==> self.listing()[j] == other.listing()[j],
            decreases n - i,
        {
            if self.names[i] != other.names[i] {
                assert(self.listing()[i as int] != other.listing()[i as int]);
                return false;
            }
            i += 1;
        }
        assert(self.listing() =~= other.listing());
        true
    }
}

impl vstd::std_specs::cmp::PartialEqSpecImpl for VersionSet {
    open spec fn obeys_eq_spec() -> bool {
        true
    }

    open spec fn eq_spec(&self, other: &VersionSet) -> bool {
        self@ == other@
    }
}

impl Eq for VersionSet {

}

} // verus!
