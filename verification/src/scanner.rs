//! Which entries of the installation directory are installed versions.

use crate::versions::VersionSet;
use vstd::prelude::*;

verus! {

/// The file that a version's directory must hold to count as installed, and
/// that is started to launch it.
pub const ENTRY_FILE: &'static str = "Bitwig Studio.exe";

/// One entry of the installation directory, as found on disk.
#[derive(Debug, PartialEq, Eq)]
pub struct Candidate {
    /// The entry's own name, without the directory in front.
    pub name: String,
    /// Whether the entry is a directory.
    pub is_dir: bool,
    /// Whether `ENTRY_FILE` lies directly inside it, as a regular file.
    pub has_entry_file: bool,
}

/// A `Candidate` as plain mathematical values.
pub struct CandidateView {
    pub name: Seq<char>,
    pub is_dir: bool,
    pub has_entry_file: bool,
}

impl View for Candidate {
    type V = CandidateView;

    open spec fn view(&self) -> CandidateView {
        CandidateView { name: self.name@, is_dir: self.is_dir, has_entry_file: self.has_entry_file }
    }
}

impl CandidateView {
    /// The entry is an installed version: a directory with the entry file.
    pub open spec fn installed(self) -> bool {
        self.is_dir && self.has_entry_file
    }
}

/// The entries of a listing as plain mathematical values.
pub open spec fn entries(list: Seq<Candidate>) -> Seq<CandidateView> {
    Seq::new(list.len(), |i: int| list[i]@)
}

/// What listing a directory gave: nothing when it could not be listed, else
/// its entries in the order in which they came.
pub open spec fn listing_view(listing: Option<Vec<Candidate>>) -> Option<Seq<CandidateView>> {
    match listing {
        None => None,
        Some(list) => Some(entries(list@)),
    }
}

/// The names of the installed versions among `list`.
pub open spec fn versions_among(list: Seq<CandidateView>) -> Set<Seq<char>> {
    Set::new(
        |name: Seq<char>|
            exists|i: int| 0 <= i < list.len() && #[trigger] list[i].installed() && list[i].name == name,
    )
}

/// The versions that a listing shows. A directory that could not be listed
/// shows none.
pub open spec fn versions_found(listing: Option<Seq<CandidateView>>) -> Set<Seq<char>> {
    match listing {
        None => Set::empty(),
        Some(list) => versions_among(list),
    }
}

/// Taking one more entry into account adds its name if it is an installed
/// version, and nothing otherwise.
proof fn lemma_versions_among_push(list: Seq<CandidateView>, entry: CandidateView)
    ensures
        versions_among(list.push(entry)) == if entry.installed() {
            versions_among(list).insert(entry.name)
        } else {
            versions_among(list)
        },
{
    let more = list.push(entry);
    let expected = if entry.installed() {
        versions_among(list).insert(entry.name)
    } else {
        versions_among(list)
    };
    assert forall|name: Seq<char>| versions_among(more).contains(name) implies expected.contains(
        name,
    ) by {
        let i = choose|i: int| 0 <= i < more.len() && #[trigger] more[i].installed() && more[i].name == name;
        if i < list.len() {
            assert(list[i].installed() && list[i].name == name);
        }
    }
    assert forall|name: Seq<char>| expected.contains(name) implies versions_among(more).contains(
        name,
    ) by {
        if versions_among(list).contains(name) {
            let i = choose|i: int| 0 <= i < list.len() && #[trigger] list[i].installed() && list[i].name == name;
            assert(more[i].installed() && more[i].name == name);
        } else {
            assert(more[list.len() as int].installed());
        }
    }
    assert(versions_among(more) =~= expected);
}

/// A listing shows finitely many versions.
pub proof fn lemma_versions_found_finite(listing: Option<Seq<CandidateView>>)
    ensures
        versions_found(listing).finite(),
{
    if let Some(list) = listing {
        let names = Seq::new(list.len(), |i: int| list[i].name).to_set();
        assert forall|name: Seq<char>| versions_among(list).contains(name) implies names.contains(
            name,
        ) by {
            let i = choose|i: int| 0 <= i < list.len() && #[trigger] list[i].installed() && list[i].name == name;
            assert(Seq::new(list.len(), |i: int| list[i].name)[i] == name);
        }
        vstd::set_lib::lemma_len_subset(versions_among(list), names);
    }
}

/// The installed versions that a listing of the installation directory
/// shows. `None` stands for a directory that could not be listed.
pub fn get_versions(listing: &Option<Vec<Candidate>>) -> (found: VersionSet)
    ensures
        found@ == versions_found(listing_view(*listing)),
        *listing is None ==> found@ == Set::<Seq<char>>::empty(),
{
    let mut found = VersionSet::new();
    if let Some(list) = listing {
        let n = list.len();
        let mut i: usize = 0;
        assert(versions_among(entries(list@).take(0)) =~= Set::<Seq<char>>::empty());
        while i < n
            invariant
                i <= n,
                n == list@.len(),
                found@ == versions_among(entries(list@).take(i as int)),
            decreases n - i,
        {
            let entry = &list[i];
            proof {
                let all = entries(list@);
                assert(all.take(i + 1) =~= all.take(i as int).push(all[i as int]));
                lemma_versions_among_push(all.take(i as int), all[i as int]);
            }
            if entry.is_dir && entry.has_entry_file {
                found.insert(entry.name.clone());
            }
            i += 1;
        }
        assert(entries(list@).take(n as int) =~= entries(list@));
    }
    found
}

/// The order in which a directory hands out its entries does not matter:
/// two listings with the same entries show the same versions.
pub proof fn law_scan_ignores_order(a: Seq<CandidateView>, b: Seq<CandidateView>)
    requires
        a.to_multiset() == b.to_multiset(),
    ensures
        versions_among(a) == versions_among(b),
{
    a.to_multiset_ensures();
    b.to_multiset_ensures();
    assert forall|name: Seq<char>| versions_among(a).contains(name) <==> versions_among(b).contains(
        name,
    ) by {
        if versions_among(a).contains(name) {
            let i = choose|i: int| 0 <= i < a.len() && #[trigger] a[i].installed() && a[i].name == name;
            assert(a.contains(a[i]));
            assert(a.to_multiset().count(a[i]) > 0);
            assert(b.to_multiset().count(a[i]) > 0);
            assert(b.contains(a[i]));
            let j = choose|j: int| 0 <= j < b.len() && b[j] == a[i];
            assert(b[j].installed() && b[j].name == name);
        }
        if versions_among(b).contains(name) {
            let i = choose|i: int| 0 <= i < b.len() && #[trigger] b[i].installed() && b[i].name == name;
            assert(b.contains(b[i]));
            assert(b.to_multiset().count(b[i]) > 0);
            assert(a.to_multiset().count(b[i]) > 0);
            assert(a.contains(b[i]));
            let j = choose|j: int| 0 <= j < a.len() && a[j] == b[i];
            assert(a[j].installed() && a[j].name == name);
        }
    }
    assert(versions_among(a) =~= versions_among(b));
}

} // verus!
