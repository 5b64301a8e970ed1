//! A mapping from package names to version texts that keeps the order in
//! which names first arrived and holds each name once.

use vstd::prelude::*;
use crate::text::same_text;

verus! {

/// A name with the constraint or version that belongs to it.
pub type Pair = (Seq<char>, Seq<char>);

/// No name stands at two positions.
pub open spec fn distinct_names(s: Seq<Pair>) -> bool {
    forall|i: int, j: int|
        0 <= i < s.len() && 0 <= j < s.len() && i != j ==> (#[trigger] s[i]).0 != (#[trigger] s[j]).0
}

/// `i` is the first position that holds `name`.
pub open spec fn is_position(s: Seq<Pair>, name: Seq<char>, i: int) -> bool {
    &&& 0 <= i < s.len()
    &&& s[i].0 == name
    &&& forall|j: int| 0 <= j < i ==> (#[trigger] s[j]).0 != name
}

/// The first position that holds `name`, if any does.
pub open spec fn position(s: Seq<Pair>, name: Seq<char>) -> Option<int> {
    if exists|i: int| is_position(s, name, i) {
        Some(choose|i: int| is_position(s, name, i))
    } else {
        None
    }
}

/// What the mapping gives for `name`.
pub open spec fn lookup(s: Seq<Pair>, name: Seq<char>) -> Option<Seq<char>> {
    match position(s, name) {
        Some(i) => Some(s[i].1),
        None => None,
    }
}

/// The mapping after `name` was given `version`: a name that is present keeps
/// its place and takes the new version, a new name goes to the end.
pub open spec fn inserted(s: Seq<Pair>, name: Seq<char>, version: Seq<char>) -> Seq<Pair> {
    match position(s, name) {
        Some(i) => s.update(i, (name, version)),
        None => s.push((name, version)),
    }
}

/// The mapping after the first `n` pairs of `other` were inserted one after
/// the other, so that a later pair overrides an earlier one with the same name.
pub open spec fn merged_upto(s: Seq<Pair>, other: Seq<Pair>, n: int) -> Seq<Pair>
    decreases n,
{
    if n <= 0 {
        s
    } else {
        inserted(merged_upto(s, other, n - 1), other[n - 1].0, other[n - 1].1)
    }
}

/// The mapping after every pair of `other` was inserted, in order.
pub open spec fn merged(s: Seq<Pair>, other: Seq<Pair>) -> Seq<Pair> {
    merged_upto(s, other, other.len() as int)
}

/// At most one position is the first to hold a name.
pub proof fn lemma_position_unique(s: Seq<Pair>, name: Seq<char>, i: int, k: int)
    requires
        is_position(s, name, i),
        is_position(s, name, k),
    ensures
        i == k,
{
}

/// `position` finds the first holder of a name, and finds none only where no
/// position holds it.
pub proof fn lemma_position(s: Seq<Pair>, name: Seq<char>)
    ensures
        match position(s, name) {
            Some(i) => is_position(s, name, i),
            None => forall|j: int| 0 <= j < s.len() ==> (#[trigger] s[j]).0 != name,
        },
{
    if position(s, name) is None {
        assert forall|j: int| 0 <= j < s.len() implies (#[trigger] s[j]).0 != name by {
            if s[j].0 == name {
                lemma_first_holder(s, name, j);
            }
        }
    }
}

proof fn lemma_first_holder(s: Seq<Pair>, name: Seq<char>, j: int)
    requires
        0 <= j < s.len(),
        s[j].0 == name,
    ensures
        exists|i: int| is_position(s, name, i),
    decreases j,
{
    if forall|k: int| 0 <= k < j ==> (#[trigger] s[k]).0 != name {
        assert(is_position(s, name, j));
    } else {
        let k = choose|k: int| 0 <= k < j && (#[trigger] s[k]).0 == name;
        lemma_first_holder(s, name, k);
    }
}

/// After an insertion the name gives the new version and every other name
/// gives what it gave before: the last write wins.
pub proof fn law_last_write_wins(
    s: Seq<Pair>,
    name: Seq<char>,
    version: Seq<char>,
    other: Seq<char>,
)
    ensures
        lookup(inserted(s, name, version), other) == if other == name {
            Some(version)
        } else {
            lookup(s, other)
        },
{
    let t = inserted(s, name, version);
    lemma_position(s, name);
    lemma_position(s, other);
    lemma_position(t, other);
    let at = match position(s, name) {
        Some(i) => i,
        None => s.len() as int,
    };
    if other == name {
        assert(is_position(t, name, at));
        lemma_position_unique(t, name, at, position(t, name)->0);
    } else if position(s, other) is Some {
        let k = position(s, other)->0;
        assert(is_position(t, other, k));
        lemma_position_unique(t, other, k, position(t, other)->0);
    } else if position(t, other) is Some {
        let k = position(t, other)->0;
        assert(t[k] == s[k]);
    }
}

/// An insertion keeps every name at one position only.
pub proof fn lemma_inserted_distinct(s: Seq<Pair>, name: Seq<char>, version: Seq<char>)
    requires
        distinct_names(s),
    ensures
        distinct_names(inserted(s, name, version)),
{
    lemma_position(s, name);
}

/// A merge keeps every name at one position only.
pub proof fn lemma_merged_distinct(s: Seq<Pair>, other: Seq<Pair>, n: int)
    requires
        distinct_names(s),
    ensures
        distinct_names(merged_upto(s, other, n)),
    decreases n,
{
    if n > 0 {
        lemma_merged_distinct(s, other, n - 1);
        lemma_inserted_distinct(merged_upto(s, other, n - 1), other[n - 1].0, other[n - 1].1);
    }
}

/// A mapping that holds each name once has exactly one entry for a name that
/// it holds, whatever was written to it before.
pub proof fn law_one_entry_per_name(s: Seq<Pair>, name: Seq<char>, i: int, j: int)
    requires
        distinct_names(s),
        0 <= i < s.len(),
        0 <= j < s.len(),
        s[i].0 == name,
        s[j].0 == name,
    ensures
        i == j,
        position(s, name) == Some(i),
{
    lemma_position(s, name);
}

/// After the first `n` pairs of `other` were merged in, a name that one of
/// them holds gives that pair's version, and any other name gives what it
/// gave before.
pub proof fn lemma_merged_lookup(s: Seq<Pair>, other: Seq<Pair>, n: int, name: Seq<char>)
    requires
        distinct_names(other),
        0 <= n <= other.len(),
    ensures
        forall|j: int|
            0 <= j < n && (#[trigger] other[j]).0 == name ==> lookup(
                merged_upto(s, other, n),
                name,
            ) == Some(other[j].1),
        (forall|j: int| 0 <= j < n ==> (#[trigger] other[j]).0 != name) ==> lookup(
            merged_upto(s, other, n),
            name,
        ) == lookup(s, name),
    decreases n,
{
    if n > 0 {
        lemma_merged_lookup(s, other, n - 1, name);
        law_last_write_wins(merged_upto(s, other, n - 1), other[n - 1].0, other[n - 1].1, name);
    }
}

/// A merge lets the mapping that is merged in win: a name that it holds
/// gives its version afterwards, and any other name gives what it gave
/// before.
pub proof fn law_merge_overrides(s: Seq<Pair>, other: Seq<Pair>, name: Seq<char>)
    requires
        distinct_names(other),
    ensures
        lookup(merged(s, other), name) == match lookup(other, name) {
            Some(version) => Some(version),
            None => lookup(s, name),
        },
{
    lemma_merged_lookup(s, other, other.len() as int, name);
    lemma_position(other, name);
}

/// One entry of a mapping: a package name with the version, or the
/// constraint on the version, that belongs to it.
#[derive(Clone, Debug, PartialEq, Eq)]
pub struct Entry {
    pub name: String,
    pub version: String,
}

/// The contents of a list of entries.
pub open spec fn pairs_of(list: Seq<Entry>) -> Seq<Pair> {
    Seq::new(list.len(), |i: int| (list[i].name@, list[i].version@))
}

/// A mapping from package names to version texts. Names keep the order in
/// which they first arrived, and no name is held twice.
#[derive(Debug)]
pub struct PackageMap {
    entries: Vec<Entry>,
}

impl View for PackageMap {
    type V = Seq<Pair>;

    closed spec fn view(&self) -> Seq<Pair> {
        pairs_of(self.entries@)
    }
}

impl PackageMap {
    #[verifier::type_invariant]
    closed spec fn holds_each_name_once(&self) -> bool {
        distinct_names(self@)
    }

    /// The mapping without entries.
    pub fn new() -> (m: PackageMap)
        ensures
            m@ == Seq::<Pair>::empty(),
    {
        PackageMap { entries: Vec::new() }
    }

    /// The number of entries. No two of them hold the same name.
    pub fn len(&self) -> (n: usize)
        ensures
            n == self@.len(),
            distinct_names(self@),
    {
        proof {
            use_type_invariant(self);
        }
        self.entries.len()
    }

    fn find(&self, name: &str) -> (found: Option<usize>)
        ensures
            match found {
                Some(i) => position(self@, name@) == Some(i as int) && i < self.entries.len(),
                None => position(self@, name@) is None,
            },
    {
        let mut i: usize = 0;
        while i < self.entries.len()
            invariant
                i <= self.entries.len(),
                forall|j: int| 0 <= j < i ==> (#[trigger] self@[j]).0 != name@,
            decreases self.entries.len() - i,
        {
            if same_text(self.entries[i].name.as_str(), name) {
                proof {
                    lemma_position(self@, name@);
                    lemma_position_unique(self@, name@, i as int, position(self@, name@)->0);
                }
                return Some(i);
            }
            i = i + 1;
        }
        proof {
            lemma_position(self@, name@);
        }
        None
    }

    /// The version held for `name`.
    pub fn get(&self, name: &str) -> (version: Option<String>)
        ensures
            version is Some <==> lookup(self@, name@) is Some,
            version matches Some(v) ==> lookup(self@, name@) == Some(v@),
    {
        match self.find(name) {
            Some(i) => Some(self.entries[i].version.clone()),
            None => None,
        }
    }

    /// Whether `name` is held.
    pub fn contains_name(&self, name: &str) -> (held: bool)
        ensures
            held == lookup(self@, name@) is Some,
    {
        self.find(name).is_some()
    }

    /// The entry at position `i`, in order of first arrival.
    pub fn entry(&self, i: usize) -> (e: Option<Entry>)
        ensures
            e is Some <==> i < self@.len(),
            e matches Some(entry) ==> (entry.name@, entry.version@) == self@[i as int],
    {
        if i < self.entries.len() {
            Some(
                Entry {
                    name: self.entries[i].name.clone(),
                    version: self.entries[i].version.clone(),
                },
            )
        } else {
            None
        }
    }

    /// Whether this mapping and `other` hold the same entries in the same
    /// order.
    pub fn identical(&self, other: &PackageMap) -> (same: bool)
        ensures
            same == (self@ == other@),
    {
        if self.entries.len() != other.entries.len() {
            assert(self@.len() != other@.len());
            return false;
        }
        let mut i: usize = 0;
        while i < self.entries.len()
            invariant
                i <= self.entries.len(),
                self.entries.len() == other.entries.len(),
                forall|j: int| 0 <= j < i ==> #[trigger] self@[j] == other@[j],
            decreases self.entries.len() - i,
        {
            if !(same_text(self.entries[i].name.as_str(), other.entries[i].name.as_str())
                && same_text(self.entries[i].version.as_str(), other.entries[i].version.as_str())) {
                assert(self@[i as int] != other@[i as int]);
                return false;
            }
            i = i + 1;
        }
        assert(self@ =~= other@);
        true
    }

    /// The entries, in order.
    pub fn to_entries(&self) -> (list: Vec<Entry>)
        ensures
            pairs_of(list@) == self@,
    {
        let mut list: Vec<Entry> = Vec::new();
        let mut i: usize = 0;
        while i < self.entries.len()
            invariant
                i <= self.entries.len(),
                list.len() == i,
                forall|j: int|
                    0 <= j < i ==> (#[trigger] list[j].name@, list[j].version@) == self@[j],
            decreases self.entries.len() - i,
        {
            list.push(
                Entry {
                    name: self.entries[i].name.clone(),
                    version: self.entries[i].version.clone(),
                },
            );
            i = i + 1;
        }
        list
    }

    /// A copy of this mapping.
    pub fn duplicate(&self) -> (copy: PackageMap)
        ensures
            copy@ == self@,
            distinct_names(copy@),
    {
        proof {
            use_type_invariant(self);
        }
        PackageMap { entries: self.to_entries() }
    }

    /// The mapping that holds the entries of `list`, a later entry overriding
    /// an earlier one with the same name.
    pub fn from_entries(list: &Vec<Entry>) -> (m: PackageMap)
        ensures
            m@ == merged(Seq::<Pair>::empty(), pairs_of(list@)),
            distinct_names(m@),
    {
        let mut m = PackageMap::new();
        let mut i: usize = 0;
        while i < list.len()
            invariant
                i <= list.len(),
                m@ == merged_upto(Seq::<Pair>::empty(), pairs_of(list@), i as int),
                distinct_names(m@),
            decreases list.len() - i,
        {
            m.insert(list[i].name.as_str(), list[i].version.as_str());
            i = i + 1;
        }
        m
    }

    /// Gives `name` the version `version`. The last write wins: a name that is
    /// held keeps its place and loses its earlier version.
    pub fn insert(&mut self, name: &str, version: &str)
        ensures
            final(self)@ == inserted(old(self)@, name@, version@),
            distinct_names(final(self)@),
    {
        proof {
            use_type_invariant(&*self);
            lemma_inserted_distinct(self@, name@, version@);
        }
        let entry = Entry { name: name.to_owned(), version: version.to_owned() };
        let found = self.find(name);
        let mut entries: Vec<Entry> = Vec::new();
        std::mem::swap(&mut self.entries, &mut entries);
        match found {
            Some(i) => {
                entries.set(i, entry);
            },
            None => {
                entries.push(entry);
            },
        }
        assert(pairs_of(entries@) =~= inserted(old(self)@, name@, version@));
        self.entries = entries;
    }

    /// Inserts every entry of `other`, in order, so that `other` overrides
    /// what was held for the names that both hold.
    pub fn merge(&mut self, other: &PackageMap)
        ensures
            final(self)@ == merged(old(self)@, other@),
            distinct_names(final(self)@),
    {
        proof {
            use_type_invariant(&*self);
        }
        let mut i: usize = 0;
        while i < other.entries.len()
            invariant
                i <= other.entries.len(),
                self@ == merged_upto(old(self)@, other@, i as int),
                distinct_names(self@),
            decreases other.entries.len() - i,
        {
            self.insert(other.entries[i].name.as_str(), other.entries[i].version.as_str());
            i = i + 1;
        }
    }
}

} // verus!
