//! Choosing one published version for a constraint.

use vstd::prelude::*;
use crate::text::texts_of;
use crate::version::{compatible, denoted, precedes, semver_outranks, Version};
use crate::version;

verus! {

/// A published version that was read and that the constraint accepts.
pub open spec fn acceptable(constraint: Version, read: Option<Version>) -> bool {
    read matches Some(v) && compatible(constraint, v)
}

/// `i` is the first position that holds the greatest acceptable triple.
pub open spec fn is_greatest_compatible(
    constraint: Version,
    read: Seq<Option<Version>>,
    i: int,
) -> bool {
    &&& 0 <= i < read.len()
    &&& acceptable(constraint, read[i])
    &&& forall|j: int|
        0 <= j < read.len() && acceptable(constraint, #[trigger] read[j]) ==> !precedes(
            read[i]->0,
            read[j]->0,
        )
    &&& forall|j: int| 0 <= j < i ==> #[trigger] read[j] != read[i]
}

/// The position that `is_greatest_compatible` singles out, if there is one.
pub open spec fn greatest_position(constraint: Version, read: Seq<Option<Version>>) -> Option<
    int,
> {
    if exists|i: int| is_greatest_compatible(constraint, read, i) {
        Some(choose|i: int| is_greatest_compatible(constraint, read, i))
    } else {
        None
    }
}

/// At most one position is the first to hold the greatest acceptable triple.
pub proof fn lemma_greatest_unique(
    constraint: Version,
    read: Seq<Option<Version>>,
    i: int,
    k: int,
)
    requires
        is_greatest_compatible(constraint, read, i),
        is_greatest_compatible(constraint, read, k),
    ensures
        i == k,
{
}

/// Some position holds the greatest acceptable triple of the first `n`
/// readings as soon as one of them is acceptable.
proof fn lemma_greatest_of_prefix(constraint: Version, read: Seq<Option<Version>>, n: int) -> (found:
    Option<int>)
    requires
        0 <= n <= read.len(),
    ensures
        match found {
            Some(i) => is_greatest_compatible(constraint, read.subrange(0, n), i),
            None => forall|j: int| 0 <= j < n ==> !acceptable(constraint, #[trigger] read[j]),
        },
    decreases n,
{
    if n == 0 {
        None
    } else {
        let earlier = lemma_greatest_of_prefix(constraint, read, n - 1);
        let before = read.subrange(0, n - 1);
        if !acceptable(constraint, read[n - 1]) {
            earlier
        } else {
            match earlier {
                Some(b) => if precedes(before[b]->0, read[n - 1]->0) {
                    Some(n - 1)
                } else {
                    Some(b)
                },
                None => Some(n - 1),
            }
        }
    }
}

/// `greatest_position` finds a position exactly when some reading is
/// acceptable, and the position it finds holds the greatest acceptable triple.
pub proof fn lemma_greatest_position(constraint: Version, read: Seq<Option<Version>>)
    ensures
        match greatest_position(constraint, read) {
            Some(i) => is_greatest_compatible(constraint, read, i),
            None => forall|j: int|
                0 <= j < read.len() ==> !acceptable(constraint, #[trigger] read[j]),
        },
{
    lemma_greatest_of_prefix(constraint, read, read.len() as int);
    assert(read.subrange(0, read.len() as int) == read);
}

/// Finds the greatest acceptable triple among the versions that were read.
/// Entries that could not be read are passed over.
pub fn greatest_compatible(constraint: &Version, read: &Vec<Option<Version>>) -> (found: Option<
    usize,
>)
    ensures
        match found {
            Some(i) => is_greatest_compatible(*constraint, read@, i as int),
            None => forall|j: int| 0 <= j < read.len() ==> !acceptable(*constraint, #[trigger] read[j]),
        },
        found is Some <==> greatest_position(*constraint, read@) is Some,
        found matches Some(i) ==> greatest_position(*constraint, read@) == Some(i as int),
{
    let mut best: Option<usize> = None;
    let mut i: usize = 0;
    while i < read.len()
        invariant
            i <= read.len(),
            match best {
                Some(b) => b < i && is_greatest_compatible(
                    *constraint,
                    read@.subrange(0, i as int),
                    b as int,
                ),
                None => forall|j: int| 0 <= j < i ==> !acceptable(*constraint, #[trigger] read[j]),
            },
        decreases read.len() - i,
    {
        if let Some(v) = read[i] {
            if v.satisfies(constraint) {
                let better = match best {
                    Some(b) => read[b].unwrap().is_before(&v),
                    None => true,
                };
                if better {
                    best = Some(i);
                }
            }
        }
        i = i + 1;
    }
    assert(read@.subrange(0, i as int) == read@);
    proof {
        if best is Some && greatest_position(*constraint, read@) is Some {
            lemma_greatest_unique(
                *constraint,
                read@,
                best->0 as int,
                greatest_position(*constraint, read@)->0,
            );
        }
    }
    best
}

/// What each published text denotes.
pub open spec fn readings(texts: Seq<Seq<char>>) -> Seq<Option<Version>> {
    Seq::new(texts.len(), |i: int| denoted(texts[i]))
}

/// Settles which of several texts with one and the same triple is taken.
/// Starting from `first`, each later position below `upto` that holds the
/// same triple takes over where semantic-version precedence ranks its text
/// above the one held so far, so a release wins over its pre-releases.
pub open spec fn settled(
    texts: Seq<Seq<char>>,
    read: Seq<Option<Version>>,
    first: int,
    upto: int,
) -> int
    decreases upto,
{
    if upto <= first + 1 || upto <= 0 {
        first
    } else {
        let held = settled(texts, read, first, upto - 1);
        if read[upto - 1] == read[first] && semver_outranks(texts[upto - 1], texts[held]) {
            upto - 1
        } else {
            held
        }
    }
}

/// Settling stays within the positions that hold the triple it started from.
pub proof fn lemma_settled_same_triple(
    texts: Seq<Seq<char>>,
    read: Seq<Option<Version>>,
    first: int,
    upto: int,
)
    requires
        0 <= first < read.len(),
        upto <= read.len(),
    ensures
        first <= settled(texts, read, first, upto) < read.len(),
        settled(texts, read, first, upto) < upto || settled(texts, read, first, upto) == first,
        read[settled(texts, read, first, upto)] == read[first],
    decreases upto,
{
    if !(upto <= first + 1 || upto <= 0) {
        lemma_settled_same_triple(texts, read, first, upto - 1);
    }
}

/// The position of the published version that a constraint resolves to: the
/// greatest acceptable triple, and among the texts that share it the one that
/// `settled` takes.
pub open spec fn chosen(constraint: Version, texts: Seq<Seq<char>>) -> Option<int> {
    match greatest_position(constraint, readings(texts)) {
        Some(first) => Some(settled(texts, readings(texts), first, texts.len() as int)),
        None => None,
    }
}

/// Where every acceptable version outside a class of acceptable versions is
/// below some published member of the class, the constraint resolves to the
/// greatest published member of the class, and to nothing only where the class
/// has no published member.
pub proof fn lemma_chosen_within(
    constraint: Version,
    texts: Seq<Seq<char>>,
    class: spec_fn(Version) -> bool,
)
    requires
        forall|v: Version| #[trigger] class(v) ==> compatible(constraint, v),
        forall|j: int|
            0 <= j < texts.len() && acceptable(constraint, #[trigger] readings(texts)[j])
                && !class(readings(texts)[j]->0) ==> exists|k: int|
                0 <= k < texts.len() && (#[trigger] readings(texts)[k]) is Some && class(
                    readings(texts)[k]->0,
                ) && precedes(readings(texts)[j]->0, readings(texts)[k]->0),
    ensures
        match chosen(constraint, texts) {
            Some(k) => {
                &&& 0 <= k < texts.len()
                &&& readings(texts)[k] is Some
                &&& class(readings(texts)[k]->0)
                &&& forall|j: int|
                    0 <= j < texts.len() && (#[trigger] readings(texts)[j]) is Some && class(
                        readings(texts)[j]->0,
                    ) ==> !precedes(readings(texts)[k]->0, readings(texts)[j]->0)
            },
            None => forall|j: int|
                0 <= j < texts.len() ==> !((#[trigger] readings(texts)[j]) is Some && class(
                    readings(texts)[j]->0,
                )),
        },
{
    let read = readings(texts);
    lemma_greatest_position(constraint, read);
    if greatest_position(constraint, read) is Some {
        let first = greatest_position(constraint, read)->0;
        lemma_settled_same_triple(texts, read, first, texts.len() as int);
        assert(class(readings(texts)[first]->0));
    }
}

/// A constraint with a major number above zero resolves to the greatest
/// published version with that major number, and fails exactly when no
/// published version has it.
pub proof fn law_positive_major(constraint: Version, texts: Seq<Seq<char>>)
    requires
        constraint.major > 0,
    ensures
        match chosen(constraint, texts) {
            Some(k) => {
                &&& 0 <= k < texts.len()
                &&& denoted(texts[k]) is Some
                &&& denoted(texts[k])->0.major == constraint.major
                &&& forall|j: int|
                    0 <= j < texts.len() && (#[trigger] denoted(texts[j])) is Some && denoted(
                        texts[j],
                    )->0.major == constraint.major ==> !precedes(
                        denoted(texts[k])->0,
                        denoted(texts[j])->0,
                    )
            },
            None => forall|j: int|
                0 <= j < texts.len() ==> !((#[trigger] denoted(texts[j])) is Some && denoted(
                    texts[j],
                )->0.major == constraint.major),
        },
{
    let class = |v: Version| v.major == constraint.major;
    lemma_chosen_within(constraint, texts, class);
    assert forall|j: int| 0 <= j < texts.len() implies #[trigger] denoted(texts[j]) == readings(
        texts,
    )[j] by {}
}

/// A published version on the line `0.minor`.
pub open spec fn on_minor_line(read: Option<Version>, minor: u64) -> bool {
    read matches Some(v) && v.major == 0 && v.minor == minor
}

/// A constraint `0.Y.Z` resolves to the greatest published version on the line
/// `0.Y`, provided that every other published version that the compatibility
/// rule accepts is below some published version on that line. Without the
/// proviso the rule lets a version off the line win, for it accepts every
/// version with major number zero.
pub proof fn law_zero_major(constraint: Version, texts: Seq<Seq<char>>)
    requires
        constraint.major == 0,
        forall|j: int|
            0 <= j < texts.len() && acceptable(constraint, #[trigger] denoted(texts[j]))
                && !on_minor_line(denoted(texts[j]), constraint.minor) ==> exists|k: int|
                0 <= k < texts.len() && on_minor_line(
                    #[trigger] denoted(texts[k]),
                    constraint.minor,
                ) && precedes(denoted(texts[j])->0, denoted(texts[k])->0),
    ensures
        match chosen(constraint, texts) {
            Some(k) => {
                &&& 0 <= k < texts.len()
                &&& on_minor_line(denoted(texts[k]), constraint.minor)
                &&& forall|j: int|
                    0 <= j < texts.len() && on_minor_line(
                        #[trigger] denoted(texts[j]),
                        constraint.minor,
                    ) ==> !precedes(denoted(texts[k])->0, denoted(texts[j])->0)
            },
            None => forall|j: int|
                0 <= j < texts.len() ==> !on_minor_line(
                    #[trigger] denoted(texts[j]),
                    constraint.minor,
                ),
        },
{
    let class = |v: Version| v.major == 0 && v.minor == constraint.minor;
    assert forall|j: int|
        0 <= j < texts.len() && acceptable(constraint, #[trigger] readings(texts)[j]) && !class(
            readings(texts)[j]->0,
        ) implies exists|k: int|
        0 <= k < texts.len() && (#[trigger] readings(texts)[k]) is Some && class(
            readings(texts)[k]->0,
        ) && precedes(readings(texts)[j]->0, readings(texts)[k]->0) by {
        let k = choose|k: int|
            0 <= k < texts.len() && on_minor_line(#[trigger] denoted(texts[k]), constraint.minor)
                && precedes(denoted(texts[j])->0, denoted(texts[k])->0);
        assert(readings(texts)[k] == denoted(texts[k]));
    }
    lemma_chosen_within(constraint, texts, class);
    assert forall|j: int|
        0 <= j < texts.len() && on_minor_line(
            #[trigger] denoted(texts[j]),
            constraint.minor,
        ) implies (readings(texts)[j]) is Some && class(readings(texts)[j]->0) by {}
}

/// A constraint `0.0.Z` resolves to a published `0.0.Z`, provided that every
/// other published version that the compatibility rule accepts is below
/// `0.0.Z` and `0.0.Z` is published when any of them is. Without the proviso
/// the rule lets another version win, for it accepts every version with major
/// number zero.
pub proof fn law_zero_minor(constraint: Version, texts: Seq<Seq<char>>)
    requires
        constraint.major == 0,
        constraint.minor == 0,
        forall|j: int|
            0 <= j < texts.len() && acceptable(constraint, #[trigger] denoted(texts[j]))
                && denoted(texts[j]) != Some(constraint) ==> precedes(
                denoted(texts[j])->0,
                constraint,
            ) && exists|k: int| 0 <= k < texts.len() && #[trigger] denoted(texts[k]) == Some(constraint),
    ensures
        match chosen(constraint, texts) {
            Some(k) => 0 <= k < texts.len() && denoted(texts[k]) == Some(constraint),
            None => forall|j: int|
                0 <= j < texts.len() ==> #[trigger] denoted(texts[j]) != Some(constraint),
        },
{
    let class = |v: Version| v == constraint;
    assert forall|j: int|
        0 <= j < texts.len() && acceptable(constraint, #[trigger] readings(texts)[j]) && !class(
            readings(texts)[j]->0,
        ) implies exists|k: int|
        0 <= k < texts.len() && (#[trigger] readings(texts)[k]) is Some && class(
            readings(texts)[k]->0,
        ) && precedes(readings(texts)[j]->0, readings(texts)[k]->0) by {
        let k = choose|k: int| 0 <= k < texts.len() && #[trigger] denoted(texts[k]) == Some(constraint);
        assert(readings(texts)[k] == denoted(texts[k]));
    }
    lemma_chosen_within(constraint, texts, class);
    assert forall|j: int|
        0 <= j < texts.len() && #[trigger] denoted(texts[j]) == Some(constraint) implies (readings(
        texts,
    )[j]) is Some && class(readings(texts)[j]->0) by {}
}

fn settle(published: &Vec<String>, read: &Vec<Option<Version>>, first: usize) -> (held: usize)
    requires
        first < read.len(),
        read.len() == published.len(),
        read[first as int] is Some,
    ensures
        held == settled(texts_of(published@), read@, first as int, read.len() as int),
        first <= held < read.len(),
        read[held as int] == read[first as int],
{
    let start = read[first].unwrap();
    let mut held: usize = first;
    let mut j: usize = first + 1;
    while j < read.len()
        invariant
            first < j <= read.len(),
            read.len() == published.len(),
            read[first as int] == Some(start),
            first <= held < j,
            held == settled(texts_of(published@), read@, first as int, j as int),
            read[held as int] == read[first as int],
        decreases read.len() - j,
    {
        let same = match read[j] {
            Some(v) => v == start,
            None => false,
        };
        if same && version::outranks(published[j].as_str(), published[held].as_str()) {
            held = j;
        }
        j = j + 1;
    }
    held
}

/// Picks the published version that a constraint resolves to.
pub fn choose_version(constraint: &Version, published: &Vec<String>) -> (pick: Option<usize>)
    ensures
        pick is Some <==> chosen(*constraint, texts_of(published@)) is Some,
        pick matches Some(k) ==> k < published.len() && chosen(
            *constraint,
            texts_of(published@),
        ) == Some(k as int),
{
    let read = read_all(published);
    assert(read@ =~= readings(texts_of(published@)));
    match greatest_compatible(constraint, &read) {
        Some(first) => Some(settle(published, &read, first)),
        None => None,
    }
}

/// Reads every published version text.
pub fn read_all(published: &Vec<String>) -> (read: Vec<Option<Version>>)
    ensures
        read.len() == published.len(),
        forall|i: int| 0 <= i < read.len() ==> #[trigger] read[i] == denoted(published[i]@),
{
    let mut read: Vec<Option<Version>> = Vec::new();
    let mut i: usize = 0;
    while i < published.len()
        invariant
            i <= published.len(),
            read.len() == i,
            forall|j: int| 0 <= j < i ==> #[trigger] read[j] == denoted(published[j]@),
        decreases published.len() - i,
    {
        read.push(version::parse(published[i].as_str()));
        i = i + 1;
    }
    read
}

} // verus!
