//! The manifest: the dependencies that a project declares, as its descriptor
//! lists them.

use vstd::prelude::*;
use crate::error::{Error, ErrorKind};
use crate::json::{
    json_members_at, json_with_member, members_at, members_of, with_member, Member, MemberView,
};
use crate::packages::{inserted, merged, merged_upto, PackageMap, Pair};
use crate::registry::{all_constrained, collect_constraints, constraints_of, Failure};

verus! {

/// The declared dependencies of a project: package names with the
/// constraints on their versions.
#[derive(Debug)]
pub struct Dependencies {
    pub dependencies: PackageMap,
}

impl Default for Dependencies {
    fn default() -> (d: Dependencies)
        ensures
            d.dependencies@ == Seq::<Pair>::empty(),
    {
        Dependencies { dependencies: PackageMap::new() }
    }
}

/// Every member has a key that is not empty.
pub open spec fn all_named(table: Seq<MemberView>) -> bool {
    forall|i: int| 0 <= i < table.len() ==> (#[trigger] table[i]).0.len() > 0
}

/// Every name of a mapping is not empty.
pub open spec fn names_present(s: Seq<Pair>) -> bool {
    forall|i: int| 0 <= i < s.len() ==> (#[trigger] s[i]).0.len() > 0
}

/// The manifest that the members of a `dependencies` object make up, each
/// a name with a constraint. An empty name or a constraint that is no string
/// is refused.
pub open spec fn manifest_of(list: Seq<MemberView>) -> Result<Seq<Pair>, Failure> {
    if all_constrained(list) && all_named(list) {
        Ok(merged(Seq::empty(), constraints_of(list)))
    } else {
        Err((ErrorKind::Parse, "package.json"@))
    }
}

/// The manifest that a descriptor holds. A descriptor that is not JSON or has
/// no `dependencies` object is refused.
pub open spec fn manifest_outcome(table: Option<Option<Seq<MemberView>>>) -> Result<
    Seq<Pair>,
    Failure,
> {
    match table {
        Some(Some(list)) => manifest_of(list),
        _ => Err((ErrorKind::Parse, "package.json"@)),
    }
}

/// The descriptor after its `dependencies` were replaced by a manifest. A
/// project without a descriptor gets one that holds nothing else.
pub open spec fn descriptor_outcome(existing: Option<Seq<char>>, manifest: Seq<Pair>) -> Result<
    Seq<char>,
    Failure,
> {
    let base = match existing {
        Some(text) => text,
        None => "{}"@,
    };
    match json_with_member(base, "dependencies"@, manifest) {
        Some(rendered) => Ok(rendered),
        None => Err((ErrorKind::Parse, "package.json"@)),
    }
}

/// Merging named pairs into named pairs leaves every name non-empty.
pub proof fn lemma_merged_names(s: Seq<Pair>, other: Seq<Pair>, n: int)
    requires
        names_present(s),
        names_present(other),
        n <= other.len(),
    ensures
        names_present(merged_upto(s, other, n)),
    decreases n,
{
    if n > 0 {
        lemma_merged_names(s, other, n - 1);
    }
}

fn every_key_present(list: &Vec<Member>) -> (all: bool)
    ensures
        all == all_named(members_of(list@)),
{
    let mut i: usize = 0;
    while i < list.len()
        invariant
            i <= list.len(),
            forall|j: int| 0 <= j < i ==> (#[trigger] members_of(list@)[j]).0.len() > 0,
        decreases list.len() - i,
    {
        if list[i].key.as_str().unicode_len() == 0 {
            assert(members_of(list@)[i as int].0.len() == 0);
            return false;
        }
        i = i + 1;
    }
    true
}

impl Dependencies {
    /// The manifest that the members of a descriptor's `dependencies` object
    /// make up.
    pub fn from_members(list: &Vec<Member>) -> (manifest: Result<Dependencies, Error>)
        ensures
            match manifest {
                Ok(m) => manifest_of(members_of(list@)) == Ok::<Seq<Pair>, Failure>(
                    m.dependencies@,
                ) && names_present(m.dependencies@),
                Err(e) => manifest_of(members_of(list@)) == Err::<Seq<Pair>, Failure>(e@),
            },
    {
        if !every_key_present(list) {
            return Err(Error::parse("package.json"));
        }
        match collect_constraints(list) {
            Some(entries) => {
                proof {
                    let pairs = constraints_of(members_of(list@));
                    lemma_merged_names(Seq::empty(), pairs, pairs.len() as int);
                }
                Ok(Dependencies { dependencies: PackageMap::from_entries(&entries) })
            },
            None => Err(Error::parse("package.json")),
        }
    }

    /// Reads the manifest out of the text of a project descriptor.
    pub fn from_package_json(contents: &str) -> (manifest: Result<Dependencies, Error>)
        ensures
            match manifest {
                Ok(m) => manifest_outcome(json_members_at(contents@, "dependencies"@)) == Ok::<
                    Seq<Pair>,
                    Failure,
                >(m.dependencies@) && names_present(m.dependencies@),
                Err(e) => manifest_outcome(json_members_at(contents@, "dependencies"@)) == Err::<
                    Seq<Pair>,
                    Failure,
                >(e@),
            },
    {
        match members_at(contents, "dependencies") {
            Some(Some(list)) => Dependencies::from_members(&list),
            _ => Err(Error::parse("package.json")),
        }
    }

    /// The text of the project descriptor after its `dependencies` were
    /// replaced by this manifest. `existing` is the descriptor's present text,
    /// where the project has one.
    pub fn write_dependencies_to_package_json(&self, existing: Option<&str>) -> (written: Result<
        String,
        Error,
    >)
        ensures
            match written {
                Ok(text) => descriptor_outcome(
                    match existing {
                        Some(t) => Some(t@),
                        None => None,
                    },
                    self.dependencies@,
                ) == Ok::<Seq<char>, Failure>(text@),
                Err(e) => descriptor_outcome(
                    match existing {
                        Some(t) => Some(t@),
                        None => None,
                    },
                    self.dependencies@,
                ) == Err::<Seq<char>, Failure>(e@),
            },
    {
        let entries = self.dependencies.to_entries();
        let base = match existing {
            Some(text) => text,
            None => "{}",
        };
        match with_member(base, "dependencies", &entries) {
            Some(rendered) => Ok(rendered),
            None => Err(Error::parse("package.json")),
        }
    }
}

} // verus!
