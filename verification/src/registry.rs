//! The registry protocol: where documents and archives are found, and what
//! the resolver reads in the registry's answers.

use vstd::prelude::*;
use vstd::string::*;
use crate::error::{Error, ErrorKind};
use crate::json::{
    find_text, json_members_at, keys_of, member_keys, member_text, members_at, members_of, Member,
    MemberView,
};
use crate::packages::{pairs_of, Entry, Pair};
use crate::resolver::{choose_version, chosen};
use crate::text::{holds_char, strip_decoration, texts_of, undecorated};
use crate::version::denoted;
use crate::version;

verus! {

/// A failure as contracts speak of it: its kind and what it concerns.
pub type Failure = (ErrorKind, Seq<char>);

/// What a package document holds, as contracts speak of it: the version under
/// the `latest` tag, and the published version texts.
pub type PackageView = (Option<Seq<char>>, Option<Seq<Seq<char>>>);

/// The address of the document that lists a package's versions.
pub open spec fn package_address(name: Seq<char>) -> Seq<char> {
    "https://registry.npmjs.org/"@ + name
}

/// The address of the manifest of one version of a package.
pub open spec fn release_address(name: Seq<char>, version: Seq<char>) -> Seq<char> {
    "https://registry.npmjs.org/"@ + name + "/"@ + version
}

/// The name under which the archive of one version of a package is kept.
pub open spec fn archive_name(name: Seq<char>, version: Seq<char>) -> Seq<char> {
    name + "-"@ + version + ".tgz"@
}

/// The address of the archive of one version of a package.
pub open spec fn archive_address(name: Seq<char>, version: Seq<char>) -> Seq<char> {
    "https://registry.npmjs.org/"@ + name + "/-/"@ + archive_name(name, version)
}

pub fn package_url(name: &str) -> (url: String)
    ensures
        url@ == package_address(name@),
{
    let mut url = String::from_str("https://registry.npmjs.org/");
    url.append(name);
    url
}

pub fn release_url(name: &str, version: &str) -> (url: String)
    ensures
        url@ == release_address(name@, version@),
{
    let mut url = package_url(name);
    url.append("/");
    url.append(version);
    url
}

pub fn archive_file_name(name: &str, version: &str) -> (file: String)
    ensures
        file@ == archive_name(name@, version@),
{
    let mut file = String::from_str(name);
    file.append("-");
    file.append(version);
    file.append(".tgz");
    file
}

pub fn archive_url(name: &str, version: &str) -> (url: String)
    ensures
        url@ == archive_address(name@, version@),
{
    let mut url = package_url(name);
    url.append("/-/");
    let file = archive_file_name(name, version);
    url.append(file.as_str());
    url
}

/// What the resolver reads in the registry's document for a package.
#[derive(Debug)]
pub struct PackageMetadata {
    /// The version under the `latest` tag.
    pub latest: Option<String>,
    /// The published version texts, in the order in which the document's
    /// `versions` object yields its keys.
    pub versions: Option<Vec<String>>,
}

impl View for PackageMetadata {
    type V = PackageView;

    open spec fn view(&self) -> PackageView {
        (
            match self.latest {
                Some(l) => Some(l@),
                None => None,
            },
            match self.versions {
                Some(v) => Some(texts_of(v@)),
                None => None,
            },
        )
    }
}

/// What the resolver reads in a package document: nothing where the text is
/// not JSON; else the string that stands for `latest` in the object at
/// `dist-tags`, and the keys of the object at `versions`, as far as the
/// document has them.
pub open spec fn package_document(text: Seq<char>) -> Option<PackageView> {
    match (json_members_at(text, "dist-tags"@), json_members_at(text, "versions"@)) {
        (Some(tags), Some(versions)) => Some(
            (
                match tags {
                    Some(list) => member_text(list, "latest"@),
                    None => None,
                },
                match versions {
                    Some(list) => Some(keys_of(list)),
                    None => None,
                },
            ),
        ),
        _ => None,
    }
}

/// The dependencies that a manifest lists under `dependencies`.
pub open spec fn dependency_table(text: Seq<char>) -> Option<Option<Seq<MemberView>>> {
    json_members_at(text, "dependencies"@)
}

/// Reads a package document.
pub fn read_package_document(text: &str) -> (doc: Option<PackageMetadata>)
    ensures
        doc is Some <==> package_document(text@) is Some,
        doc matches Some(d) ==> package_document(text@) == Some(d@),
{
    match members_at(text, "dist-tags") {
        Some(tags) => match members_at(text, "versions") {
            Some(versions) => Some(
                PackageMetadata {
                    latest: match &tags {
                        Some(list) => find_text(list, "latest"),
                        None => None,
                    },
                    versions: match &versions {
                        Some(list) => Some(member_keys(list)),
                        None => None,
                    },
                },
            ),
            None => None,
        },
        None => None,
    }
}

/// The latest version that a package document declares, or the failure to
/// find one.
pub open spec fn latest_outcome(package: Seq<char>, doc: Option<PackageView>) -> Result<
    Seq<char>,
    Failure,
> {
    match doc {
        Some((Some(latest), _)) => Ok(latest),
        _ => Err((ErrorKind::Parse, package)),
    }
}

/// The version that a constraint resolves to against a package document, or
/// the failure to resolve it. A constraint that holds `*` takes the version
/// under the `latest` tag. Any other constraint must denote a version once its
/// decoration is taken off, and takes the published version that `chosen`
/// picks for it.
pub open spec fn version_outcome(
    package: Seq<char>,
    constraint: Seq<char>,
    doc: Option<PackageView>,
) -> Result<Seq<char>, Failure> {
    match doc {
        None => Err((ErrorKind::Parse, package)),
        Some((latest, versions)) => {
            if undecorated(constraint).contains('*') {
                latest_outcome(package, doc)
            } else {
                match versions {
                    None => Err((ErrorKind::Parse, package)),
                    Some(texts) => match denoted(undecorated(constraint)) {
                        None => Err((ErrorKind::Resolution, package)),
                        Some(wanted) => match chosen(wanted, texts) {
                            Some(k) => Ok(texts[k]),
                            None => Err((ErrorKind::Resolution, package)),
                        },
                    },
                }
            }
        },
    }
}

/// Whether every declared dependency came with a constraint.
pub open spec fn all_constrained(table: Seq<MemberView>) -> bool {
    forall|i: int| 0 <= i < table.len() ==> (#[trigger] table[i]).1 is Some
}

/// The declared dependencies with their constraints.
pub open spec fn constraints_of(table: Seq<MemberView>) -> Seq<Pair> {
    Seq::new(table.len(), |i: int| (table[i].0, table[i].1->0))
}

/// The dependencies that the manifest of one version of a package declares,
/// in the manifest's order: none where it has no `dependencies` object, and a
/// failure where the manifest cannot be read or a constraint is no string.
pub open spec fn declared_outcome(
    package: Seq<char>,
    table: Option<Option<Seq<MemberView>>>,
) -> Result<Seq<Pair>, Failure> {
    match table {
        None => Err((ErrorKind::Parse, package)),
        Some(None) => Ok(Seq::empty()),
        Some(Some(list)) => if all_constrained(list) {
            Ok(constraints_of(list))
        } else {
            Err((ErrorKind::Parse, package))
        },
    }
}

/// The constraints of a decoded list of declared dependencies, or nothing
/// where one of them has none.
pub fn collect_constraints(list: &Vec<Member>) -> (entries: Option<Vec<Entry>>)
    ensures
        entries is Some <==> all_constrained(members_of(list@)),
        entries matches Some(e) ==> pairs_of(e@) == constraints_of(members_of(list@)),
{
    let mut entries: Vec<Entry> = Vec::new();
    let mut i: usize = 0;
    while i < list.len()
        invariant
            i <= list.len(),
            entries.len() == i,
            forall|j: int| 0 <= j < i ==> (#[trigger] members_of(list@)[j]).1 is Some,
            forall|j: int|
                0 <= j < i ==> (#[trigger] entries[j].name@, entries[j].version@) == constraints_of(
                    members_of(list@),
                )[j],
        decreases list.len() - i,
    {
        match &list[i].text {
            Some(c) => {
                entries.push(Entry { name: list[i].key.clone(), version: c.clone() });
            },
            None => {
                assert(members_of(list@)[i as int].1 is None);
                return None;
            },
        }
        i = i + 1;
    }
    Some(entries)
}

/// The dependencies that one version of a package declares, read from the
/// registry's answer to a request for that version's manifest.
pub fn declared_dependencies(package_name: &str, response: &str) -> (declared: Result<
    Vec<Entry>,
    Error,
>)
    ensures
        match declared {
            Ok(d) => declared_outcome(package_name@, dependency_table(response@)) == Ok::<
                Seq<Pair>,
                Failure,
            >(pairs_of(d@)),
            Err(e) => declared_outcome(package_name@, dependency_table(response@)) == Err::<
                Seq<Pair>,
                Failure,
            >(e@),
        },
{
    match members_at(response, "dependencies") {
        None => Err(Error::parse(package_name)),
        Some(None) => {
            let none: Vec<Entry> = Vec::new();
            assert(pairs_of(none@) =~= Seq::<Pair>::empty());
            Ok(none)
        },
        Some(Some(list)) => match collect_constraints(&list) {
            Some(entries) => Ok(entries),
            None => Err(Error::parse(package_name)),
        },
    }
}

/// The latest version that a decoded package document declares.
pub fn latest_of(package_name: &str, doc: &PackageMetadata) -> (latest: Result<String, Error>)
    ensures
        match latest {
            Ok(v) => latest_outcome(package_name@, Some(doc@)) == Ok::<Seq<char>, Failure>(v@),
            Err(e) => latest_outcome(package_name@, Some(doc@)) == Err::<Seq<char>, Failure>(e@),
        },
{
    match &doc.latest {
        Some(l) => Ok(l.clone()),
        None => Err(Error::parse(package_name)),
    }
}

/// The version that a constraint resolves to against a decoded package
/// document.
pub fn select_version(package_name: &str, version_req: &str, doc: &PackageMetadata) -> (version:
    Result<String, Error>)
    ensures
        match version {
            Ok(v) => version_outcome(package_name@, version_req@, Some(doc@)) == Ok::<
                Seq<char>,
                Failure,
            >(v@),
            Err(e) => version_outcome(package_name@, version_req@, Some(doc@)) == Err::<
                Seq<char>,
                Failure,
            >(e@),
        },
{
    let bare = strip_decoration(version_req);
    if holds_char(bare.as_str(), '*') {
        return latest_of(package_name, doc);
    }
    match &doc.versions {
        None => Err(Error::parse(package_name)),
        Some(published) => match version::parse(bare.as_str()) {
            None => Err(Error::resolution(package_name)),
            Some(wanted) => match choose_version(&wanted, published) {
                Some(k) => Ok(published[k].clone()),
                None => Err(Error::resolution(package_name)),
            },
        },
    }
}

/// The latest version of a package, read from the registry's answer to a
/// request for the package's document.
pub fn get_latest_version(package_name: &str, response: &str) -> (latest: Result<String, Error>)
    ensures
        match latest {
            Ok(v) => latest_outcome(package_name@, package_document(response@)) == Ok::<
                Seq<char>,
                Failure,
            >(v@),
            Err(e) => latest_outcome(package_name@, package_document(response@)) == Err::<
                Seq<char>,
                Failure,
            >(e@),
        },
{
    match read_package_document(response) {
        Some(doc) => latest_of(package_name, &doc),
        None => Err(Error::parse(package_name)),
    }
}

/// The version that a constraint resolves to, read from the registry's answer
/// to a request for the package's document.
pub fn get_version(package_name: &str, version_req: &str, response: &str) -> (version: Result<
    String,
    Error,
>)
    ensures
        match version {
            Ok(v) => version_outcome(package_name@, version_req@, package_document(response@))
                == Ok::<Seq<char>, Failure>(v@),
            Err(e) => version_outcome(package_name@, version_req@, package_document(response@))
                == Err::<Seq<char>, Failure>(e@),
        },
{
    match read_package_document(response) {
        Some(doc) => select_version(package_name, version_req, &doc),
        None => Err(Error::parse(package_name)),
    }
}

} // verus!
