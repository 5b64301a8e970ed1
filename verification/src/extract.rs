//! The extractor's decisions: which archive holds a package, and where its
//! contents go.

use vstd::prelude::*;
use vstd::string::*;
use crate::error::{Error, ErrorKind};
use crate::text::{contains, ends_in, ends_with, occurs_in, texts_of};

verus! {

/// Whether a file of that name can be the archive of the package `word`: it
/// ends with the archive extension and holds the package's name.
pub open spec fn is_archive_of(file: Seq<char>, word: Seq<char>) -> bool {
    ends_in(file, ".tgz"@) && occurs_in(word, file)
}

/// `i` is the first position of a listing that holds an archive of `word`.
pub open spec fn is_first_archive(listing: Seq<Seq<char>>, word: Seq<char>, i: int) -> bool {
    &&& 0 <= i < listing.len()
    &&& is_archive_of(listing[i], word)
    &&& forall|j: int| 0 <= j < i ==> !is_archive_of(#[trigger] listing[j], word)
}

/// Where a package is unpacked, and where its contents end up.
#[derive(Debug, PartialEq, Eq)]
pub struct Extraction {
    /// The archive to unpack, and to remove afterwards.
    pub archive: String,
    /// The package's directory: the archive is unpacked into it, and the
    /// package's files end up directly in it.
    pub destination: String,
    /// The wrapper directory that the archive brings along: its contents are
    /// moved up into the destination, then it is removed.
    pub payload: String,
}

/// Whether an extraction is the one of the package `name` from the archive
/// file `file` of the dependency directory.
pub open spec fn is_extraction_of(e: Extraction, name: Seq<char>, file: Seq<char>) -> bool {
    &&& e.archive@ == "node_modules/"@ + file
    &&& e.destination@ == "node_modules/"@ + name
    &&& e.payload@ == "node_modules/"@ + name + "/package"@
}

/// Finds the archive of a package among the file names of the dependency
/// directory: the first name that ends with the archive extension and holds
/// `target_word`.
pub fn find_tgz_file_with_word(listing: &Vec<String>, target_word: &str) -> (found: Option<usize>)
    ensures
        match found {
            Some(i) => is_first_archive(texts_of(listing@), target_word@, i as int),
            None => forall|j: int|
                0 <= j < listing.len() ==> !is_archive_of(
                    #[trigger] texts_of(listing@)[j],
                    target_word@,
                ),
        },
{
    let mut i: usize = 0;
    while i < listing.len()
        invariant
            i <= listing.len(),
            forall|j: int|
                0 <= j < i ==> !is_archive_of(#[trigger] texts_of(listing@)[j], target_word@),
        decreases listing.len() - i,
    {
        if ends_with(listing[i].as_str(), ".tgz") && contains(listing[i].as_str(), target_word) {
            return Some(i);
        }
        i = i + 1;
    }
    None
}

/// Plans the extraction of a package whose archive has landed. `listing`
/// holds the file names of the dependency directory. A package without an
/// archive there gives an archive failure that names the package.
pub fn extract_dependency(package_name: String, listing: &Vec<String>) -> (plan: Result<
    Extraction,
    Error,
>)
    ensures
        match plan {
            Ok(e) => exists|i: int|
                is_first_archive(texts_of(listing@), package_name@, i) && is_extraction_of(
                    e,
                    package_name@,
                    #[trigger] texts_of(listing@)[i],
                ),
            Err(e) => e@ == (ErrorKind::Archive, package_name@) && forall|j: int|
                0 <= j < listing.len() ==> !is_archive_of(
                    #[trigger] texts_of(listing@)[j],
                    package_name@,
                ),
        },
{
    match find_tgz_file_with_word(listing, package_name.as_str()) {
        Some(i) => {
            let mut archive = String::from_str("node_modules/");
            archive.append(listing[i].as_str());
            let mut destination = String::from_str("node_modules/");
            destination.append(package_name.as_str());
            let mut payload = String::from_str("node_modules/");
            payload.append(package_name.as_str());
            payload.append("/package");
            Ok(Extraction { archive, destination, payload })
        },
        None => Err(Error::archive(package_name.as_str())),
    }
}

} // verus!
