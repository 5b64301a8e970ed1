//! The fetch scheduler's decisions: which archives a resolved set calls for,
//! where each comes from and where it lands, and the count of finished
//! downloads that the progress report goes by.

use vstd::prelude::*;
use vstd::string::*;
use crate::packages::{PackageMap, Pair};
use crate::registry::{archive_address, archive_file_name, archive_name, archive_url};
use crate::text::{holds_char, strip_decoration, texts_of, undecorated};

verus! {

/// One archive to fetch.
#[derive(Debug, PartialEq, Eq)]
pub struct Download {
    pub name: String,
    pub version: String,
    /// Where the registry serves the archive.
    pub url: String,
    /// Where the archive is written.
    pub path: String,
}

/// Where the archive of one version of a package lands: flat in the
/// dependency directory, under the package's name and version.
pub open spec fn landing_path(name: Seq<char>, version: Seq<char>) -> Seq<char> {
    "node_modules/"@ + archive_name(name, version)
}

/// Whether a download is the one for that version of that package.
pub open spec fn is_download_of(d: Download, name: Seq<char>, version: Seq<char>) -> bool {
    &&& d.name@ == name
    &&& d.version@ == version
    &&& d.url@ == archive_address(name, version)
    &&& d.path@ == landing_path(name, version)
}

/// Whether a resolved version stands for whatever is latest.
pub open spec fn is_wildcard(version: Seq<char>) -> bool {
    undecorated(version).contains('*')
}

/// The download of one version of a package.
pub fn download_dependency(package_name: String, version: String) -> (download: Download)
    ensures
        is_download_of(download, package_name@, version@),
{
    let url = archive_url(package_name.as_str(), version.as_str());
    let mut path = String::from_str("node_modules/");
    let file = archive_file_name(package_name.as_str(), version.as_str());
    path.append(file.as_str());
    Download { name: package_name, version, url, path }
}

/// Whether a resolved version stands for whatever is latest, so that the
/// registry's `latest` tag has to be asked for before the archive can be
/// named.
pub fn needs_latest(version: &str) -> (wild: bool)
    ensures
        wild == is_wildcard(version@),
{
    let bare = strip_decoration(version);
    holds_char(bare.as_str(), '*')
}

/// The names among the first `n` entries whose versions stand for whatever
/// is latest, in the order of the entries.
pub open spec fn wildcards_upto(resolved: Seq<Pair>, n: int) -> Seq<Seq<char>>
    decreases n,
{
    if n <= 0 {
        Seq::empty()
    } else if is_wildcard(resolved[n - 1].1) {
        wildcards_upto(resolved, n - 1).push(resolved[n - 1].0)
    } else {
        wildcards_upto(resolved, n - 1)
    }
}

/// The names of the entries that stand for whatever is latest, in the order
/// of the resolved set. Each of them is to be given the version under the
/// registry's `latest` tag before downloads are scheduled.
pub fn wildcard_names(resolved: &PackageMap) -> (names: Vec<String>)
    ensures
        texts_of(names@) == wildcards_upto(resolved@, resolved@.len() as int),
{
    let mut names: Vec<String> = Vec::new();
    let n = resolved.len();
    let mut i: usize = 0;
    while i < n
        invariant
            i <= n,
            n == resolved@.len(),
            texts_of(names@) == wildcards_upto(resolved@, i as int),
        decreases n - i,
    {
        match resolved.entry(i) {
            Some(e) => {
                if needs_latest(e.version.as_str()) {
                    names.push(e.name);
                }
            },
            None => {},
        }
        i = i + 1;
    }
    names
}

/// The downloads that a resolved set calls for: one for each entry, in the
/// order of the set, each for the entry's version without its decoration.
pub fn schedule_downloads(resolved: &PackageMap) -> (downloads: Vec<Download>)
    ensures
        downloads.len() == resolved@.len(),
        forall|i: int|
            0 <= i < downloads.len() ==> is_download_of(
                #[trigger] downloads[i],
                resolved@[i].0,
                undecorated(resolved@[i].1),
            ),
{
    let mut downloads: Vec<Download> = Vec::new();
    let n = resolved.len();
    let mut i: usize = 0;
    while i < n
        invariant
            i <= n,
            n == resolved@.len(),
            downloads.len() == i,
            forall|j: int|
                0 <= j < i ==> is_download_of(
                    #[trigger] downloads[j],
                    resolved@[j].0,
                    undecorated(resolved@[j].1),
                ),
        decreases n - i,
    {
        match resolved.entry(i) {
            Some(e) => {
                let version = strip_decoration(e.version.as_str());
                downloads.push(download_dependency(e.name, version));
            },
            None => {},
        }
        i = i + 1;
    }
    downloads
}

/// The tally of the units of a batch that have finished, out of those
/// scheduled, with the names of those that failed. A batch is a round of
/// downloads or a round of extractions.
#[derive(Debug)]
pub struct Progress {
    total: usize,
    finished: usize,
    failed: Vec<String>,
}

/// A tally as contracts speak of it.
pub struct ProgressView {
    pub total: nat,
    pub finished: nat,
    pub failed: Seq<Seq<char>>,
}

impl View for Progress {
    type V = ProgressView;

    closed spec fn view(&self) -> ProgressView {
        ProgressView {
            total: self.total as nat,
            finished: self.finished as nat,
            failed: texts_of(self.failed@),
        }
    }
}

/// The tally after the unit of the package `name` has finished, well or
/// badly: one more unit has finished, and a unit that failed is noted by
/// name. A tally that has reached its total stays where it is.
pub open spec fn recorded(p: ProgressView, name: Seq<char>, succeeded: bool) -> ProgressView {
    if p.finished < p.total {
        ProgressView {
            total: p.total,
            finished: p.finished + 1,
            failed: if succeeded {
                p.failed
            } else {
                p.failed.push(name)
            },
        }
    } else {
        p
    }
}

impl Progress {
    #[verifier::type_invariant]
    closed spec fn within_total(&self) -> bool {
        self.failed@.len() <= self.finished <= self.total
    }

    /// The tally for `total` scheduled units, none of them finished.
    pub fn new(total: usize) -> (p: Progress)
        ensures
            p@ == (ProgressView { total: total as nat, finished: 0, failed: Seq::empty() }),
    {
        let p = Progress { total, finished: 0, failed: Vec::new() };
        assert(p@.failed =~= Seq::<Seq<char>>::empty());
        p
    }

    /// Counts the unit of the package `name`, which has finished. A unit
    /// that failed counts as finished too, and does not stop the others.
    pub fn record(&mut self, name: &str, succeeded: bool)
        ensures
            final(self)@ == recorded(old(self)@, name@, succeeded),
    {
        proof {
            use_type_invariant(&*self);
        }
        if self.finished < self.total {
            let mut failed: Vec<String> = Vec::new();
            std::mem::swap(&mut self.failed, &mut failed);
            if !succeeded {
                let ghost before = texts_of(failed@);
                failed.push(name.to_owned());
                assert(texts_of(failed@) =~= before.push(name@));
            }
            *self = Progress { total: self.total, finished: self.finished + 1, failed };
        }
    }

    /// How many units were scheduled.
    pub fn total(&self) -> (n: usize)
        ensures
            n == self@.total,
    {
        self.total
    }

    /// How many units have finished. Never more than were scheduled, and
    /// never fewer than have failed.
    pub fn finished(&self) -> (n: usize)
        ensures
            n == self@.finished,
            self@.failed.len() <= self@.finished <= self@.total,
    {
        proof {
            use_type_invariant(self);
        }
        self.finished
    }

    /// The names of the packages whose units failed, in the order in which
    /// they finished.
    pub fn failed(&self) -> (names: Vec<String>)
        ensures
            texts_of(names@) == self@.failed,
    {
        let mut names: Vec<String> = Vec::new();
        let mut i: usize = 0;
        while i < self.failed.len()
            invariant
                i <= self.failed.len(),
                names.len() == i,
                forall|j: int| 0 <= j < i ==> (#[trigger] names[j])@ == self.failed[j]@,
            decreases self.failed.len() - i,
        {
            names.push(self.failed[i].clone());
            i = i + 1;
        }
        names
    }

    /// Whether every scheduled unit has finished, so that the report can stop
    /// and the next round may begin.
    pub fn is_done(&self) -> (done: bool)
        ensures
            done == (self@.finished >= self@.total),
    {
        self.finished >= self.total
    }
}

} // verus!
