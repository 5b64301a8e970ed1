//! The resolution of a whole manifest: each declared dependency is settled on
//! a version and walked through in turn, and what is found is gathered into
//! one resolved set.

use vstd::prelude::*;
use crate::cache::{cached_for, ResolutionCache};
use crate::dependencies::Dependencies;
use crate::error::{Error, ErrorKind};
use crate::graph;
use crate::graph::{get_related_dependencies, started, Request, RequestView, Walk, WalkView};
use crate::packages::{
    distinct_names, inserted, lemma_inserted_distinct, lemma_merged_distinct, lemma_position,
    merged, pairs_of, Entry, PackageMap, Pair,
};
use crate::registry::{
    declared_outcome, dependency_table, get_version, package_document, version_outcome, Failure,
};

verus! {

/// The resolution of a manifest in progress.
#[derive(Debug)]
pub struct Resolution {
    manifest: PackageMap,
    /// How many declared dependencies were dealt with.
    direct: usize,
    resolved: PackageMap,
    /// The walk below the declared dependency in work, with the version that
    /// the dependency was settled on.
    walk: Option<(Walk, String)>,
    failed: Option<Error>,
}

/// A resolution as contracts speak of it.
pub struct ResolutionView {
    pub manifest: Seq<Pair>,
    pub direct: nat,
    pub resolved: Seq<Pair>,
    pub walk: Option<(WalkView, Seq<char>)>,
    pub failed: Option<Failure>,
}

impl View for Resolution {
    type V = ResolutionView;

    closed spec fn view(&self) -> ResolutionView {
        ResolutionView {
            manifest: self.manifest@,
            direct: self.direct as nat,
            resolved: self.resolved@,
            walk: match self.walk {
                Some((walk, version)) => Some((walk@, version@)),
                None => None,
            },
            failed: match self.failed {
                Some(e) => Some(e@),
                None => None,
            },
        }
    }
}

/// The resolution of a manifest as it begins. Where the cache holds a
/// resolved set for this very manifest, nothing is left to do and that set is
/// the result; otherwise the cache is ignored and the work starts at the first
/// declared dependency with nothing resolved.
pub open spec fn begun(manifest: Seq<Pair>, cache: Option<(Seq<Pair>, Seq<Pair>)>) -> ResolutionView {
    match cached_for(cache, manifest) {
        Some(set) => ResolutionView {
            manifest,
            direct: manifest.len(),
            resolved: set,
            walk: None,
            failed: None,
        },
        None => ResolutionView {
            manifest,
            direct: 0,
            resolved: Seq::empty(),
            walk: None,
            failed: None,
        },
    }
}

/// Whether every declared dependency was dealt with.
pub open spec fn complete(r: ResolutionView) -> bool {
    r.failed is None && r.walk is None && r.direct >= r.manifest.len()
}

/// What a resolution asks the registry for: what the walk in work asks for,
/// or, between two walks, the versions of the next declared dependency. A
/// resolution that is complete or has failed asks for nothing.
pub open spec fn wanted(r: ResolutionView) -> Option<RequestView> {
    if r.failed is Some {
        None
    } else {
        match r.walk {
            Some((walk, _)) => graph::wanted(walk),
            None => if r.direct < r.manifest.len() {
                Some(RequestView::Package { name: r.manifest[r.direct as int].0 })
            } else {
                None
            },
        }
    }
}

/// Takes in the walk in work once it is over. What the walk found is merged
/// into the resolved set, then the declared dependency itself is recorded
/// with the version it was settled on, and the next declared dependency is
/// due. A walk that failed makes the whole resolution fail.
pub open spec fn absorbed(r: ResolutionView) -> ResolutionView {
    match r.walk {
        Some((walk, version)) => match walk.outcome {
            None => r,
            Some(Err(e)) => ResolutionView { failed: Some(e), ..r },
            Some(Ok(found)) => ResolutionView {
                resolved: inserted(
                    merged(r.resolved, found),
                    r.manifest[r.direct as int].0,
                    version,
                ),
                direct: r.direct + 1,
                walk: None,
                ..r
            },
        },
        None => r,
    }
}

/// The resolution after its walk has moved: the walk is taken in at once
/// where it is over.
pub open spec fn walked(r: ResolutionView, moved: WalkView) -> ResolutionView {
    match r.walk {
        Some((_, version)) => absorbed(ResolutionView { walk: Some((moved, version)), ..r }),
        None => r,
    }
}

/// The resolution after a constraint was resolved, or could not be. Between
/// two walks the constraint is that of the next declared dependency: the
/// dependency is settled on the version and the walk below it begins. During
/// a walk the version goes to the walk. A failure makes the whole resolution
/// fail.
pub open spec fn version_taken(r: ResolutionView, version: Result<Seq<char>, Failure>) -> ResolutionView {
    if r.failed is Some {
        r
    } else {
        match r.walk {
            Some((walk, _)) => walked(r, graph::settled_into(walk, version)),
            None => if r.direct < r.manifest.len() {
                match version {
                    Ok(v) => ResolutionView {
                        walk: Some((started(r.manifest[r.direct as int].0, v), v)),
                        ..r
                    },
                    Err(e) => ResolutionView { failed: Some(e), ..r },
                }
            } else {
                r
            },
        }
    }
}

/// The resolution after the dependencies that the package in work declares
/// were read, or could not be: they go to the walk.
pub open spec fn declaration_taken(
    r: ResolutionView,
    declared: Result<Seq<Pair>, Failure>,
) -> ResolutionView {
    if r.failed is Some {
        r
    } else {
        match r.walk {
            Some((walk, _)) => walked(r, graph::declared_into(walk, declared)),
            None => r,
        }
    }
}

/// The resolution after the registry answered what it asked for. Between two
/// walks the answer is read for the version that the next declared
/// dependency resolves to; during a walk the answer goes to the walk. An
/// answer that cannot be read, or a constraint that nothing satisfies, makes
/// the whole resolution fail. A resolution that asked for nothing stays as it
/// is.
pub open spec fn answered(r: ResolutionView, body: Seq<char>) -> ResolutionView {
    if r.failed is Some {
        r
    } else {
        match r.walk {
            Some((walk, _)) => walked(r, graph::answered(walk, body)),
            None => if r.direct < r.manifest.len() {
                let declared = r.manifest[r.direct as int];
                version_taken(r, version_outcome(declared.0, declared.1, package_document(body)))
            } else {
                r
            },
        }
    }
}

/// The resolution after a request could not be carried out: it fails with a
/// network failure, unless it had asked for nothing.
pub open spec fn refused(r: ResolutionView, reason: Seq<char>) -> ResolutionView {
    if wanted(r) is None {
        r
    } else {
        ResolutionView { failed: Some((ErrorKind::Network, reason)), ..r }
    }
}

/// A resolution that begins with the cache that was made from the manifest
/// in effect is complete at once: its resolved set is the cached one, and it
/// asks the registry for nothing.
pub proof fn law_unchanged_manifest(manifest: Seq<Pair>, resolved: Seq<Pair>)
    ensures
        complete(begun(manifest, Some((manifest, resolved)))),
        begun(manifest, Some((manifest, resolved))).resolved == resolved,
        wanted(begun(manifest, Some((manifest, resolved)))) is None,
{
}

/// A resolution that begins with a cache that was made from another manifest
/// ignores it: it begins as it would without a cache, with nothing resolved,
/// and asks the registry for the versions of the first declared dependency.
pub proof fn law_changed_manifest(manifest: Seq<Pair>, recorded: Seq<Pair>, resolved: Seq<Pair>)
    requires
        recorded != manifest,
    ensures
        begun(manifest, Some((recorded, resolved))) == begun(manifest, None),
        begun(manifest, Some((recorded, resolved))).resolved == Seq::<Pair>::empty(),
        manifest.len() > 0 ==> wanted(begun(manifest, Some((recorded, resolved)))) == Some(
            RequestView::Package { name: manifest[0].0 },
        ),
{
}

/// A manifest with one dependency that declares no dependencies of its own
/// resolves to exactly that one entry: after the registry has answered with
/// the dependency's versions and with its manifest, the resolution is
/// complete and holds the dependency with the version it was settled on.
pub proof fn law_single_leaf(
    name: Seq<char>,
    constraint: Seq<char>,
    version: Seq<char>,
    listing: Seq<char>,
    declaration: Seq<char>,
)
    requires
        version_outcome(name, constraint, package_document(listing)) == Ok::<Seq<char>, Failure>(
            version,
        ),
        declared_outcome(name, dependency_table(declaration)) == Ok::<Seq<Pair>, Failure>(
            Seq::empty(),
        ),
    ensures
        complete(
            answered(answered(begun(seq![(name, constraint)], None), listing), declaration),
        ),
        answered(
            answered(begun(seq![(name, constraint)], None), listing),
            declaration,
        ).resolved == seq![(name, version)],
{
    lemma_position(Seq::<Pair>::empty(), name);
}

/// Whatever the registry answers, the resolved set goes on holding each name
/// once: two branches that settle one package on different versions leave one
/// entry for it, the one that was written last.
pub proof fn law_names_stay_apart(r: ResolutionView, body: Seq<char>)
    requires
        distinct_names(r.resolved),
    ensures
        distinct_names(answered(r, body).resolved),
{
    if r.failed is None {
        match r.walk {
            Some((walk, version)) => {
                match graph::answered(walk, body).outcome {
                    Some(Ok(found)) => {
                        lemma_merged_distinct(r.resolved, found, found.len() as int);
                        lemma_inserted_distinct(
                            merged(r.resolved, found),
                            r.manifest[r.direct as int].0,
                            version,
                        );
                    },
                    _ => {},
                }
            },
            None => {},
        }
    }
}

impl Dependencies {
    /// Begins to resolve the declared dependencies, which is where their
    /// download starts. `cache` is the stored cache, where there is one. The
    /// resolution that comes back says what to ask the registry for; once it
    /// is complete, its resolved set names the archives to fetch.
    pub fn download_dependencies(&self, cache: Option<&ResolutionCache>) -> (r: Resolution)
        ensures
            r@ == begun(
                self.dependencies@,
                match cache {
                    Some(c) => Some((c.manifest@, c.resolved@)),
                    None => None,
                },
            ),
    {
        let hit = match cache {
            Some(c) => c.lookup(self),
            None => None,
        };
        let manifest = self.dependencies.duplicate();
        match hit {
            Some(set) => Resolution {
                direct: manifest.len(),
                manifest,
                resolved: set,
                walk: None,
                failed: None,
            },
            None => Resolution {
                manifest,
                direct: 0,
                resolved: PackageMap::new(),
                walk: None,
                failed: None,
            },
        }
    }
}

impl Resolution {
    /// A walk is in work only below a declared dependency.
    #[verifier::type_invariant]
    closed spec fn walks_below_declared(&self) -> bool {
        self.walk is Some ==> self.direct < self.manifest@.len()
    }

    fn absorb(self) -> (next: Resolution)
        ensures
            next@ == absorbed(self@),
    {
        proof {
            use_type_invariant(&self);
        }
        let dealt_with = if self.direct < self.manifest.len() {
            self.direct + 1
        } else {
            self.direct
        };
        match self.walk {
            Some((walk, version)) => match walk.outcome() {
                None => Resolution {
                    manifest: self.manifest,
                    direct: self.direct,
                    resolved: self.resolved,
                    walk: Some((walk, version)),
                    failed: self.failed,
                },
                Some(Err(e)) => Resolution {
                    manifest: self.manifest,
                    direct: self.direct,
                    resolved: self.resolved,
                    walk: Some((walk, version)),
                    failed: Some(e),
                },
                Some(Ok(found)) => {
                    let mut resolved = self.resolved;
                    resolved.merge(&found);
                    match self.manifest.entry(self.direct) {
                        Some(declared) => {
                            resolved.insert(declared.name.as_str(), version.as_str());
                        },
                        None => {},
                    }
                    Resolution {
                        manifest: self.manifest,
                        direct: dealt_with,
                        resolved,
                        walk: None,
                        failed: self.failed,
                    }
                },
            },
            None => self,
        }
    }

    /// What to ask the registry for next.
    pub fn pending(&self) -> (request: Option<Request>)
        ensures
            request is Some <==> wanted(self@) is Some,
            request matches Some(r) ==> wanted(self@) == Some(r@),
    {
        if self.failed.is_some() {
            return None;
        }
        match &self.walk {
            Some(in_work) => in_work.0.pending(),
            None => match self.manifest.entry(self.direct) {
                Some(declared) => Some(Request::Package { name: declared.name }),
                None => None,
            },
        }
    }

    /// Whether every declared dependency was dealt with.
    pub fn is_complete(&self) -> (done: bool)
        ensures
            done == complete(self@),
    {
        self.failed.is_none() && self.walk.is_none() && self.direct >= self.manifest.len()
    }

    /// The failure that stopped the resolution, if one did.
    pub fn failure(&self) -> (failed: Option<Error>)
        ensures
            failed is Some <==> self@.failed is Some,
            failed matches Some(e) ==> self@.failed == Some(e@),
    {
        match &self.failed {
            Some(e) => Some(Error::new(e.kind, e.detail.as_str())),
            None => None,
        }
    }

    /// What was resolved so far. It holds each name once.
    pub fn resolved(&self) -> (set: PackageMap)
        ensures
            set@ == self@.resolved,
            distinct_names(set@),
    {
        self.resolved.duplicate()
    }

    /// The cache to store once the resolution is complete: the resolved set
    /// together with the manifest it was resolved from.
    pub fn cache(&self) -> (stored: Option<ResolutionCache>)
        ensures
            stored is Some <==> complete(self@),
            stored matches Some(c) ==> c.manifest@ == self@.manifest && c.resolved@
                == self@.resolved,
    {
        if self.is_complete() {
            Some(
                ResolutionCache {
                    manifest: self.manifest.duplicate(),
                    resolved: self.resolved.duplicate(),
                },
            )
        } else {
            None
        }
    }

    /// Takes the version that a constraint resolved to, or the failure to
    /// resolve it: between two walks for the next declared dependency, during
    /// a walk for the next child of the package in work.
    pub fn settle(self, version: Result<String, Error>) -> (next: Resolution)
        ensures
            next@ == version_taken(
                self@,
                match version {
                    Ok(v) => Ok(v@),
                    Err(e) => Err(e@),
                },
            ),
    {
        proof {
            use_type_invariant(&self);
        }
        if self.failed.is_some() {
            return self;
        }
        match self.walk {
            Some((walk, root)) => {
                let moved = Resolution {
                    manifest: self.manifest,
                    direct: self.direct,
                    resolved: self.resolved,
                    walk: Some((walk.settle(version), root)),
                    failed: None,
                };
                moved.absorb()
            },
            None => match self.manifest.entry(self.direct) {
                Some(declared) => match version {
                    Ok(version) => {
                        let walk = get_related_dependencies(
                            declared.name,
                            version.clone(),
                            &Dependencies::default(),
                            None,
                        );
                        Resolution {
                            manifest: self.manifest,
                            direct: self.direct,
                            resolved: self.resolved,
                            walk: Some((walk, version)),
                            failed: None,
                        }
                    },
                    Err(e) => Resolution {
                        manifest: self.manifest,
                        direct: self.direct,
                        resolved: self.resolved,
                        walk: None,
                        failed: Some(e),
                    },
                },
                None => self,
            },
        }
    }

    /// Takes the dependencies that the package in work declares, or the
    /// failure to read them.
    pub fn declare(self, declared: Result<Vec<Entry>, Error>) -> (next: Resolution)
        ensures
            next@ == declaration_taken(
                self@,
                match declared {
                    Ok(children) => Ok(pairs_of(children@)),
                    Err(e) => Err(e@),
                },
            ),
    {
        proof {
            use_type_invariant(&self);
        }
        if self.failed.is_some() {
            return self;
        }
        match self.walk {
            Some((walk, root)) => {
                let moved = Resolution {
                    manifest: self.manifest,
                    direct: self.direct,
                    resolved: self.resolved,
                    walk: Some((walk.declare(declared), root)),
                    failed: None,
                };
                moved.absorb()
            },
            None => self,
        }
    }

    /// Takes the registry's answer to the pending request.
    pub fn answer(self, body: &str) -> (next: Resolution)
        ensures
            next@ == answered(self@, body@),
    {
        proof {
            use_type_invariant(&self);
        }
        if self.failed.is_some() {
            return self;
        }
        match self.walk {
            Some((walk, root)) => {
                let moved = Resolution {
                    manifest: self.manifest,
                    direct: self.direct,
                    resolved: self.resolved,
                    walk: Some((walk.answer(body), root)),
                    failed: None,
                };
                moved.absorb()
            },
            None => match self.manifest.entry(self.direct) {
                Some(declared) => {
                    let version = get_version(
                        declared.name.as_str(),
                        declared.version.as_str(),
                        body,
                    );
                    Resolution {
                        manifest: self.manifest,
                        direct: self.direct,
                        resolved: self.resolved,
                        walk: None,
                        failed: None,
                    }.settle(version)
                },
                None => self,
            },
        }
    }

    /// Takes the news that the pending request could not be carried out.
    pub fn refuse(self, reason: &str) -> (next: Resolution)
        ensures
            next@ == refused(self@, reason@),
    {
        proof {
            use_type_invariant(&self);
        }
        if self.pending().is_none() {
            return self;
        }
        Resolution {
            manifest: self.manifest,
            direct: self.direct,
            resolved: self.resolved,
            walk: self.walk,
            failed: Some(Error::network(reason)),
        }
    }
}

} // verus!
