//! The walk through the dependency graph below one package. The walk decides
//! what to ask the registry next and what to make of each answer; whoever
//! drives it performs the requests.

use vstd::prelude::*;
use crate::cache::{cached_for, ResolutionCache};
use crate::dependencies::Dependencies;
use crate::error::{Error, ErrorKind};
use crate::packages::{inserted, merged, pairs_of, Entry, PackageMap, Pair};
use crate::registry::{
    declared_dependencies, declared_outcome, dependency_table, get_version, package_document,
    version_outcome, Failure,
};
use crate::text::same_text;

verus! {

/// What the walk knows of one package on the path from the root to the
/// package in work.
#[derive(Debug)]
pub struct Frame {
    pub name: String,
    pub version: String,
    /// The dependencies that the package declares. A child that was settled
    /// holds the version that its constraint resolved to, the others hold
    /// their constraints.
    pub children: Vec<Entry>,
    /// Whether the package's manifest was read.
    pub declared: bool,
    /// How many children were settled.
    pub settled: usize,
    /// How many children were walked through or passed over.
    pub expanded: usize,
    /// What was found below this package so far.
    pub found: PackageMap,
}

/// A frame as contracts speak of it.
pub struct FrameView {
    pub name: Seq<char>,
    pub version: Seq<char>,
    pub children: Seq<Pair>,
    pub declared: bool,
    pub settled: nat,
    pub expanded: nat,
    pub found: Seq<Pair>,
}

impl View for Frame {
    type V = FrameView;

    open spec fn view(&self) -> FrameView {
        FrameView {
            name: self.name@,
            version: self.version@,
            children: pairs_of(self.children@),
            declared: self.declared,
            settled: self.settled as nat,
            expanded: self.expanded as nat,
            found: self.found@,
        }
    }
}

/// The contents of a path of frames.
pub open spec fn path_of(frames: Seq<Frame>) -> Seq<FrameView> {
    Seq::new(frames.len(), |i: int| frames[i]@)
}

/// The frame of a package whose manifest was not read yet.
pub open spec fn opened(name: Seq<char>, version: Seq<char>) -> FrameView {
    FrameView {
        name,
        version,
        children: Seq::empty(),
        declared: false,
        settled: 0,
        expanded: 0,
        found: Seq::empty(),
    }
}

/// Whether a package of that name is on the path.
pub open spec fn on_path(path: Seq<FrameView>, name: Seq<char>) -> bool {
    exists|i: int| 0 <= i < path.len() && (#[trigger] path[i]).name == name
}

/// How many children of the last frame are still to be walked through.
pub open spec fn remaining(path: Seq<FrameView>) -> int {
    if path.len() > 0 && path.last().expanded < path.last().children.len() {
        path.last().children.len() - path.last().expanded
    } else {
        0
    }
}

/// Moves on from a path whose last frame may have nothing left to ask for.
/// A frame that waits for its manifest or for the version of a child stays as
/// it is. A frame whose children are all settled opens its next child, unless
/// a package of the child's name is on the path already: such a child is
/// passed over. A frame whose children were all walked through is closed, and
/// what was found below it is merged into what its parent found. When the
/// root closes, the path is empty and what the root found is handed out.
pub open spec fn descend(path: Seq<FrameView>) -> (Seq<FrameView>, Option<Seq<Pair>>)
    decreases path.len(), remaining(path),
{
    if path.len() == 0 {
        (path, None)
    } else {
        let top = path.last();
        if !top.declared || top.settled < top.children.len() {
            (path, None)
        } else if top.expanded < top.children.len() {
            let child = top.children[top.expanded as int];
            let passed = path.drop_last().push(
                FrameView { expanded: top.expanded + 1, ..top },
            );
            if on_path(path, child.0) {
                descend(passed)
            } else {
                (passed.push(opened(child.0, child.1)), None)
            }
        } else if path.len() == 1 {
            (Seq::empty(), Some(top.found))
        } else {
            let parent = path[path.len() - 2];
            descend(
                path.drop_last().drop_last().push(
                    FrameView { found: merged(parent.found, top.found), ..parent },
                ),
            )
        }
    }
}

/// Whether a package of that name is on the path.
pub fn is_on_path(path: &Vec<Frame>, name: &str) -> (on: bool)
    ensures
        on == on_path(path_of(path@), name@),
{
    let mut i: usize = 0;
    while i < path.len()
        invariant
            i <= path.len(),
            forall|j: int| 0 <= j < i ==> (#[trigger] path_of(path@)[j]).name != name@,
        decreases path.len() - i,
    {
        if same_text(path[i].name.as_str(), name) {
            assert(path_of(path@)[i as int].name == name@);
            return true;
        }
        i = i + 1;
    }
    false
}

/// The frame of a package whose manifest was not read yet.
pub fn open_frame(name: &str, version: &str) -> (frame: Frame)
    ensures
        frame@ == opened(name@, version@),
{
    let frame = Frame {
        name: name.to_owned(),
        version: version.to_owned(),
        children: Vec::new(),
        declared: false,
        settled: 0,
        expanded: 0,
        found: PackageMap::new(),
    };
    assert(pairs_of(frame.children@) =~= Seq::<Pair>::empty());
    frame
}

/// Moves on from a path as `descend` says.
pub fn move_on(path: Vec<Frame>) -> (moved: (Vec<Frame>, Option<PackageMap>))
    ensures
        path_of(moved.0@) == descend(path_of(path@)).0,
        moved.1 is Some <==> descend(path_of(path@)).1 is Some,
        moved.1 matches Some(found) ==> descend(path_of(path@)).1 == Some(found@),
    decreases path.len(), remaining(path_of(path@)),
{
    let ghost before = path_of(path@);
    let n = path.len();
    if n == 0 {
        return (path, None);
    }
    if !path[n - 1].declared || path[n - 1].settled < path[n - 1].children.len() {
        return (path, None);
    }
    let mut path = path;
    if path[n - 1].expanded < path[n - 1].children.len() {
        let at = path[n - 1].expanded;
        let name = path[n - 1].children[at].name.clone();
        let version = path[n - 1].children[at].version.clone();
        let seen = is_on_path(&path, name.as_str());
        let top = path.pop().unwrap();
        let passed = Frame {
            name: top.name,
            version: top.version,
            children: top.children,
            declared: top.declared,
            settled: top.settled,
            expanded: at + 1,
            found: top.found,
        };
        path.push(passed);
        assert(path_of(path@) =~= before.drop_last().push(
            FrameView { expanded: before.last().expanded + 1, ..before.last() },
        ));
        if seen {
            move_on(path)
        } else {
            path.push(open_frame(name.as_str(), version.as_str()));
            (path, None)
        }
    } else {
        let top = path.pop().unwrap();
        match path.pop() {
            None => {
                (path, Some(top.found))
            },
            Some(parent) => {
                let mut found = parent.found;
                found.merge(&top.found);
                let joined = Frame {
                    name: parent.name,
                    version: parent.version,
                    children: parent.children,
                    declared: parent.declared,
                    settled: parent.settled,
                    expanded: parent.expanded,
                    found,
                };
                path.push(joined);
                assert(path_of(path@) =~= before.drop_last().drop_last().push(
                    FrameView {
                        found: merged(before[n - 2].found, before.last().found),
                        ..before[n - 2]
                    },
                ));
                move_on(path)
            },
        }
    }
}

/// What the registry is asked for.
#[derive(Debug, PartialEq, Eq)]
pub enum Request {
    /// The document that lists the versions of a package.
    Package { name: String },
    /// The manifest of one version of a package.
    Release { name: String, version: String },
}

/// A request as contracts speak of it.
pub enum RequestView {
    Package { name: Seq<char> },
    Release { name: Seq<char>, version: Seq<char> },
}

impl View for Request {
    type V = RequestView;

    open spec fn view(&self) -> RequestView {
        match self {
            Request::Package { name } => RequestView::Package { name: name@ },
            Request::Release { name, version } => RequestView::Release {
                name: name@,
                version: version@,
            },
        }
    }
}

/// A walk through the graph below one package: the path from that package to
/// the one in work, and how the walk ended once it has.
#[derive(Debug)]
pub struct Walk {
    path: Vec<Frame>,
    found: Option<PackageMap>,
    failed: Option<Error>,
}

/// A walk as contracts speak of it.
pub struct WalkView {
    pub path: Seq<FrameView>,
    /// How the walk ended: with what it found below the root, or with the
    /// failure that stopped it. `None` while the walk goes on.
    pub outcome: Option<Result<Seq<Pair>, Failure>>,
}

impl View for Walk {
    type V = WalkView;

    closed spec fn view(&self) -> WalkView {
        WalkView {
            path: path_of(self.path@),
            outcome: match (self.failed, self.found) {
                (Some(e), _) => Some(Err(e@)),
                (None, Some(found)) => Some(Ok(found@)),
                (None, None) => None,
            },
        }
    }
}

/// The walk that has just begun below a package.
pub open spec fn started(name: Seq<char>, version: Seq<char>) -> WalkView {
    WalkView { path: seq![opened(name, version)], outcome: None }
}

/// The walk below a root package as it begins. Where the cache holds a
/// resolved set for the manifest in effect, the walk is over at once and has
/// found that set; otherwise it starts at the root.
pub open spec fn related(
    name: Seq<char>,
    version: Seq<char>,
    manifest: Seq<Pair>,
    cache: Option<(Seq<Pair>, Seq<Pair>)>,
) -> WalkView {
    match cached_for(cache, manifest) {
        Some(set) => WalkView { path: Seq::empty(), outcome: Some(Ok(set)) },
        None => started(name, version),
    }
}

/// What a walk asks the registry for: the manifest of the package in work
/// while that was not read, then the versions of each of its dependencies in
/// turn. A walk that is over asks for nothing.
pub open spec fn wanted(walk: WalkView) -> Option<RequestView> {
    if walk.outcome is Some || walk.path.len() == 0 {
        None
    } else {
        let top = walk.path.last();
        if !top.declared {
            Some(RequestView::Release { name: top.name, version: top.version })
        } else if top.settled < top.children.len() {
            Some(RequestView::Package { name: top.children[top.settled as int].0 })
        } else {
            None
        }
    }
}

/// The walk after `descend` has moved its path on.
pub open spec fn moved(path: Seq<FrameView>) -> WalkView {
    WalkView {
        path: descend(path).0,
        outcome: match descend(path).1 {
            Some(found) => Some(Ok(found)),
            None => None,
        },
    }
}

/// The frame after its package's manifest was read.
pub open spec fn with_children(top: FrameView, children: Seq<Pair>) -> FrameView {
    FrameView { children, declared: true, ..top }
}

/// The frame after the next of its children was settled on `version`: the
/// child holds the version, and the version is recorded under the child's
/// name in what the frame found.
pub open spec fn with_settled(top: FrameView, version: Seq<char>) -> FrameView {
    let child = top.children[top.settled as int];
    FrameView {
        children: top.children.update(top.settled as int, (child.0, version)),
        settled: top.settled + 1,
        found: inserted(top.found, child.0, version),
        ..top
    }
}

/// Whether the walk waits for the manifest of the package in work.
pub open spec fn awaits_declaration(walk: WalkView) -> bool {
    walk.outcome is None && walk.path.len() > 0 && !walk.path.last().declared
}

/// Whether the walk waits for the versions of a dependency of the package in
/// work.
pub open spec fn awaits_versions(walk: WalkView) -> bool {
    &&& walk.outcome is None
    &&& walk.path.len() > 0
    &&& walk.path.last().declared
    &&& walk.path.last().settled < walk.path.last().children.len()
}

/// The walk after the dependencies that the package in work declares were
/// read. The package gets them as its children and the walk moves on; a
/// manifest that could not be read ends the whole walk with that failure. A
/// walk that did not wait for a manifest stays as it is.
pub open spec fn declared_into(walk: WalkView, declared: Result<Seq<Pair>, Failure>) -> WalkView {
    if !awaits_declaration(walk) {
        walk
    } else {
        match declared {
            Ok(children) => moved(
                walk.path.drop_last().push(with_children(walk.path.last(), children)),
            ),
            Err(e) => WalkView { outcome: Some(Err(e)), ..walk },
        }
    }
}

/// The walk after the constraint of the next child was resolved. The child
/// is settled on the version and the walk moves on; a constraint that could
/// not be resolved ends the whole walk with that failure. A walk that did not
/// wait for versions stays as it is.
pub open spec fn settled_into(walk: WalkView, version: Result<Seq<char>, Failure>) -> WalkView {
    if !awaits_versions(walk) {
        walk
    } else {
        match version {
            Ok(v) => moved(walk.path.drop_last().push(with_settled(walk.path.last(), v))),
            Err(e) => WalkView { outcome: Some(Err(e)), ..walk },
        }
    }
}

/// The walk after the registry answered what the walk asked for. A manifest
/// is read for the dependencies it declares; a package document is read for
/// the version that the next child's constraint resolves to. A walk that
/// asked for nothing stays as it is.
pub open spec fn answered(walk: WalkView, body: Seq<char>) -> WalkView {
    if awaits_declaration(walk) {
        declared_into(walk, declared_outcome(walk.path.last().name, dependency_table(body)))
    } else if awaits_versions(walk) {
        let child = walk.path.last().children[walk.path.last().settled as int];
        settled_into(walk, version_outcome(child.0, child.1, package_document(body)))
    } else {
        walk
    }
}

/// The walk after a request could not be carried out: a walk that goes on
/// ends with a network failure, a walk that is over stays as it is.
pub open spec fn refused(walk: WalkView, reason: Seq<char>) -> WalkView {
    if walk.outcome is Some {
        walk
    } else {
        WalkView { outcome: Some(Err((ErrorKind::Network, reason))), ..walk }
    }
}

/// Begins the walk below the root package `package_name` at `version`.
/// `old_dependencies` is the manifest in effect, `cache` the stored cache
/// where there is one.
pub fn get_related_dependencies(
    package_name: String,
    version: String,
    old_dependencies: &Dependencies,
    cache: Option<&ResolutionCache>,
) -> (walk: Walk)
    ensures
        walk@ == related(
            package_name@,
            version@,
            old_dependencies.dependencies@,
            match cache {
                Some(c) => Some((c.manifest@, c.resolved@)),
                None => None,
            },
        ),
{
    let hit = match cache {
        Some(c) => c.lookup(old_dependencies),
        None => None,
    };
    match hit {
        Some(set) => {
            let walk = Walk { path: Vec::new(), found: Some(set), failed: None };
            assert(walk@.path =~= Seq::<FrameView>::empty());
            walk
        },
        None => {
            let mut path: Vec<Frame> = Vec::new();
            path.push(open_frame(package_name.as_str(), version.as_str()));
            let walk = Walk { path, found: None, failed: None };
            assert(walk@.path =~= seq![opened(package_name@, version@)]);
            walk
        },
    }
}

impl Walk {
    /// What to ask the registry for next.
    pub fn pending(&self) -> (request: Option<Request>)
        ensures
            request is Some <==> wanted(self@) is Some,
            request matches Some(r) ==> wanted(self@) == Some(r@),
    {
        let n = self.path.len();
        if self.failed.is_some() || self.found.is_some() || n == 0 {
            return None;
        }
        let top = &self.path[n - 1];
        if !top.declared {
            Some(Request::Release { name: top.name.clone(), version: top.version.clone() })
        } else if top.settled < top.children.len() {
            Some(Request::Package { name: top.children[top.settled].name.clone() })
        } else {
            None
        }
    }

    /// Whether the walk is over, with a result or with a failure.
    pub fn is_over(&self) -> (over: bool)
        ensures
            over == self@.outcome is Some,
    {
        self.failed.is_some() || self.found.is_some()
    }

    /// How the walk ended: what it found below the root, or the failure that
    /// stopped it. `None` while the walk goes on.
    pub fn outcome(&self) -> (ended: Option<Result<PackageMap, Error>>)
        ensures
            ended is Some <==> self@.outcome is Some,
            match (ended, self@.outcome) {
                (Some(Ok(found)), Some(Ok(set))) => found@ == set,
                (Some(Err(e)), Some(Err(failure))) => e@ == failure,
                (None, None) => true,
                _ => false,
            },
    {
        match &self.failed {
            Some(e) => Some(Err(Error::new(e.kind, e.detail.as_str()))),
            None => match &self.found {
                Some(found) => Some(Ok(found.duplicate())),
                None => None,
            },
        }
    }

    /// Takes the dependencies that the package in work declares, or the
    /// failure to read them.
    pub fn declare(self, declared: Result<Vec<Entry>, Error>) -> (next: Walk)
        ensures
            next@ == declared_into(
                self@,
                match declared {
                    Ok(children) => Ok(pairs_of(children@)),
                    Err(e) => Err(e@),
                },
            ),
    {
        let ghost before = self@;
        let n = self.path.len();
        if self.failed.is_some() || self.found.is_some() || n == 0 {
            return self;
        }
        if self.path[n - 1].declared {
            return self;
        }
        let mut path = self.path;
        match declared {
            Ok(children) => {
                let top = path.pop().unwrap();
                let read = Frame {
                    name: top.name,
                    version: top.version,
                    children,
                    declared: true,
                    settled: top.settled,
                    expanded: top.expanded,
                    found: top.found,
                };
                path.push(read);
                assert(path_of(path@) =~= before.path.drop_last().push(
                    with_children(before.path.last(), pairs_of(children@)),
                ));
                let (path, found) = move_on(path);
                Walk { path, found, failed: None }
            },
            Err(e) => Walk { path, found: None, failed: Some(e) },
        }
    }

    /// Takes the version that the constraint of the next child resolved to,
    /// or the failure to resolve it.
    pub fn settle(self, version: Result<String, Error>) -> (next: Walk)
        ensures
            next@ == settled_into(
                self@,
                match version {
                    Ok(v) => Ok(v@),
                    Err(e) => Err(e@),
                },
            ),
    {
        let ghost before = self@;
        let n = self.path.len();
        if self.failed.is_some() || self.found.is_some() || n == 0 {
            return self;
        }
        if !self.path[n - 1].declared || self.path[n - 1].settled >= self.path[n
            - 1].children.len() {
            return self;
        }
        let mut path = self.path;
        match version {
            Ok(version) => {
                let top = path.pop().unwrap();
                let at = top.settled;
                let name = top.children[at].name.clone();
                let mut children = top.children;
                let mut found = top.found;
                found.insert(name.as_str(), version.as_str());
                children.set(at, Entry { name, version });
                let settled = Frame {
                    name: top.name,
                    version: top.version,
                    children,
                    declared: top.declared,
                    settled: at + 1,
                    expanded: top.expanded,
                    found,
                };
                assert(pairs_of(children@) =~= before.path.last().children.update(
                    at as int,
                    (name@, version@),
                ));
                path.push(settled);
                assert(path_of(path@) =~= before.path.drop_last().push(
                    with_settled(before.path.last(), version@),
                ));
                let (path, found) = move_on(path);
                Walk { path, found, failed: None }
            },
            Err(e) => Walk { path, found: None, failed: Some(e) },
        }
    }

    /// Takes the registry's answer to the pending request.
    pub fn answer(self, body: &str) -> (next: Walk)
        ensures
            next@ == answered(self@, body@),
    {
        let n = self.path.len();
        if self.failed.is_some() || self.found.is_some() || n == 0 {
            return self;
        }
        if !self.path[n - 1].declared {
            let declared = declared_dependencies(self.path[n - 1].name.as_str(), body);
            self.declare(declared)
        } else if self.path[n - 1].settled < self.path[n - 1].children.len() {
            let at = self.path[n - 1].settled;
            let version = get_version(
                self.path[n - 1].children[at].name.as_str(),
                self.path[n - 1].children[at].version.as_str(),
                body,
            );
            self.settle(version)
        } else {
            self
        }
    }

    /// Takes the news that the pending request could not be carried out.
    pub fn refuse(self, reason: &str) -> (next: Walk)
        ensures
            next@ == refused(self@, reason@),
    {
        if self.failed.is_some() || self.found.is_some() {
            return self;
        }
        Walk { path: self.path, found: None, failed: Some(Error::network(reason)) }
    }
}

} // verus!
