//! What a walk finds, said without the walk: the dependencies below a
//! package, as the registry's answers determine them.

use vstd::prelude::*;
use crate::graph::{
    answered, awaits_declaration, awaits_versions, descend, moved, on_path, opened, started,
    wanted, with_children, with_settled, FrameView, RequestView, WalkView,
};
use crate::install;
use crate::install::{absorbed, begun, complete, ResolutionView};
use crate::packages::{inserted, merged, Pair};
use crate::registry::{
    declared_outcome, dependency_table, package_document, version_outcome, Failure,
};

verus! {

/// The dependencies that one version of a package declares, going by what
/// the registry answers.
pub open spec fn declared_by(
    answers: spec_fn(RequestView) -> Seq<char>,
    name: Seq<char>,
    version: Seq<char>,
) -> Result<Seq<Pair>, Failure> {
    declared_outcome(name, dependency_table(answers(RequestView::Release { name, version })))
}

/// The version that a constraint on a package resolves to, going by what the
/// registry answers.
pub open spec fn resolved_by(
    answers: spec_fn(RequestView) -> Seq<char>,
    name: Seq<char>,
    constraint: Seq<char>,
) -> Result<Seq<char>, Failure> {
    version_outcome(name, constraint, package_document(answers(RequestView::Package { name })))
}

/// The children of a package from position `i` on settled, each on the
/// version that its constraint resolves to, and each recorded in `found`
/// under its name. The first constraint that cannot be resolved fails the
/// lot.
pub open spec fn settled_from(
    answers: spec_fn(RequestView) -> Seq<char>,
    children: Seq<Pair>,
    i: nat,
    found: Seq<Pair>,
) -> Result<(Seq<Pair>, Seq<Pair>), Failure>
    decreases children.len() - i,
{
    if i >= children.len() {
        Ok((children, found))
    } else {
        let child = children[i as int];
        match resolved_by(answers, child.0, child.1) {
            Ok(version) => settled_from(
                answers,
                children.update(i as int, (child.0, version)),
                i + 1,
                inserted(found, child.0, version),
            ),
            Err(e) => Err(e),
        }
    }
}

/// What is found below the package `name` at `version`, whose ancestors are
/// `above`. The package's declared dependencies are settled and recorded,
/// then what is found below each of them is merged in, child after child, a
/// later entry overriding an earlier one with the same name. `fuel` bounds
/// how deep the packages may lie: the result is `None` where they lie deeper.
pub open spec fn below(
    answers: spec_fn(RequestView) -> Seq<char>,
    name: Seq<char>,
    version: Seq<char>,
    above: Seq<Seq<char>>,
    fuel: nat,
) -> Option<Result<Seq<Pair>, Failure>>
    decreases fuel, 0nat, 0nat,
{
    if fuel == 0 {
        None
    } else {
        match declared_by(answers, name, version) {
            Err(e) => Some(Err(e)),
            Ok(children) => match settled_from(answers, children, 0, Seq::empty()) {
                Err(e) => Some(Err(e)),
                Ok((kids, found)) => gathered_from(
                    answers,
                    kids,
                    0,
                    found,
                    above.push(name),
                    (fuel - 1) as nat,
                ),
            },
        }
    }
}

/// What a package has found once the settled children from position `i` on
/// were walked through. A child whose name is on the path already is passed
/// over; what is found below any other child is merged into `found`. A
/// failure below a child fails the lot.
pub open spec fn gathered_from(
    answers: spec_fn(RequestView) -> Seq<char>,
    kids: Seq<Pair>,
    i: nat,
    found: Seq<Pair>,
    path: Seq<Seq<char>>,
    fuel: nat,
) -> Option<Result<Seq<Pair>, Failure>>
    decreases fuel, 1nat, kids.len() - i,
{
    if i >= kids.len() {
        Some(Ok(found))
    } else if path.contains(kids[i as int].0) {
        gathered_from(answers, kids, i + 1, found, path, fuel)
    } else {
        match below(answers, kids[i as int].0, kids[i as int].1, path, fuel) {
            None => None,
            Some(Err(e)) => Some(Err(e)),
            Some(Ok(sub)) => gathered_from(answers, kids, i + 1, merged(found, sub), path, fuel),
        }
    }
}

/// The names of the packages on a path.
pub open spec fn names_on(path: Seq<FrameView>) -> Seq<Seq<char>> {
    Seq::new(path.len(), |i: int| path[i].name)
}

/// The walk after it was given the answer to what it asked for.
pub open spec fn stepped(answers: spec_fn(RequestView) -> Seq<char>, walk: WalkView) -> WalkView {
    match wanted(walk) {
        Some(request) => answered(walk, answers(request)),
        None => walk,
    }
}

/// The walk after `steps` rounds of asking and answering.
pub open spec fn driven(
    answers: spec_fn(RequestView) -> Seq<char>,
    walk: WalkView,
    steps: nat,
) -> WalkView
    decreases steps,
{
    if steps == 0 {
        walk
    } else {
        driven(answers, stepped(answers, walk), (steps - 1) as nat)
    }
}

/// A walk that is over stays as it is.
pub proof fn lemma_over_stays(
    answers: spec_fn(RequestView) -> Seq<char>,
    walk: WalkView,
    steps: nat,
)
    requires
        walk.outcome is Some,
    ensures
        driven(answers, walk, steps) == walk,
    decreases steps,
{
    if steps > 0 {
        lemma_over_stays(answers, walk, (steps - 1) as nat);
    }
}

/// Rounds add up.
pub proof fn lemma_driven_on(
    answers: spec_fn(RequestView) -> Seq<char>,
    walk: WalkView,
    first: nat,
    then: nat,
)
    ensures
        driven(answers, walk, first + then) == driven(answers, driven(answers, walk, first), then),
    decreases first,
{
    if first > 0 {
        lemma_driven_on(answers, stepped(answers, walk), (first - 1) as nat, then);
    }
}

/// A package is on a path exactly when its name is among the path's names.
pub proof fn lemma_names_on(path: Seq<FrameView>, name: Seq<char>)
    ensures
        on_path(path, name) == names_on(path).contains(name),
{
    if on_path(path, name) {
        let i = choose|i: int| 0 <= i < path.len() && (#[trigger] path[i]).name == name;
        assert(names_on(path)[i] == name);
    }
}

/// The frame of a package whose children are settled.
pub open spec fn with_kids(top: FrameView, kids: Seq<Pair>, found: Seq<Pair>) -> FrameView {
    FrameView { children: kids, settled: kids.len(), found, ..top }
}

/// The frame of a package whose children were all walked through.
pub open spec fn closed(top: FrameView, found: Seq<Pair>) -> FrameView {
    FrameView { expanded: top.children.len(), found, ..top }
}

/// Settling keeps the number of children.
pub proof fn lemma_settled_len(
    answers: spec_fn(RequestView) -> Seq<char>,
    children: Seq<Pair>,
    i: nat,
    found: Seq<Pair>,
)
    ensures
        settled_from(answers, children, i, found) matches Ok(done) ==> done.0.len()
            == children.len(),
    decreases children.len() - i,
{
    if i < children.len() {
        let child = children[i as int];
        match resolved_by(answers, child.0, child.1) {
            Ok(version) => {
                lemma_settled_len(
                    answers,
                    children.update(i as int, (child.0, version)),
                    i + 1,
                    inserted(found, child.0, version),
                );
            },
            Err(e) => {},
        }
    }
}

/// A walk whose top package has its manifest read settles the package's
/// children as `settled_from` says, one round for each.
pub proof fn lemma_settling(
    answers: spec_fn(RequestView) -> Seq<char>,
    under: Seq<FrameView>,
    top: FrameView,
) -> (steps: nat)
    requires
        top.declared,
        top.settled <= top.children.len(),
    ensures
        match settled_from(answers, top.children, top.settled, top.found) {
            Ok((kids, found)) => driven(answers, moved(under.push(top)), steps) == moved(
                under.push(with_kids(top, kids, found)),
            ),
            Err(e) => driven(answers, moved(under.push(top)), steps).outcome == Some(
                Err::<Seq<Pair>, Failure>(e),
            ),
        },
    decreases top.children.len() - top.settled,
{
    if top.settled >= top.children.len() {
        0
    } else {
        let path = under.push(top);
        let walk = moved(path);
        let child = top.children[top.settled as int];
        assert(path.drop_last() =~= under);
        match resolved_by(answers, child.0, child.1) {
            Ok(version) => {
                let next = with_settled(top, version);
                let rest = lemma_settling(answers, under, next);
                lemma_settled_len(answers, next.children, next.settled, next.found);
                rest + 1
            },
            Err(e) => {
                assert(driven(answers, walk, 1) == driven(answers, stepped(answers, walk), 0));
                1
            },
        }
    }
}

/// A walk whose top package has its children settled walks through them as
/// `gathered_from` says, and ends with the package's frame closed.
pub proof fn lemma_gathering(
    answers: spec_fn(RequestView) -> Seq<char>,
    under: Seq<FrameView>,
    top: FrameView,
    fuel: nat,
) -> (steps: nat)
    requires
        top.declared,
        top.settled >= top.children.len(),
        top.expanded <= top.children.len(),
        gathered_from(
            answers,
            top.children,
            top.expanded,
            top.found,
            names_on(under.push(top)),
            fuel,
        ) is Some,
    ensures
        match gathered_from(
            answers,
            top.children,
            top.expanded,
            top.found,
            names_on(under.push(top)),
            fuel,
        )->0 {
            Ok(found) => driven(answers, moved(under.push(top)), steps) == moved(
                under.push(closed(top, found)),
            ),
            Err(e) => driven(answers, moved(under.push(top)), steps).outcome == Some(
                Err::<Seq<Pair>, Failure>(e),
            ),
        },
    decreases fuel, 1nat, top.children.len() - top.expanded,
{
    let path = under.push(top);
    if top.expanded >= top.children.len() {
        0
    } else {
        let child = top.children[top.expanded as int];
        let passed = FrameView { expanded: top.expanded + 1, ..top };
        assert(path.drop_last() =~= under);
        lemma_names_on(path, child.0);
        assert(names_on(under.push(passed)) =~= names_on(path));
        if on_path(path, child.0) {
            lemma_gathering(answers, under, passed, fuel)
        } else {
            let lower = under.push(passed);
            let start = WalkView { path: lower.push(opened(child.0, child.1)), outcome: None };
            let (first, done) = lemma_closure(answers, lower, child.0, child.1, fuel);
            match below(answers, child.0, child.1, names_on(lower), fuel)->0 {
                Ok(sub) => {
                    let joined = FrameView { found: merged(passed.found, sub), ..passed };
                    let full = lower.push(done);
                    assert(full.drop_last().drop_last() =~= under);
                    assert(names_on(under.push(joined)) =~= names_on(path));
                    let rest = lemma_gathering(answers, under, joined, fuel);
                    lemma_driven_on(answers, start, first, rest);
                    first + rest
                },
                Err(e) => first,
            }
        }
    }
}

/// A walk that has just opened a package finds below it what `below` says,
/// and ends with the package's frame closed: the frame that comes back.
pub proof fn lemma_closure(
    answers: spec_fn(RequestView) -> Seq<char>,
    under: Seq<FrameView>,
    name: Seq<char>,
    version: Seq<char>,
    fuel: nat,
) -> (run: (nat, FrameView))
    requires
        below(answers, name, version, names_on(under), fuel) is Some,
    ensures
        match below(answers, name, version, names_on(under), fuel)->0 {
            Ok(found) => {
                &&& run.1.declared
                &&& run.1.settled >= run.1.children.len()
                &&& run.1.expanded >= run.1.children.len()
                &&& run.1.found == found
                &&& driven(
                    answers,
                    WalkView { path: under.push(opened(name, version)), outcome: None },
                    run.0,
                ) == moved(under.push(run.1))
            },
            Err(e) => driven(
                answers,
                WalkView { path: under.push(opened(name, version)), outcome: None },
                run.0,
            ).outcome == Some(Err::<Seq<Pair>, Failure>(e)),
        },
    decreases fuel, 0nat, 0nat,
{
    let root = opened(name, version);
    let path = under.push(root);
    let walk = WalkView { path, outcome: None };
    assert(path.drop_last() =~= under);
    match declared_by(answers, name, version) {
        Err(e) => {
            assert(driven(answers, walk, 1) == driven(answers, stepped(answers, walk), 0));
            (1, root)
        },
        Ok(children) => {
            let read = with_children(root, children);
            let settling = lemma_settling(answers, under, read);
            match settled_from(answers, children, 0, Seq::empty()) {
                Err(e) => (settling + 1, root),
                Ok((kids, found)) => {
                    lemma_settled_len(answers, children, 0, Seq::empty());
                    let settled = with_kids(read, kids, found);
                    assert(names_on(under.push(settled)) =~= names_on(under).push(name));
                    let gathering = lemma_gathering(answers, under, settled, (fuel - 1) as nat);
                    lemma_driven_on(answers, stepped(answers, walk), settling, gathering);
                    match gathered_from(
                        answers,
                        kids,
                        0,
                        found,
                        names_on(under).push(name),
                        (fuel - 1) as nat,
                    )->0 {
                        Ok(all) => (settling + gathering + 1, closed(settled, all)),
                        Err(e) => (settling + gathering + 1, root),
                    }
                },
            }
        },
    }
}

/// The walk below a package ends as `below` says: where `below` gives what
/// lies below the package, the walk ends having found just that, and where
/// `below` gives a failure, the walk ends with that failure, after finitely
/// many rounds of asking the registry and taking its answer.
pub proof fn law_walk_finds_what_lies_below(
    answers: spec_fn(RequestView) -> Seq<char>,
    name: Seq<char>,
    version: Seq<char>,
    fuel: nat,
) -> (steps: nat)
    requires
        below(answers, name, version, Seq::empty(), fuel) is Some,
    ensures
        driven(answers, started(name, version), steps).outcome == below(
            answers,
            name,
            version,
            Seq::empty(),
            fuel,
        ),
{
    let under = Seq::<FrameView>::empty();
    assert(names_on(under) =~= Seq::<Seq<char>>::empty());
    let (steps, done) = lemma_closure(answers, under, name, version, fuel);
    steps
}

/// The resolved set of a manifest from its declared dependency `i` on, given
/// what was resolved before. Each declared dependency is settled on the
/// version that its constraint resolves to; what lies below it is merged into
/// the set, then the dependency itself is recorded. The first failure fails
/// the lot. `fuel` bounds how deep the packages may lie, as in `below`.
pub open spec fn resolved_from(
    answers: spec_fn(RequestView) -> Seq<char>,
    manifest: Seq<Pair>,
    i: nat,
    resolved: Seq<Pair>,
    fuel: nat,
) -> Option<Result<Seq<Pair>, Failure>>
    decreases manifest.len() - i,
{
    if i >= manifest.len() {
        Some(Ok(resolved))
    } else {
        let declared = manifest[i as int];
        match resolved_by(answers, declared.0, declared.1) {
            Err(e) => Some(Err(e)),
            Ok(version) => match below(answers, declared.0, version, Seq::empty(), fuel) {
                None => None,
                Some(Err(e)) => Some(Err(e)),
                Some(Ok(found)) => resolved_from(
                    answers,
                    manifest,
                    i + 1,
                    inserted(merged(resolved, found), declared.0, version),
                    fuel,
                ),
            },
        }
    }
}

/// The resolution after it was given the answer to what it asked for.
pub open spec fn stepped_on(
    answers: spec_fn(RequestView) -> Seq<char>,
    r: ResolutionView,
) -> ResolutionView {
    match install::wanted(r) {
        Some(request) => install::answered(r, answers(request)),
        None => r,
    }
}

/// The resolution after `steps` rounds of asking and answering.
pub open spec fn carried(
    answers: spec_fn(RequestView) -> Seq<char>,
    r: ResolutionView,
    steps: nat,
) -> ResolutionView
    decreases steps,
{
    if steps == 0 {
        r
    } else {
        carried(answers, stepped_on(answers, r), (steps - 1) as nat)
    }
}

/// Rounds of a resolution add up.
pub proof fn lemma_carried_on(
    answers: spec_fn(RequestView) -> Seq<char>,
    r: ResolutionView,
    first: nat,
    then: nat,
)
    ensures
        carried(answers, r, first + then) == carried(answers, carried(answers, r, first), then),
    decreases first,
{
    if first > 0 {
        lemma_carried_on(answers, stepped_on(answers, r), (first - 1) as nat, then);
    }
}

/// A resolution follows its walk round for round, and takes the walk in when
/// the walk is over.
pub proof fn lemma_follows_walk(
    answers: spec_fn(RequestView) -> Seq<char>,
    r: ResolutionView,
    walk: WalkView,
    version: Seq<char>,
    rounds: nat,
) -> (steps: nat)
    requires
        r.failed is None,
        r.walk == Some((walk, version)),
        walk.outcome is None,
        driven(answers, walk, rounds).outcome is Some,
    ensures
        carried(answers, r, steps) == absorbed(
            ResolutionView { walk: Some((driven(answers, walk, rounds), version)), ..r },
        ),
    decreases rounds,
{
    let next = stepped(answers, walk);
    if wanted(walk) is None {
        lemma_follows_walk(answers, r, walk, version, (rounds - 1) as nat)
    } else {
        let moved_on = ResolutionView { walk: Some((next, version)), ..r };
        if next.outcome is Some {
            lemma_over_stays(answers, next, (rounds - 1) as nat);
            assert(carried(answers, r, 1) == carried(answers, stepped_on(answers, r), 0));
            1
        } else {
            let rest = lemma_follows_walk(answers, moved_on, next, version, (rounds - 1) as nat);
            rest + 1
        }
    }
}

/// A resolution that stands between two walks deals with the declared
/// dependencies that are left as `resolved_from` says.
pub proof fn lemma_resolving(
    answers: spec_fn(RequestView) -> Seq<char>,
    manifest: Seq<Pair>,
    i: nat,
    resolved: Seq<Pair>,
    fuel: nat,
) -> (steps: nat)
    requires
        resolved_from(answers, manifest, i, resolved, fuel) is Some,
    ensures
        match resolved_from(answers, manifest, i, resolved, fuel)->0 {
            Ok(set) => {
                &&& complete(
                    carried(
                        answers,
                        ResolutionView { manifest, direct: i, resolved, walk: None, failed: None },
                        steps,
                    ),
                )
                &&& carried(
                    answers,
                    ResolutionView { manifest, direct: i, resolved, walk: None, failed: None },
                    steps,
                ).resolved == set
            },
            Err(e) => carried(
                answers,
                ResolutionView { manifest, direct: i, resolved, walk: None, failed: None },
                steps,
            ).failed == Some(e),
        },
    decreases manifest.len() - i,
{
    let r = ResolutionView { manifest, direct: i, resolved, walk: None, failed: None };
    if i >= manifest.len() {
        0
    } else {
        let declared = manifest[i as int];
        assert(carried(answers, r, 1) == carried(answers, stepped_on(answers, r), 0));
        match resolved_by(answers, declared.0, declared.1) {
            Err(e) => 1,
            Ok(version) => {
                let walk = started(declared.0, version);
                let walking = ResolutionView { walk: Some((walk, version)), ..r };
                let rounds = law_walk_finds_what_lies_below(answers, declared.0, version, fuel);
                let following = lemma_follows_walk(answers, walking, walk, version, rounds);
                lemma_carried_on(answers, r, 1, following);
                match below(answers, declared.0, version, Seq::empty(), fuel)->0 {
                    Err(e) => following + 1,
                    Ok(found) => {
                        let further = inserted(merged(resolved, found), declared.0, version);
                        let rest = lemma_resolving(answers, manifest, i + 1, further, fuel);
                        lemma_carried_on(answers, r, following + 1, rest);
                        following + 1 + rest
                    },
                }
            },
        }
    }
}

/// The resolution of a manifest ends as `resolved_from` says: without a
/// cache to serve it, and after finitely many rounds of asking the registry
/// and taking its answer, it is complete and holds the resolved set that
/// `resolved_from` gives, or has failed with the failure that `resolved_from`
/// gives.
pub proof fn law_resolution_gathers_every_closure(
    answers: spec_fn(RequestView) -> Seq<char>,
    manifest: Seq<Pair>,
    fuel: nat,
) -> (steps: nat)
    requires
        resolved_from(answers, manifest, 0, Seq::empty(), fuel) is Some,
    ensures
        match resolved_from(answers, manifest, 0, Seq::empty(), fuel)->0 {
            Ok(set) => {
                &&& complete(carried(answers, begun(manifest, None), steps))
                &&& carried(answers, begun(manifest, None), steps).resolved == set
            },
            Err(e) => carried(answers, begun(manifest, None), steps).failed == Some(e),
        },
{
    lemma_resolving(answers, manifest, 0, Seq::empty(), fuel)
}

} // verus!
