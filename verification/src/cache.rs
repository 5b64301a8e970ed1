//! The resolution cache: one stored resolved set, valid for the manifest it
//! was made from and for no other.

use vstd::prelude::*;
use crate::dependencies::Dependencies;
use crate::packages::{merged, pairs_of, Entry, PackageMap, Pair};

verus! {

/// A resolved set together with the manifest that it was resolved from.
#[derive(Debug)]
pub struct ResolutionCache {
    pub manifest: PackageMap,
    pub resolved: PackageMap,
}

/// What a cache answers for a manifest: its resolved set where the manifest
/// is the one it was made from, entry for entry, and nothing otherwise.
pub open spec fn cached_for(
    cache: Option<(Seq<Pair>, Seq<Pair>)>,
    manifest: Seq<Pair>,
) -> Option<Seq<Pair>> {
    match cache {
        Some((recorded, resolved)) => if recorded == manifest {
            Some(resolved)
        } else {
            None
        },
        None => None,
    }
}

/// The bytes that `bincode::serialize` gives for a manifest and a resolved
/// set, each a list of pairs of strings.
pub uninterp spec fn bincode_bytes(manifest: Seq<Pair>, resolved: Seq<Pair>) -> Option<Seq<u8>>;

/// The two lists of pairs of strings that `bincode::deserialize` reads from
/// bytes, or nothing where it refuses them.
pub uninterp spec fn bincode_lists(bytes: Seq<u8>) -> Option<(Seq<Pair>, Seq<Pair>)>;

/// Hands a manifest and a resolved set to `bincode::serialize`, as two lists
/// of pairs of strings. The contract names the bytes and claims no more.
#[verifier::external_body]
fn serialize(manifest: &Vec<Entry>, resolved: &Vec<Entry>) -> (bytes: Option<Vec<u8>>)
    ensures
        bytes is Some <==> bincode_bytes(pairs_of(manifest@), pairs_of(resolved@)) is Some,
        bytes matches Some(b) ==> bincode_bytes(pairs_of(manifest@), pairs_of(resolved@)) == Some(
            b@,
        ),
{
    let first: Vec<(String, String)> = manifest.iter().map(
        |e| (e.name.clone(), e.version.clone()),
    ).collect();
    let second: Vec<(String, String)> = resolved.iter().map(
        |e| (e.name.clone(), e.version.clone()),
    ).collect();
    bincode::serialize(&(first, second)).ok()
}

/// Has `bincode::deserialize` read two lists of pairs of strings from bytes.
/// The contract names what was read and claims no more.
#[verifier::external_body]
fn deserialize(bytes: &[u8]) -> (lists: Option<(Vec<Entry>, Vec<Entry>)>)
    ensures
        lists is Some <==> bincode_lists(bytes@) is Some,
        lists matches Some(l) ==> bincode_lists(bytes@) == Some((pairs_of(l.0@), pairs_of(l.1@))),
{
    match bincode::deserialize::<(Vec<(String, String)>, Vec<(String, String)>)>(bytes) {
        Ok((first, second)) => Some(
            (
                first.into_iter().map(|(name, version)| Entry { name, version }).collect(),
                second.into_iter().map(|(name, version)| Entry { name, version }).collect(),
            ),
        ),
        Err(_) => None,
    }
}

impl ResolutionCache {
    /// The cache that records `resolved` as the resolved set of `manifest`.
    pub fn record(manifest: &Dependencies, resolved: &PackageMap) -> (cache: ResolutionCache)
        ensures
            cache.manifest@ == manifest.dependencies@,
            cache.resolved@ == resolved@,
    {
        ResolutionCache { manifest: manifest.dependencies.duplicate(), resolved: resolved.duplicate() }
    }

    /// The cache that holds two stored lists, a later entry of a list
    /// overriding an earlier one with the same name.
    pub fn from_lists(manifest: &Vec<Entry>, resolved: &Vec<Entry>) -> (cache: ResolutionCache)
        ensures
            cache.manifest@ == merged(Seq::<Pair>::empty(), pairs_of(manifest@)),
            cache.resolved@ == merged(Seq::<Pair>::empty(), pairs_of(resolved@)),
    {
        ResolutionCache {
            manifest: PackageMap::from_entries(manifest),
            resolved: PackageMap::from_entries(resolved),
        }
    }

    /// The resolved set that this cache holds for `manifest`: its own where
    /// `manifest` is the manifest it was made from, none otherwise.
    pub fn lookup(&self, manifest: &Dependencies) -> (hit: Option<PackageMap>)
        ensures
            hit is Some <==> self.manifest@ == manifest.dependencies@,
            hit matches Some(set) ==> set@ == self.resolved@,
    {
        if self.manifest.identical(&manifest.dependencies) {
            Some(self.resolved.duplicate())
        } else {
            None
        }
    }

    /// The bytes under which this cache is stored.
    pub fn encode(&self) -> (bytes: Option<Vec<u8>>)
        ensures
            bytes is Some <==> bincode_bytes(self.manifest@, self.resolved@) is Some,
            bytes matches Some(b) ==> bincode_bytes(self.manifest@, self.resolved@) == Some(b@),
    {
        let manifest = self.manifest.to_entries();
        let resolved = self.resolved.to_entries();
        serialize(&manifest, &resolved)
    }

    /// The cache that stored bytes hold, or nothing where they hold none.
    pub fn decode(bytes: &[u8]) -> (cache: Option<ResolutionCache>)
        ensures
            cache is Some <==> bincode_lists(bytes@) is Some,
            match (cache, bincode_lists(bytes@)) {
                (Some(c), Some((manifest, resolved))) => {
                    &&& c.manifest@ == merged(Seq::<Pair>::empty(), manifest)
                    &&& c.resolved@ == merged(Seq::<Pair>::empty(), resolved)
                },
                _ => true,
            },
    {
        match deserialize(bytes) {
            Some(lists) => Some(ResolutionCache::from_lists(&lists.0, &lists.1)),
            None => None,
        }
    }
}

} // verus!
