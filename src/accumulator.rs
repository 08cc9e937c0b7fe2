use vstd::prelude::*;

use crate::record::{bytes_equal, copy_bytes, Record, RecordView};

verus! {

/// One version of a record: the responses whose values share a content hash.
#[derive(Clone, Debug, PartialEq, Eq)]
pub struct Version {
    pub content_hash: Vec<u8>,
    pub record: Record,
    pub responders: Vec<Vec<u8>>,
}

pub struct VersionView {
    pub content_hash: Seq<u8>,
    pub record: RecordView,
    pub responders: Seq<Seq<u8>>,
}

pub open spec fn peers_view(peers: Seq<Vec<u8>>) -> Seq<Seq<u8>> {
    peers.map_values(|p: Vec<u8>| p@)
}

impl View for Version {
    type V = VersionView;

    open spec fn view(&self) -> VersionView {
        VersionView {
            content_hash: self.content_hash@,
            record: self.record@,
            responders: peers_view(self.responders@),
        }
    }
}

pub open spec fn versions_view(vs: Seq<Version>) -> Seq<VersionView> {
    vs.map_values(|v: Version| v@)
}

/// Versions are told apart by their content hash, and each counts a responder once.
pub open spec fn versions_wf(vs: Seq<VersionView>) -> bool {
    &&& forall|i: int, j: int|
        0 <= i < vs.len() && 0 <= j < vs.len() && i != j ==> #[trigger] vs[i].content_hash
            != #[trigger] vs[j].content_hash
    &&& forall|i: int| 0 <= i < vs.len() ==> (#[trigger] vs[i]).responders.no_duplicates()
}

pub open spec fn has_version(vs: Seq<VersionView>, hash: Seq<u8>) -> bool {
    exists|i: int| 0 <= i < vs.len() && (#[trigger] vs[i]).content_hash == hash
}

pub open spec fn version_index(vs: Seq<VersionView>, hash: Seq<u8>) -> int {
    choose|i: int| 0 <= i < vs.len() && (#[trigger] vs[i]).content_hash == hash
}

/// The responders of `rs` with `peer` among them.
pub open spec fn add_responder(rs: Seq<Seq<u8>>, peer: Seq<u8>) -> Seq<Seq<u8>> {
    if rs.contains(peer) {
        rs
    } else {
        rs.push(peer)
    }
}

/// The versions after `peer` answered with `record`, whose value hashes to `hash`:
/// a known hash gains the responder, a new one opens a version of its own.
pub open spec fn accumulate(
    vs: Seq<VersionView>,
    hash: Seq<u8>,
    record: RecordView,
    peer: Seq<u8>,
) -> Seq<VersionView> {
    if has_version(vs, hash) {
        let i = version_index(vs, hash);
        vs.update(
            i,
            VersionView {
                content_hash: vs[i].content_hash,
                record: vs[i].record,
                responders: add_responder(vs[i].responders, peer),
            },
        )
    } else {
        vs.push(VersionView { content_hash: hash, record: record, responders: seq![peer] })
    }
}

/// The number of distinct responders of the version with `hash`.
pub open spec fn responded_count(vs: Seq<VersionView>, hash: Seq<u8>) -> nat {
    if has_version(vs, hash) {
        vs[version_index(vs, hash)].responders.len()
    } else {
        0
    }
}

/// Whether `peer` is among `peers`.
pub fn contains_peer(peers: &Vec<Vec<u8>>, peer: &Vec<u8>) -> (r: bool)
    ensures
        r == peers_view(peers@).contains(peer@),
{
    let mut i: usize = 0;
    while i < peers.len()
        invariant
            i <= peers.len(),
            forall|j: int| 0 <= j < i ==> peers@[j]@ != peer@,
        decreases peers.len() - i,
    {
        if bytes_equal(&peers[i], peer) {
            assert(peers_view(peers@)[i as int] == peer@);
            return true;
        }
        i = i + 1;
    }
    assert forall|j: int| 0 <= j < peers_view(peers@).len() implies peers_view(peers@)[j] != peer@ by {
        assert(peers_view(peers@)[j] == peers@[j]@);
    }
    false
}

/// Where the version with `hash` stands, if any.
pub fn find_version(versions: &Vec<Version>, hash: &Vec<u8>) -> (r: Option<usize>)
    requires
        versions_wf(versions_view(versions@)),
    ensures
        match r {
            Some(i) => has_version(versions_view(versions@), hash@) && i == version_index(
                versions_view(versions@),
                hash@,
            ),
            None => !has_version(versions_view(versions@), hash@),
        },
{
    let ghost vs = versions_view(versions@);
    let mut i: usize = 0;
    while i < versions.len()
        invariant
            i <= versions.len(),
            vs == versions_view(versions@),
            versions_wf(vs),
            forall|j: int| 0 <= j < i ==> (#[trigger] vs[j]).content_hash != hash@,
        decreases versions.len() - i,
    {
        if bytes_equal(&versions[i].content_hash, hash) {
            assert(vs[i as int].content_hash == hash@);
            let ghost k = version_index(vs, hash@);
            assert(vs[k].content_hash == hash@);
            assert(0 <= k < vs.len());
            assert(k == i) by {
                if k != i as int {
                    assert(vs[k].content_hash != vs[i as int].content_hash);
                }
            }
            return Some(i);
        }
        assert(vs[i as int].content_hash != hash@);
        i = i + 1;
    }
    None
}

/// Records that `peer` answered with `record`, whose value hashes to `hash`,
/// and returns the number of distinct responders of that version.
pub fn record_response(versions: &mut Vec<Version>, hash: Vec<u8>, record: Record, peer: Vec<u8>) -> (count: usize)
    requires
        versions_wf(versions_view(old(versions)@)),
    ensures
        versions_view(final(versions)@) == accumulate(versions_view(old(versions)@), hash@, record@, peer@),
        versions_wf(versions_view(final(versions)@)),
        count == responded_count(versions_view(final(versions)@), hash@),
{
    let ghost vs = versions_view(versions@);
    match find_version(versions, &hash) {
        Some(i) => {
            let mut v = versions.remove(i);
            let ghost rs = v@.responders;
            assert(v@ == vs[i as int]);
            if !contains_peer(&v.responders, &peer) {
                v.responders.push(peer);
                assert(peers_view(v.responders@) =~= rs.push(peer@));
            }
            let count = v.responders.len();
            versions.insert(i, v);
            let ghost nvs = accumulate(vs, hash@, record@, peer@);
            assert(versions_view(versions@) =~= nvs);
            assert(has_version(nvs, hash@) && version_index(nvs, hash@) == i) by {
                assert(nvs[i as int].content_hash == hash@);
                let k = version_index(nvs, hash@);
                assert(nvs[k].content_hash == hash@);
            }
            assert(versions_wf(nvs)) by {
                assert forall|a: int| 0 <= a < nvs.len() implies (#[trigger] nvs[a]).responders.no_duplicates() by {
                    if a == i {
                        assert(vs[a].responders.no_duplicates());
                    }
                }
            }
            count
        }
        None => {
            let mut responders: Vec<Vec<u8>> = Vec::new();
            responders.push(peer);
            let v = Version { content_hash: hash, record, responders };
            versions.push(v);
            let ghost nvs = accumulate(vs, hash@, record@, peer@);
            assert(peers_view(v.responders@) =~= seq![peer@]);
            assert(versions_view(versions@) =~= nvs);
            let n = versions.len() - 1;
            assert(has_version(nvs, hash@) && version_index(nvs, hash@) == n) by {
                assert(nvs[n as int].content_hash == hash@);
                let k = version_index(nvs, hash@);
                assert(nvs[k].content_hash == hash@);
            }
            assert(versions_wf(nvs)) by {
                assert forall|a: int| 0 <= a < nvs.len() implies (#[trigger] nvs[a]).responders.no_duplicates() by {
                    if a == n {
                        assert(seq![peer@].no_duplicates());
                    }
                }
            }
            1
        }
    }
}

} // verus!
