use vstd::prelude::*;

use crate::class::{CandidateModel, FileModel, ListedModel};
use crate::constant::UPDATE_INTERVAL;
use crate::daemon::{after_finish, after_request, apply_deletions, gate_open, published, DaemonModel};
use crate::hash_service::{
    after_resolve, has_path, has_record, hash_for, index_of, lemma_push_fresh, paths_unique,
    removed, resolvable, resolved_hash,
};
use crate::scanner::{group_model, scan_model, scan_ok, stale_model};

verus! {

/// Evicting a record keeps paths unique, leaves no record for its path, and
/// creates no record.
pub proof fn lemma_removed(c: Seq<FileModel>, p: Seq<char>, k: Seq<char>)
    requires
        paths_unique(c),
    ensures
        paths_unique(removed(c, p, k)),
        has_record(c, p, k) ==> !has_path(removed(c, p, k), p),
        forall|q: Seq<char>, k2: Seq<char>|
            #[trigger] has_record(removed(c, p, k), q, k2) ==> has_record(c, q, k2),
{
    if has_record(c, p, k) {
        let i = index_of(c, p);
        let d = c.remove(i);
        assert forall|a: int, b: int| 0 <= a < d.len() && 0 <= b < d.len() && a != b implies #[trigger] d[a].path
            != #[trigger] d[b].path by {
            let a0 = if a < i { a } else { a + 1 };
            let b0 = if b < i { b } else { b + 1 };
            assert(d[a] == c[a0]);
            assert(d[b] == c[b0]);
        }
        if has_path(d, p) {
            let j = choose|j: int| 0 <= j < d.len() && #[trigger] d[j].path == p;
            let j0 = if j < i { j } else { j + 1 };
            assert(d[j] == c[j0]);
            assert(c[i].path == p);
        }
        assert forall|q: Seq<char>, k2: Seq<char>| #[trigger] has_record(d, q, k2) implies has_record(
            c,
            q,
            k2,
        ) by {
            let j = index_of(d, q);
            let j0 = if j < i { j } else { j + 1 };
            assert(d[j] == c[j0]);
            assert(has_path(c, q));
            assert(c[index_of(c, q)].path == q);
        }
    }
}

/// Evicting candidates one after another keeps paths unique, leaves none
/// of their records, and creates no record.
pub proof fn lemma_deletions(c: Seq<FileModel>, pending: Seq<CandidateModel>)
    requires
        paths_unique(c),
    ensures
        paths_unique(apply_deletions(c, pending)),
        forall|i: int|
            0 <= i < pending.len() ==> !has_record(
                apply_deletions(c, pending),
                #[trigger] pending[i].path,
                pending[i].key,
            ),
        forall|q: Seq<char>, k: Seq<char>|
            #[trigger] has_record(apply_deletions(c, pending), q, k) ==> has_record(c, q, k),
    decreases pending.len(),
{
    if pending.len() > 0 {
        let prefix = pending.drop_last();
        lemma_deletions(c, prefix);
        let prev = apply_deletions(c, prefix);
        let last = pending.last();
        lemma_removed(prev, last.path, last.key);
        assert forall|i: int| 0 <= i < pending.len() implies !has_record(
            apply_deletions(c, pending),
            #[trigger] pending[i].path,
            pending[i].key,
        ) by {
            if i < pending.len() - 1 {
                assert(pending[i] == prefix[i]);
                assert(!has_record(prev, prefix[i].path, prefix[i].key));
            } else {
                if has_record(prev, last.path, last.key) {
                } else {
                    assert(!has_record(removed(prev, last.path, last.key), last.path, last.key));
                }
            }
        }
    }
}

/// Once a request starts a cycle, every request is a no-op while it runs,
/// and after it ends at `end` every request is a no-op until more than the
/// cooldown has passed since `end`: at most one cycle per cooldown window.
pub proof fn lemma_one_cycle_per_window(
    v: DaemonModel,
    start: int,
    outcome: Option<Seq<ListedModel>>,
    end: int,
)
    requires
        gate_open(v, start),
    ensures
        forall|t: int| #[trigger]
            after_request(after_request(v, start), t) == after_request(v, start),
        forall|t: int|
            t - end <= UPDATE_INTERVAL ==> #[trigger] after_request(
                after_finish(after_request(v, start), outcome, end),
                t,
            ) == after_finish(after_request(v, start), outcome, end),
{
}

/// A successful cycle first evicts every candidate of the previous queue
/// once, then scans; its new queue is exactly the scan's stale records, and
/// it publishes the scan's grouping. No evicted candidate keeps a record
/// when the scan begins.
pub proof fn lemma_pending_rotation(v: DaemonModel, start: int, listing: Seq<ListedModel>, end: int)
    requires
        paths_unique(v.cache),
        gate_open(v, start),
        scan_ok(apply_deletions(v.cache, v.pending), listing),
    ensures
        ({
            let running = after_request(v, start);
            let done = after_finish(running, Some(listing), end);
            &&& running.cache == apply_deletions(v.cache, v.pending)
            &&& forall|i: int|
                0 <= i < v.pending.len() ==> !has_record(
                    running.cache,
                    #[trigger] v.pending[i].path,
                    v.pending[i].key,
                )
            &&& done.cache == scan_model(running.cache, listing).0
            &&& done.pending == stale_model(done.cache, listing)
            &&& done.last_finish == end
            &&& !done.running
            &&& published(running, Some(listing)) == Some(
                group_model(scan_model(running.cache, listing).1),
            )
        }),
{
    lemma_deletions(v.cache, v.pending);
}

/// What a scan makes of the cache: paths stay unique, every earlier answer
/// is kept, every listed path ends up recorded, and each discovered file
/// carries the hash the final cache holds for its path.
pub proof fn lemma_scan_records(c: Seq<FileModel>, listing: Seq<ListedModel>)
    requires
        paths_unique(c),
        scan_ok(c, listing),
    ensures
        ({
            let (c1, nodes) = scan_model(c, listing);
            &&& paths_unique(c1)
            &&& nodes.len() == listing.len()
            &&& forall|p: Seq<char>|
                has_path(c, p) ==> #[trigger] has_path(c1, p) && hash_for(c1, p) == hash_for(c, p)
            &&& forall|i: int|
                0 <= i < listing.len() ==> has_path(c1, #[trigger] listing[i].path) && nodes[i]
                    == (FileModel {
                    path: listing[i].path,
                    hash: hash_for(c1, listing[i].path),
                    key: listing[i].key,
                })
        }),
    decreases listing.len(),
{
    if listing.len() > 0 {
        let prefix = listing.drop_last();
        assert forall|i: int| 0 <= i < prefix.len() implies #[trigger] resolvable(c, prefix[i]) by {
            assert(prefix[i] == listing[i]);
            assert(resolvable(c, listing[i]));
        }
        lemma_scan_records(c, prefix);
        let (c0, n0) = scan_model(c, prefix);
        let l = listing.last();
        assert(resolvable(c, listing[listing.len() - 1]));
        if !has_path(c0, l.path) {
            lemma_push_fresh(c0, FileModel { path: l.path, hash: l.digest.unwrap(), key: l.key });
        }
        let (c1, nodes) = scan_model(c, listing);
        assert forall|i: int| 0 <= i < listing.len() implies has_path(
            c1,
            #[trigger] listing[i].path,
        ) && nodes[i] == (FileModel {
            path: listing[i].path,
            hash: hash_for(c1, listing[i].path),
            key: listing[i].key,
        }) by {
            if i < prefix.len() {
                assert(listing[i] == prefix[i]);
                assert(has_path(c0, prefix[i].path));
            }
        }
    }
}

/// A scan against a cache that records every listed path recomputes
/// nothing: the cache is unchanged, and each file gets its cached hash.
pub proof fn lemma_warm_scan(c: Seq<FileModel>, listing: Seq<ListedModel>)
    requires
        forall|i: int| 0 <= i < listing.len() ==> has_path(c, #[trigger] listing[i].path),
    ensures
        scan_ok(c, listing),
        scan_model(c, listing).0 == c,
        scan_model(c, listing).1 == listing.map_values(
            |l: ListedModel| FileModel { path: l.path, hash: hash_for(c, l.path), key: l.key },
        ),
    decreases listing.len(),
{
    let f = |l: ListedModel| FileModel { path: l.path, hash: hash_for(c, l.path), key: l.key };
    assert forall|i: int| 0 <= i < listing.len() implies #[trigger] resolvable(c, listing[i]) by {
        assert(has_path(c, listing[i].path));
    }
    if listing.len() > 0 {
        let prefix = listing.drop_last();
        assert forall|i: int| 0 <= i < prefix.len() implies has_path(c, #[trigger] prefix[i].path) by {
            assert(prefix[i] == listing[i]);
        }
        lemma_warm_scan(c, prefix);
        assert(has_path(c, listing[listing.len() - 1].path));
        assert(scan_model(c, listing).1 =~= listing.map_values(f));
    }
}

/// Scanning an unchanged directory a second time, against the cache the
/// first scan left, records nothing new whatever digests are handed in, and
/// yields the same files with the same hashes.
pub proof fn lemma_rescan_idempotent(
    c: Seq<FileModel>,
    first: Seq<ListedModel>,
    second: Seq<ListedModel>,
)
    requires
        paths_unique(c),
        scan_ok(c, first),
        second.len() == first.len(),
        forall|i: int|
            0 <= i < first.len() ==> #[trigger] second[i].path == first[i].path && second[i].key
                == first[i].key,
    ensures
        ({
            let (c1, nodes) = scan_model(c, first);
            &&& scan_ok(c1, second)
            &&& scan_model(c1, second).0 == c1
            &&& scan_model(c1, second).1 == nodes
        }),
{
    lemma_scan_records(c, first);
    let (c1, nodes) = scan_model(c, first);
    assert forall|i: int| 0 <= i < second.len() implies has_path(c1, #[trigger] second[i].path) by {
        assert(second[i].path == first[i].path);
        assert(has_path(c1, first[i].path));
    }
    lemma_warm_scan(c1, second);
    assert forall|i: int| 0 <= i < nodes.len() implies #[trigger] scan_model(c1, second).1[i]
        == nodes[i] by {
        assert(second[i].path == first[i].path);
        assert(has_path(c1, first[i].path));
    }
    assert(scan_model(c1, second).1 =~= nodes);
}

/// Evicting the record of a file that is still on disk and unchanged, then
/// resolving that file again with the digest of its content (the hash the
/// record held), records the file again with the same hash.
pub proof fn lemma_evict_then_rescan(c: Seq<FileModel>, p: Seq<char>, k: Seq<char>, file: ListedModel)
    requires
        paths_unique(c),
        has_record(c, p, k),
        file.path == p,
        file.key == k,
        file.digest == Some(hash_for(c, p)),
    ensures
        !has_path(removed(c, p, k), p),
        resolvable(removed(c, p, k), file),
        resolved_hash(removed(c, p, k), file) == hash_for(c, p),
        has_path(after_resolve(removed(c, p, k), file), p),
        hash_for(after_resolve(removed(c, p, k), file), p) == hash_for(c, p),
{
    lemma_removed(c, p, k);
    lemma_push_fresh(removed(c, p, k), FileModel { path: p, hash: hash_for(c, p), key: k });
}

} // verus!
