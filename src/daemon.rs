use vstd::prelude::*;

use crate::class::{
    candidates_view, files_view, groups_view, listed_view, CandidateModel, EptFileNode, FileModel,
    GroupModel, LazyDeleteNode, ListedFile, ListedModel, PackageGroup,
};
use crate::constant::UPDATE_INTERVAL;
use crate::hash_service::{has_path, loaded, removed, HashService};
use crate::scanner::{group_model, scan_model, scan_ok, stale_model, Scanner};

verus! {

/// The coordinator's state: when the last cycle ended, whether one is
/// running, the delete candidates of the last successful cycle, and the
/// records of the hash cache.
pub ghost struct DaemonModel {
    pub last_finish: int,
    pub running: bool,
    pub pending: Seq<CandidateModel>,
    pub cache: Seq<FileModel>,
}

/// A request at time `now` starts a cycle: none is running and the cooldown
/// since the end of the last one has passed.
pub open spec fn gate_open(v: DaemonModel, now: int) -> bool {
    !v.running && now - v.last_finish > UPDATE_INTERVAL
}

/// The cache records after evicting each candidate of `pending` once, in order.
pub open spec fn apply_deletions(c: Seq<FileModel>, pending: Seq<CandidateModel>) -> Seq<FileModel>
    decreases pending.len(),
{
    if pending.len() == 0 {
        c
    } else {
        let prev = apply_deletions(c, pending.drop_last());
        removed(prev, pending.last().path, pending.last().key)
    }
}

/// The state after a request at `now`. If `gate_open` holds, a cycle begins
/// and the queued candidates leave the cache; else the state stays as it was.
pub open spec fn after_request(v: DaemonModel, now: int) -> DaemonModel {
    if gate_open(v, now) {
        DaemonModel {
            last_finish: v.last_finish,
            running: true,
            pending: v.pending,
            cache: apply_deletions(v.cache, v.pending),
        }
    } else {
        v
    }
}

/// The listing handed to `finish` succeeds as a scan.
pub open spec fn cycle_succeeds(v: DaemonModel, outcome: Option<Seq<ListedModel>>) -> bool {
    v.running && outcome is Some && scan_ok(v.cache, outcome.unwrap())
}

/// The state after the running cycle ends at time `now` with `outcome`
/// (`None`: the directory could not be read). A success takes the scan's
/// cache and delete candidates; a failure keeps both. Either way the cycle
/// ends at `now`.
pub open spec fn after_finish(v: DaemonModel, outcome: Option<Seq<ListedModel>>, now: int) -> DaemonModel {
    if !v.running {
        v
    } else if cycle_succeeds(v, outcome) {
        let scanned = scan_model(v.cache, outcome.unwrap());
        DaemonModel {
            last_finish: now,
            running: false,
            pending: stale_model(scanned.0, outcome.unwrap()),
            cache: scanned.0,
        }
    } else {
        DaemonModel { last_finish: now, running: false, pending: v.pending, cache: v.cache }
    }
}

/// What a finished cycle publishes: the grouping of a successful scan.
pub open spec fn published(v: DaemonModel, outcome: Option<Seq<ListedModel>>) -> Option<Seq<GroupModel>> {
    if cycle_succeeds(v, outcome) {
        Some(group_model(scan_model(v.cache, outcome.unwrap()).1))
    } else {
        None
    }
}

pub open spec fn outcome_view(listing: Option<Vec<ListedFile>>) -> Option<Seq<ListedModel>> {
    match listing {
        Some(l) => Some(listed_view(l@)),
        None => None,
    }
}

pub open spec fn result_view(r: Option<Vec<PackageGroup>>) -> Option<Seq<GroupModel>> {
    match r {
        Some(g) => Some(groups_view(g@)),
        None => None,
    }
}

/// The commands the daemon recognises.
pub enum Command {
    Request,
}

/// The text of the request command.
pub open spec fn request_token() -> Seq<char> {
    seq!['r', 'e', 'q', 'u', 'e', 's', 't']
}

impl Command {
    /// The command that `text` names, if any.
    pub fn parse(text: &String) -> (r: Option<Command>)
        ensures
            r is Some == (text@ == request_token()),
    {
        let token = String::from_str("request");
        proof {
            reveal_strlit("request");
            assert(token@ =~= request_token());
        }
        if *text == token {
            Some(Command::Request)
        } else {
            None
        }
    }
}

/// Keeps the package index up to date: single-flight, rate-limited cycles
/// that evict the previous cycle's stale records, scan, and publish.
pub struct Daemon {
    timestamp_recent_finish: u64,
    status_running: bool,
    list_lazy_delete: Vec<LazyDeleteNode>,
    scanner: Scanner,
    dir_packages: String,
}

impl View for Daemon {
    type V = DaemonModel;

    closed spec fn view(&self) -> DaemonModel {
        DaemonModel {
            last_finish: self.timestamp_recent_finish as int,
            running: self.status_running,
            pending: candidates_view(self.list_lazy_delete@),
            cache: self.scanner.cache(),
        }
    }
}

impl Daemon {
    pub closed spec fn wf(&self) -> bool {
        self.scanner.wf()
    }

    /// The directory whose packages are indexed.
    pub closed spec fn dir(&self) -> Seq<char> {
        self.dir_packages@
    }

    /// A daemon over the cache loaded from `hash_map`, idle, with no pending
    /// candidates, whose last cycle ended at time zero.
    pub fn new(hash_map: Vec<EptFileNode>, dir_packages: String) -> (r: Self)
        ensures
            r.wf(),
            r@ == (DaemonModel {
                last_finish: 0,
                running: false,
                pending: Seq::empty(),
                cache: loaded(files_view(hash_map@)),
            }),
            r.dir() == dir_packages@,
    {
        let hash_service = HashService::new(hash_map);
        let scanner = Scanner::new(hash_service);
        let r = Daemon {
            timestamp_recent_finish: 0,
            status_running: false,
            list_lazy_delete: Vec::new(),
            scanner,
            dir_packages,
        };
        proof {
            assert(candidates_view(r.list_lazy_delete@) =~= Seq::<CandidateModel>::empty());
        }
        r
    }

    /// A request at time `now` (seconds). Returns whether a cycle started;
    /// then the caller lists the directory and calls `finish`.
    pub fn request(&mut self, now: u64) -> (r: bool)
        requires
            old(self).wf(),
        ensures
            final(self).wf(),
            r == gate_open(old(self)@, now as int),
            final(self)@ == after_request(old(self)@, now as int),
            final(self).dir() == old(self).dir(),
    {
        if self.status_running || now < self.timestamp_recent_finish || now
            - self.timestamp_recent_finish <= UPDATE_INTERVAL {
            return false;
        }
        self.status_running = true;
        let ghost c0 = self.scanner.cache();
        let ghost pend = candidates_view(self.list_lazy_delete@);
        let ghost ts = self.timestamp_recent_finish;
        let ghost d = self.dir_packages@;
        let mut i: usize = 0;
        while i < self.list_lazy_delete.len()
            invariant
                self.status_running,
                self.timestamp_recent_finish == ts,
                self.dir_packages@ == d,
                self.scanner.wf(),
                pend == candidates_view(self.list_lazy_delete@),
                0 <= i <= pend.len(),
                self.scanner.cache() == apply_deletions(c0, pend.take(i as int)),
            decreases pend.len() - i,
        {
            proof {
                assert(pend.take(i + 1).drop_last() =~= pend.take(i as int));
                assert(pend.take(i + 1).last() == pend[i as int]);
            }
            let path = self.list_lazy_delete[i].path.clone();
            let key = self.list_lazy_delete[i].key.clone();
            self.scanner.delete_file(path, key);
            i = i + 1;
        }
        proof {
            assert(pend.take(i as int) =~= pend);
        }
        true
    }

    /// Ends the running cycle at time `now` (seconds). `listing` holds the
    /// files found under the packages directory, or `None` when it could not
    /// be read. Returns the grouping to publish on success.
    pub fn finish(&mut self, listing: Option<Vec<ListedFile>>, now: u64) -> (r: Option<Vec<PackageGroup>>)
        requires
            old(self).wf(),
        ensures
            final(self).wf(),
            final(self)@ == after_finish(old(self)@, outcome_view(listing), now as int),
            result_view(r) == published(old(self)@, outcome_view(listing)),
            final(self).dir() == old(self).dir(),
    {
        if !self.status_running {
            return None;
        }
        let mut r: Option<Vec<PackageGroup>> = None;
        if let Some(files) = listing {
            match self.scanner.scan_packages(&files) {
                Ok((groups, stale)) => {
                    self.list_lazy_delete = stale;
                    r = Some(groups);
                },
                Err(_) => {},
            }
        }
        self.timestamp_recent_finish = now;
        self.status_running = false;
        r
    }

    /// Acts on an inbound command at time `now`: the request command makes a
    /// request, anything else is ignored. Returns whether a cycle started.
    pub fn handle(&mut self, command: &String, now: u64) -> (r: bool)
        requires
            old(self).wf(),
        ensures
            final(self).wf(),
            r == (command@ == request_token() && gate_open(old(self)@, now as int)),
            command@ == request_token() ==> final(self)@ == after_request(old(self)@, now as int),
            command@ != request_token() ==> final(self)@ == old(self)@,
            final(self).dir() == old(self).dir(),
    {
        match Command::parse(command) {
            Some(Command::Request) => self.request(now),
            None => false,
        }
    }

    /// Whether a listed file at `path` needs its digest computed: the cache
    /// has no record for it.
    pub fn needs_digest(&self, path: &String) -> (r: bool)
        requires
            self.wf(),
        ensures
            r == !has_path(self@.cache, path@),
    {
        !self.scanner.is_cached(path)
    }

    /// The records of the hash cache, for persistence.
    pub fn export(&self) -> (r: Vec<EptFileNode>)
        ensures
            files_view(r@) == self@.cache,
    {
        self.scanner.export()
    }

    /// The delete candidates left by the last successful cycle.
    pub fn pending(&self) -> (r: Vec<LazyDeleteNode>)
        ensures
            candidates_view(r@) == self@.pending,
    {
        let mut r: Vec<LazyDeleteNode> = Vec::new();
        let mut i: usize = 0;
        while i < self.list_lazy_delete.len()
            invariant
                0 <= i <= self.list_lazy_delete@.len(),
                candidates_view(r@) =~= candidates_view(self.list_lazy_delete@).take(i as int),
            decreases self.list_lazy_delete@.len() - i,
        {
            let ghost before = r@;
            r.push(self.list_lazy_delete[i].duplicate());
            proof {
                assert(candidates_view(r@) =~= candidates_view(before).push(
                    self.list_lazy_delete@[i as int]@,
                ));
            }
            i = i + 1;
        }
        proof {
            assert(candidates_view(self.list_lazy_delete@).take(i as int) =~= self@.pending);
        }
        r
    }

    /// When the last cycle ended (seconds).
    pub fn last_finish(&self) -> (r: u64)
        ensures
            r == self@.last_finish,
    {
        self.timestamp_recent_finish
    }

    /// Whether a cycle is running.
    pub fn is_running(&self) -> (r: bool)
        ensures
            r == self@.running,
    {
        self.status_running
    }

    /// The directory whose packages are indexed.
    pub fn dir_packages(&self) -> (r: String)
        ensures
            r@ == self.dir(),
    {
        self.dir_packages.clone()
    }
}

} // verus!
