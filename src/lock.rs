//! Resolution results, their assembly into a lock, the fetch-free reuse
//! check and the choice of cache entries to reclaim.

use vstd::prelude::*;

use crate::config::{SourceKind, SourceSpec};
use crate::render::Piece;

verus! {

/// A plugin fetched and materialized on disk.
#[derive(Debug)]
pub struct ResolvedPlugin {
    pub name: String,
    pub kind: SourceKind,
    /// Exact commit, resolved URL or canonical path.
    pub identity: String,
    /// Local directory that holds the materialized files.
    pub dir: String,
    /// Files to apply, after subdirectory and glob filtering.
    pub files: Vec<String>,
    /// Modification marker of a local source when it was locked.
    pub modified: u64,
    /// Template that replaces the default one for this plugin.
    pub template: Option<Vec<Piece>>,
}

/// Why a plugin could not be fetched.
#[derive(Clone, Copy, Debug, PartialEq, Eq, Structural)]
pub enum FetchErrorKind {
    Network,
    Authentication,
    RevisionNotFound,
    PathNotFound,
    CorruptArchive,
}

/// A failed fetch, with the plugin it belongs to.
#[derive(Debug)]
pub struct FetchError {
    pub plugin: String,
    pub kind: FetchErrorKind,
    pub detail: String,
}

/// The outcome of fetching the plugin declared at position `index`, as it
/// came back from the fetchers, in whatever order they finished.
#[derive(Debug)]
pub struct Completion {
    pub index: usize,
    pub result: Result<ResolvedPlugin, FetchError>,
}

/// The result of one resolution pass.
#[derive(Debug)]
pub struct LockedConfig {
    /// Fingerprint of the configuration that was resolved.
    pub fingerprint: u64,
    /// The resolved plugins, in declared order.
    pub plugins: Vec<ResolvedPlugin>,
    /// The failed plugins, in declared order.
    pub errors: Vec<FetchError>,
}

/// What a reuse check observed of one locked plugin on disk.
#[derive(Clone, Copy, Debug, PartialEq, Eq, Structural)]
pub struct Observation {
    /// Whether the plugin's directory still exists.
    pub dir_exists: bool,
    /// The current modification marker of its source.
    pub modified: u64,
}

/// Each declared position `0 .. c.len()` came back exactly once.
pub open spec fn is_permutation(c: Seq<Completion>) -> bool {
    &&& forall|j: int| 0 <= j < c.len() ==> #[trigger] c[j].index < c.len()
    &&& forall|j: int, k: int|
        0 <= j < c.len() && 0 <= k < c.len() && j != k ==> #[trigger] c[j].index
            != #[trigger] c[k].index
    &&& forall|i: int| 0 <= i < c.len() ==> #[trigger] came_back(c, i)
}

/// Some completion of `c` is for declared position `i`.
pub open spec fn came_back(c: Seq<Completion>, i: int) -> bool {
    exists|j: int| 0 <= j < c.len() && #[trigger] c[j].index == i
}

/// The outcome for declared position `i`.
pub open spec fn outcome_at(c: Seq<Completion>, i: int) -> Result<ResolvedPlugin, FetchError> {
    c[choose|j: int| 0 <= j < c.len() && c[j].index == i].result
}

/// The outcomes in declared order.
pub open spec fn in_order(c: Seq<Completion>) -> Seq<Result<ResolvedPlugin, FetchError>> {
    Seq::new(c.len(), |i: int| outcome_at(c, i))
}

/// The successes of `s`, in order.
pub open spec fn oks(s: Seq<Result<ResolvedPlugin, FetchError>>) -> Seq<ResolvedPlugin>
    decreases s.len(),
{
    if s.len() == 0 {
        Seq::empty()
    } else {
        match s.last() {
            Ok(p) => oks(s.drop_last()).push(p),
            Err(_) => oks(s.drop_last()),
        }
    }
}

/// The failures of `s`, in order.
pub open spec fn errs(s: Seq<Result<ResolvedPlugin, FetchError>>) -> Seq<FetchError>
    decreases s.len(),
{
    if s.len() == 0 {
        Seq::empty()
    } else {
        match s.last() {
            Ok(_) => errs(s.drop_last()),
            Err(e) => errs(s.drop_last()).push(e),
        }
    }
}

/// Assembles the outcomes of one resolution pass into a lock: successes
/// and failures each keep the declared order, whatever order the fetches
/// finished in, and no plugin is dropped.
pub fn locked(config: &Vec<SourceSpec>, fingerprint: u64, completions: Vec<Completion>) -> (r:
    LockedConfig)
    requires
        completions@.len() == config@.len(),
        is_permutation(completions@),
    ensures
        r.fingerprint == fingerprint,
        r.plugins@ == oks(in_order(completions@)),
        r.errors@ == errs(in_order(completions@)),
{
    let ghost c = completions@;
    let n: usize = completions.len();
    let mut slots: Vec<Option<Result<ResolvedPlugin, FetchError>>> = Vec::new();
    let mut i: usize = 0;
    while i < n
        invariant
            i <= n,
            slots@.len() == i,
            forall|k: int| 0 <= k < i ==> slots@[k] is None,
        decreases n - i,
    {
        slots.push(None);
        i = i + 1;
    }
    let mut rest = completions;
    let mut k: usize = 0;
    while rest.len() > 0
        invariant
            n == c.len(),
            is_permutation(c),
            k + rest@.len() == n,
            rest@ == c.subrange(k as int, n as int),
            slots@.len() == n,
            forall|j: int| 0 <= j < k ==> slots@[#[trigger] c[j].index as int] == Some(c[j].result),
            forall|x: int|
                0 <= x < n && !(exists|j: int| 0 <= j < k && c[j].index == x) ==> (
                #[trigger] slots@[x]) is None,
        decreases rest@.len(),
    {
        let done = rest.remove(0);
        assert(done == c[k as int]);
        let idx = done.index;
        slots.set(idx, Some(done.result));
        proof {
            assert(rest@ =~= c.subrange(k + 1, n as int));
            assert forall|x: int|
                0 <= x < n && !(exists|j: int| 0 <= j < k + 1 && c[j].index == x) implies (
                #[trigger] slots@[x]) is None by {
                assert(c[k as int].index != x);
            }
        }
        k = k + 1;
    }
    proof {
        assert forall|x: int| 0 <= x < n implies #[trigger] slots@[x] == Some(outcome_at(c, x)) by {
            assert(came_back(c, x));
            let j = choose|j: int| 0 <= j < c.len() && c[j].index == x;
            assert(slots@[c[j].index as int] == Some(c[j].result));
        }
    }
    let ghost ord = in_order(c);
    let mut plugins: Vec<ResolvedPlugin> = Vec::new();
    let mut errors: Vec<FetchError> = Vec::new();
    let mut m: usize = 0;
    proof {
        assert(ord.subrange(0, 0) =~= Seq::<Result<ResolvedPlugin, FetchError>>::empty());
    }
    while slots.len() > 0
        invariant
            n == c.len(),
            ord == in_order(c),
            m + slots@.len() == n,
            forall|x: int| 0 <= x < slots@.len() ==> #[trigger] slots@[x] == Some(ord[m + x]),
            plugins@ == oks(ord.subrange(0, m as int)),
            errors@ == errs(ord.subrange(0, m as int)),
        decreases slots@.len(),
    {
        let ghost before = slots@;
        let slot = slots.remove(0);
        proof {
            assert(slot == Some(ord[m as int]));
            assert forall|x: int| 0 <= x < slots@.len() implies #[trigger] slots@[x] == Some(
                ord[m + 1 + x],
            ) by {
                assert(slots@[x] == before[x + 1]);
            }
            assert(ord.subrange(0, m + 1).drop_last() =~= ord.subrange(0, m as int));
        }
        match slot {
            Some(Ok(p)) => plugins.push(p),
            Some(Err(e)) => errors.push(e),
            None => {},
        }
        m = m + 1;
    }
    proof {
        assert(ord.subrange(0, n as int) =~= ord);
    }
    LockedConfig { fingerprint, plugins, errors }
}

/// An existing lock can be used as it is: it was made from a configuration
/// with this fingerprint, every plugin directory is still there, and no local
/// source changed since.
pub open spec fn still_valid(l: LockedConfig, fingerprint: u64, observed: Seq<Observation>) -> bool {
    &&& l.fingerprint == fingerprint
    &&& observed.len() == l.plugins@.len()
    &&& forall|i: int|
        0 <= i < observed.len() ==> (#[trigger] observed[i]).dir_exists && (l.plugins@[i].kind
            == SourceKind::Local ==> observed[i].modified == l.plugins@[i].modified)
}

/// Whether some plugin of `plugins` lives in directory `entry`.
pub open spec fn referenced(plugins: Seq<ResolvedPlugin>, entry: Seq<char>) -> bool {
    exists|i: int| 0 <= i < plugins.len() && #[trigger] plugins[i].dir@ == entry
}

/// The cache entries that no plugin of `plugins` lives in, in order.
pub open spec fn unreferenced(entries: Seq<String>, plugins: Seq<ResolvedPlugin>) -> Seq<String>
    decreases entries.len(),
{
    if entries.len() == 0 {
        Seq::empty()
    } else {
        let rest = unreferenced(entries.drop_last(), plugins);
        if referenced(plugins, entries.last()@) {
            rest
        } else {
            rest.push(entries.last())
        }
    }
}

/// The cache entries to delete after a pass: none when a plugin failed,
/// else those that no resolved plugin lives in.
pub open spec fn reclaimable(l: LockedConfig, entries: Seq<String>) -> Seq<String> {
    if l.errors@.len() > 0 {
        Seq::empty()
    } else {
        unreferenced(entries, l.plugins@)
    }
}

/// Every declared plugin ends up exactly once in a pass: either among the
/// successes or among the failures.
pub proof fn lemma_outcomes_cover(s: Seq<Result<ResolvedPlugin, FetchError>>)
    ensures
        oks(s).len() + errs(s).len() == s.len(),
    decreases s.len(),
{
    if s.len() > 0 {
        lemma_outcomes_cover(s.drop_last());
    }
}

/// When every plugin resolves, the lock lists them in declared order: its
/// `i`-th plugin is the outcome of the `i`-th declared one.
pub proof fn lemma_order_preserved(s: Seq<Result<ResolvedPlugin, FetchError>>)
    requires
        forall|i: int| 0 <= i < s.len() ==> #[trigger] s[i] is Ok,
    ensures
        oks(s).len() == s.len(),
        forall|i: int| 0 <= i < s.len() ==> s[i] == Ok::<ResolvedPlugin, FetchError>(#[trigger] oks(s)[i]),
    decreases s.len(),
{
    if s.len() > 0 {
        let t = s.drop_last();
        assert forall|i: int| 0 <= i < t.len() implies #[trigger] t[i] is Ok by {
            assert(t[i] == s[i]);
        }
        lemma_order_preserved(t);
        assert(s.last() == s[s.len() - 1]);
        assert forall|i: int| 0 <= i < s.len() implies s[i] == Ok::<ResolvedPlugin, FetchError>(#[trigger] oks(s)[i]) by {
            if i < s.len() - 1 {
                assert(t[i] == s[i]);
            }
        }
    }
}

/// Locking twice with the same outcome for every declared plugin gives the
/// same lock, whatever order the fetches finished in each time.
pub proof fn lemma_lock_idempotent(c1: Seq<Completion>, c2: Seq<Completion>)
    requires
        is_permutation(c1),
        is_permutation(c2),
        c1.len() == c2.len(),
        forall|i: int| 0 <= i < c1.len() ==> #[trigger] outcome_at(c1, i) == outcome_at(c2, i),
    ensures
        oks(in_order(c1)) == oks(in_order(c2)),
        errs(in_order(c1)) == errs(in_order(c2)),
{
    assert(in_order(c1) =~= in_order(c2));
}

/// A lock made from a configuration with another fingerprint, such as one
/// with a plugin added since, is never reused.
pub proof fn lemma_changed_config_forces_relock(
    l: LockedConfig,
    fingerprint: u64,
    observed: Seq<Observation>,
)
    requires
        l.fingerprint != fingerprint,
    ensures
        !still_valid(l, fingerprint, observed),
{
}

/// Whether some entry of `entries` is `e`.
pub open spec fn lists(entries: Seq<String>, e: Seq<char>) -> bool {
    exists|i: int| 0 <= i < entries.len() && #[trigger] entries[i]@ == e
}

proof fn lemma_unreferenced_member(entries: Seq<String>, plugins: Seq<ResolvedPlugin>, e: Seq<char>)
    ensures
        lists(unreferenced(entries, plugins), e) <==> (lists(entries, e) && !referenced(plugins, e)),
    decreases entries.len(),
{
    if entries.len() > 0 {
        let t = entries.drop_last();
        let u = unreferenced(entries, plugins);
        let ut = unreferenced(t, plugins);
        lemma_unreferenced_member(t, plugins, e);
        if lists(entries, e) && entries.last()@ != e {
            let i = choose|i: int| 0 <= i < entries.len() && entries[i]@ == e;
            assert(t[i]@ == e);
        }
        if lists(t, e) {
            let i = choose|i: int| 0 <= i < t.len() && t[i]@ == e;
            assert(entries[i]@ == e);
        }
        if lists(ut, e) {
            let i = choose|i: int| 0 <= i < ut.len() && ut[i]@ == e;
            assert(u[i]@ == e);
        }
        if lists(u, e) && !lists(ut, e) {
            let i = choose|i: int| 0 <= i < u.len() && u[i]@ == e;
            assert(entries[entries.len() - 1]@ == e);
        }
        if !referenced(plugins, e) && entries.last()@ == e {
            assert(u[u.len() - 1]@ == e);
        }
    }
}

/// After a pass, a cache entry that no resolved plugin lives in (such as
/// the directory of a plugin removed from the configuration) is reclaimed
/// when the pass had no failure, and kept when it had one; an entry that a
/// plugin lives in is never reclaimed.
pub proof fn lemma_reclaim(l: LockedConfig, entries: Seq<String>, e: Seq<char>)
    requires
        lists(entries, e),
    ensures
        l.errors@.len() == 0 && !referenced(l.plugins@, e) ==> lists(reclaimable(l, entries), e),
        l.errors@.len() > 0 ==> !lists(reclaimable(l, entries), e),
        referenced(l.plugins@, e) ==> !lists(reclaimable(l, entries), e),
{
    lemma_unreferenced_member(entries, l.plugins@, e);
}

/// What to do with a finished resolution pass.
#[derive(Debug)]
pub enum LockPlan {
    /// Delete the `stale` cache entries, then write `locked` as the lock file.
    Write { stale: Vec<String>, locked: LockedConfig },
    /// Keep the lock file as it is: report each of `warnings`, then fail
    /// with `last`.
    Fail { warnings: Vec<FetchError>, last: FetchError },
}

impl LockedConfig {
    /// Whether this lock can be reused without fetching anything;
    /// `observed[i]` is what was found on disk for `plugins[i]`.
    pub fn verify(&self, fingerprint: u64, observed: &Vec<Observation>) -> (r: bool)
        ensures
            r == still_valid(*self, fingerprint, observed@),
    {
        if self.fingerprint != fingerprint || observed.len() != self.plugins.len() {
            return false;
        }
        let mut i: usize = 0;
        while i < observed.len()
            invariant
                observed@.len() == self.plugins@.len(),
                i <= observed@.len(),
                forall|k: int|
                    0 <= k < i ==> (#[trigger] observed@[k]).dir_exists && (self.plugins@[k].kind
                        == SourceKind::Local ==> observed@[k].modified == self.plugins@[k].modified),
            decreases observed@.len() - i,
        {
            let o = observed[i];
            let p = &self.plugins[i];
            if !o.dir_exists {
                return false;
            }
            if p.kind == SourceKind::Local && o.modified != p.modified {
                return false;
            }
            i = i + 1;
        }
        true
    }

    /// Whether some plugin of this lock lives in directory `entry`.
    pub fn references(&self, entry: &String) -> (r: bool)
        ensures
            r == referenced(self.plugins@, entry@),
    {
        let mut i: usize = 0;
        while i < self.plugins.len()
            invariant
                i <= self.plugins@.len(),
                forall|k: int| 0 <= k < i ==> #[trigger] self.plugins@[k].dir@ != entry@,
            decreases self.plugins@.len() - i,
        {
            if self.plugins[i].dir == *entry {
                return true;
            }
            i = i + 1;
        }
        false
    }

    /// The cache entries to delete once this pass is done: those that no
    /// resolved plugin lives in, and none at all when some plugin failed, so
    /// that a failed fetch never costs another plugin its cache.
    pub fn clean(&self, entries: &Vec<String>) -> (r: Vec<String>)
        ensures
            r@ == reclaimable(*self, entries@),
    {
        let mut stale: Vec<String> = Vec::new();
        if self.errors.len() > 0 {
            return stale;
        }
        let mut i: usize = 0;
        while i < entries.len()
            invariant
                i <= entries@.len(),
                stale@ == unreferenced(entries@.subrange(0, i as int), self.plugins@),
            decreases entries@.len() - i,
        {
            proof {
                assert(entries@.subrange(0, i + 1).drop_last() =~= entries@.subrange(0, i as int));
            }
            if !self.references(&entries[i]) {
                stale.push(entries[i].clone());
            }
            i = i + 1;
        }
        proof {
            assert(entries@.subrange(0, entries@.len() as int) =~= entries@);
        }
        stale
    }
}

/// Decides what a lock pass leads to: with no failure the stale cache
/// entries go and the lock is written; otherwise the lock file stays as it
/// was, every failure but the last is reported and the last one is the
/// pass's error.
pub fn lock(locked: LockedConfig, entries: &Vec<String>) -> (r: LockPlan)
    ensures
        locked.errors@.len() == 0 ==> (r matches LockPlan::Write { stale, locked: l }
            && stale@ == reclaimable(locked, entries@) && l == locked),
        locked.errors@.len() > 0 ==> (r matches LockPlan::Fail { warnings, last }
            && warnings@ == locked.errors@.drop_last() && last == locked.errors@.last()),
{
    if locked.errors.len() == 0 {
        let stale = locked.clean(entries);
        return LockPlan::Write { stale, locked };
    }
    let mut warnings = locked.errors;
    let last = warnings.pop().unwrap();
    LockPlan::Fail { warnings, last }
}

} // verus!
