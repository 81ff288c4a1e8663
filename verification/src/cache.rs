//! Time- and size-bounded cache for the outputs of repeated OS probe
//! commands.
//!
//! The cache is a map from probe key to the last captured output, each entry
//! carrying the capture moment in milliseconds of the caller's monotonic
//! clock.  The surrounding application owns the single shared instance and
//! the clock; every method here takes explicit timestamps, so the whole
//! policy — freshness, the size bound with oldest-first eviction, prefix
//! invalidation and the staleness sweep — is verified for every clock value.

use vstd::prelude::*;

use crate::MAX_CACHE_ENTRIES;
use crate::text::str_eq;
use crate::text::str_starts_with;

verus! {

/// Captured result of one probe command: raw standard output and whether
/// the command reported success.
pub struct ProbeOutput {
    pub stdout: Vec<u8>,
    pub success: bool,
}

/// One cache slot: a probe key, the captured output, and the capture moment.
pub struct CacheEntry {
    pub key: String,
    pub output: ProbeOutput,
    pub timestamp_ms: u64,
}

/// An entry captured at `ts` is still fresh at `now` under the given age cap.
pub open spec fn entry_fresh(ts: u64, now: u64, max_age: u64) -> bool {
    now - ts < max_age
}

/// No two slots share a key, so each key denotes at most one entry.
pub open spec fn entries_unique(s: Seq<CacheEntry>) -> bool {
    forall|i: int, j: int|
        0 <= i < j < s.len() ==> (#[trigger] s[i]).key@ != (#[trigger] s[j]).key@
}

/// Some slot of `s` holds key `k`.
pub open spec fn has_key(s: Seq<CacheEntry>, k: Seq<char>) -> bool {
    exists|i: int| 0 <= i < s.len() && (#[trigger] s[i]).key@ == k
}

/// The position of the slot holding key `k` (meaningful when `has_key`).
pub open spec fn key_index(s: Seq<CacheEntry>, k: Seq<char>) -> int {
    choose|i: int| 0 <= i < s.len() && (#[trigger] s[i]).key@ == k
}

/// The entry at position `j` has the smallest capture timestamp in `s`.
pub open spec fn is_oldest_at(s: Seq<CacheEntry>, j: int) -> bool {
    &&& 0 <= j < s.len()
    &&& forall|i: int| 0 <= i < s.len() ==> s[j].timestamp_ms <= (#[trigger] s[i]).timestamp_ms
}

/// Under unique keys, positions with equal keys coincide.
proof fn lemma_unique_entry(s: Seq<CacheEntry>, a: int, b: int)
    requires
        entries_unique(s),
        0 <= a < s.len(),
        0 <= b < s.len(),
        s[a].key@ == s[b].key@,
    ensures
        a == b,
{
    if a < b {
        assert(s[a].key@ != s[b].key@);
    } else if b < a {
        assert(s[b].key@ != s[a].key@);
    }
}

/// Unfolds one step of `Seq::filter` at the pushed-on last element.
proof fn lemma_filter_push(s: Seq<CacheEntry>, pred: spec_fn(CacheEntry) -> bool, x: CacheEntry)
    ensures
        s.push(x).filter(pred) == if pred(x) {
            s.filter(pred).push(x)
        } else {
            s.filter(pred)
        },
{
    reveal(Seq::filter);
    assert(s.push(x).drop_last() =~= s);
    assert(s.push(x).last() == x);
}

/// A value is in the filtered sequence exactly when it is in the unfiltered
/// one and satisfies the predicate.
proof fn lemma_filter_membership(
    s: Seq<CacheEntry>,
    pred: spec_fn(CacheEntry) -> bool,
    x: CacheEntry,
)
    ensures
        s.filter(pred).contains(x) <==> (s.contains(x) && pred(x)),
    decreases s.len(),
{
    reveal(Seq::filter);
    if s.len() == 0 {
    } else {
        let dl = s.drop_last();
        lemma_filter_membership(dl, pred, x);
        assert(s.contains(x) <==> (dl.contains(x) || x == s.last())) by {
            if s.contains(x) {
                let i = choose|i: int| 0 <= i < s.len() && s[i] == x;
                if i < s.len() - 1 {
                    assert(dl[i] == x);
                    assert(dl.contains(x));
                }
            }
            if dl.contains(x) {
                let i = choose|i: int| 0 <= i < dl.len() && dl[i] == x;
                assert(s[i] == x);
            }
            if x == s.last() {
                assert(s[s.len() - 1] == x);
            }
        }
        if pred(s.last()) {
            let f = dl.filter(pred);
            assert(s.filter(pred) == f.push(s.last()));
            assert(f.push(s.last()).contains(x) <==> (f.contains(x) || x == s.last())) by {
                if f.push(s.last()).contains(x) {
                    let i = choose|i: int|
                        0 <= i < f.push(s.last()).len() && f.push(s.last())[i] == x;
                    if i < f.len() {
                        assert(f[i] == x);
                    }
                }
                if f.contains(x) {
                    let i = choose|i: int| 0 <= i < f.len() && f[i] == x;
                    assert(f.push(s.last())[i] == x);
                }
                assert(f.push(s.last())[f.len() as int] == s.last());
            }
        }
    }
}

/// Filtering never brings two slots with the same key together.
proof fn lemma_filter_unique(s: Seq<CacheEntry>, pred: spec_fn(CacheEntry) -> bool)
    requires
        entries_unique(s),
    ensures
        entries_unique(s.filter(pred)),
    decreases s.len(),
{
    reveal(Seq::filter);
    if s.len() == 0 {
    } else {
        let dl = s.drop_last();
        assert(entries_unique(dl)) by {
            assert forall|i: int, j: int| 0 <= i < j < dl.len() implies (#[trigger] dl[i]).key@
                != (#[trigger] dl[j]).key@ by {
                assert(s[i].key@ != s[j].key@);
            }
        }
        lemma_filter_unique(dl, pred);
        let f = dl.filter(pred);
        if pred(s.last()) {
            assert(s.filter(pred) == f.push(s.last()));
            assert forall|a: int, b: int| 0 <= a < b < f.len() + 1 implies (#[trigger] f.push(
                s.last(),
            )[a]).key@ != (#[trigger] f.push(s.last())[b]).key@ by {
                if b == f.len() {
                    assert(f.contains(f[a]));
                    lemma_filter_membership(dl, pred, f[a]);
                    let i = choose|i: int| 0 <= i < dl.len() && dl[i] == f[a];
                    assert(s[i] == f[a]);
                    assert(s[i].key@ != s[s.len() - 1].key@);
                }
            }
        }
    }
}

/// Removing a slot only ever removes values; everything still present was
/// present before.
proof fn lemma_remove_contains(s: Seq<CacheEntry>, j: int, x: CacheEntry)
    requires
        0 <= j < s.len(),
        s.remove(j).contains(x),
    ensures
        s.contains(x),
{
    let r = s.remove(j);
    let a = choose|a: int| 0 <= a < r.len() && r[a] == x;
    if a < j {
        assert(s[a] == x);
    } else {
        assert(s[a + 1] == x);
    }
}

/// Bounded map from probe key to captured probe output.
pub struct CommandCache {
    entries: Vec<CacheEntry>,
}

impl View for CommandCache {
    type V = Seq<CacheEntry>;

    closed spec fn view(&self) -> Seq<CacheEntry> {
        self.entries@
    }
}

impl CommandCache {
    /// Cache invariant: distinct keys, never more than the fixed maximum.
    pub open spec fn wf(&self) -> bool {
        &&& self@.len() <= MAX_CACHE_ENTRIES
        &&& entries_unique(self@)
    }

    pub open spec fn contains_key(&self, k: Seq<char>) -> bool {
        has_key(self@, k)
    }

    /// The unique entry stored under key `k` (meaningful when present).
    pub open spec fn entry_for(&self, k: Seq<char>) -> CacheEntry {
        self@[key_index(self@, k)]
    }

    pub fn new() -> (r: Self)
        ensures
            r.wf(),
            r@.len() == 0,
    {
        CommandCache { entries: Vec::new() }
    }

    pub fn len(&self) -> (r: usize)
        ensures
            r == self@.len(),
    {
        self.entries.len()
    }

    /// Freshness law: the lookup yields the stored output exactly when the
    /// entry exists and `now - capture < max_age`; an expired entry counts
    /// as absent but is not removed here.
    pub fn get(&self, key: &str, now_ms: u64, max_age_ms: u64) -> (r: Option<&ProbeOutput>)
        requires
            self.wf(),
        ensures
            r is Some <==> self.contains_key(key@) && entry_fresh(
                self.entry_for(key@).timestamp_ms,
                now_ms,
                max_age_ms,
            ),
            r matches Some(o) ==> *o == self.entry_for(key@).output,
    {
        let n = self.entries.len();
        let mut i: usize = 0;
        while i < n
            invariant
                0 <= i <= n,
                n == self@.len(),
                self.wf(),
                forall|j: int| 0 <= j < i ==> (#[trigger] self@[j]).key@ != key@,
            decreases n - i,
        {
            if str_eq(self.entries[i].key.as_str(), key) {
                proof {
                    assert(self@[i as int].key@ == key@);
                    assert(self.contains_key(key@));
                    lemma_unique_entry(self@, key_index(self@, key@), i as int);
                }
                let ts = self.entries[i].timestamp_ms;
                if now_ms < ts || now_ms - ts < max_age_ms {
                    return Some(&self.entries[i].output);
                } else {
                    return None;
                }
            }
            i = i + 1;
        }
        proof {
            assert(!self.contains_key(key@));
        }
        None
    }

    /// Removes one entry with the smallest capture timestamp; on an empty
    /// cache this is a no-op.  Eviction is a capacity safety valve: ties are
    /// broken arbitrarily.
    pub fn evict_oldest(&mut self)
        requires
            entries_unique(old(self)@),
        ensures
            entries_unique(final(self)@),
            old(self)@.len() == 0 ==> final(self)@ == old(self)@,
            old(self)@.len() > 0 ==> exists|j: int|
                is_oldest_at(old(self)@, j) && final(self)@ == old(self)@.remove(j),
            old(self)@.len() > 0 ==> final(self)@.len() == old(self)@.len() - 1,
    {
        let n = self.entries.len();
        if n == 0 {
            return ;
        }
        let mut oldest: usize = 0;
        let mut i: usize = 1;
        while i < n
            invariant
                0 <= oldest < i <= n,
                n == self@.len(),
                forall|j: int|
                    0 <= j < i ==> self@[oldest as int].timestamp_ms <= (
                    #[trigger] self@[j]).timestamp_ms,
            decreases n - i,
        {
            if self.entries[i].timestamp_ms < self.entries[oldest].timestamp_ms {
                oldest = i;
            }
            i = i + 1;
        }
        proof {
            assert(is_oldest_at(self@, oldest as int));
        }
        let ghost pre = self@;
        self.entries.remove(oldest);
        proof {
            let j = oldest as int;
            assert(self@ == pre.remove(j));
            assert forall|a: int, b: int| 0 <= a < b < self@.len() implies (#[trigger] self@[a]).key@
                != (#[trigger] self@[b]).key@ by {
                if b < j {
                    assert(pre[a].key@ != pre[b].key@);
                } else if a < j {
                    assert(pre[a].key@ != pre[b + 1].key@);
                } else {
                    assert(pre[a + 1].key@ != pre[b + 1].key@);
                }
            }
        }
    }

    /// Upsert.  At capacity the single globally-oldest entry is evicted
    /// first; below capacity every other key survives.  Afterwards the key
    /// holds exactly the given output at the given capture moment.
    #[verifier::loop_isolation(false)]
    pub fn insert(&mut self, key: String, output: ProbeOutput, now_ms: u64)
        requires
            old(self).wf(),
        ensures
            final(self).wf(),
            final(self).contains_key(key@),
            final(self).entry_for(key@).output == output,
            final(self).entry_for(key@).timestamp_ms == now_ms,
            forall|k: Seq<char>|
                k != key@ && #[trigger] final(self).contains_key(k) ==> old(self).contains_key(k)
                    && final(self).entry_for(k) == old(self).entry_for(k),
            old(self)@.len() < MAX_CACHE_ENTRIES ==> forall|k: Seq<char>|
                k != key@ && #[trigger] old(self).contains_key(k) ==> final(self).contains_key(k),
            old(self)@.len() >= MAX_CACHE_ENTRIES ==> exists|j: int|
                is_oldest_at(old(self)@, j) && (forall|k: Seq<char>|
                    k != key@ && k != old(self)@[j].key@ && #[trigger] old(self).contains_key(k)
                        ==> final(self).contains_key(k)),
    {
        let ghost orig = self@;
        if self.entries.len() >= MAX_CACHE_ENTRIES {
            self.evict_oldest();
        }
        let ghost mid = self@;
        proof {
            assert(entries_unique(mid));
            assert(mid.len() < MAX_CACHE_ENTRIES);
        }
        let n = self.entries.len();
        let entry = CacheEntry { key, output, timestamp_ms: now_ms };
        let mut i: usize = 0;
        while i < n
            invariant
                0 <= i <= n,
                n == self@.len(),
                self@ == mid,
                orig == old(self)@,
                entries_unique(orig),
                orig.len() <= MAX_CACHE_ENTRIES,
                orig.len() >= MAX_CACHE_ENTRIES ==> mid != orig && exists|j: int|
                    is_oldest_at(orig, j) && mid == orig.remove(j),
                orig.len() < MAX_CACHE_ENTRIES ==> mid == orig,
                mid.len() < MAX_CACHE_ENTRIES,
                entries_unique(mid),
                forall|j: int| 0 <= j < i ==> (#[trigger] self@[j]).key@ != entry.key@,
            decreases n - i,
        {
            if str_eq(self.entries[i].key.as_str(), entry.key.as_str()) {
                proof {
                    assert(mid[i as int].key@ == entry.key@);
                }
                self.entries.set(i, entry);
                proof {
                    let fin = self@;
                    assert(fin == mid.update(i as int, entry));
                    assert(fin[i as int] == entry);
                    assert(has_key(fin, entry.key@));
                    // keys are positionally unchanged, so uniqueness carries over
                    assert(entries_unique(fin)) by {
                        assert forall|a: int, b: int| 0 <= a < b < fin.len() implies (
                        #[trigger] fin[a]).key@ != (#[trigger] fin[b]).key@ by {
                            assert(fin[a].key@ == mid[a].key@);
                            assert(fin[b].key@ == mid[b].key@);
                            assert(mid[a].key@ != mid[b].key@);
                        }
                    }
                    assert(fin[key_index(fin, entry.key@)].key@ == entry.key@);
                    lemma_unique_entry(fin, key_index(fin, entry.key@), i as int);
                    Self::lemma_other_keys(orig, mid, fin, i as int, entry, true);
                }
                return ;
            }
            i = i + 1;
        }
        self.entries.push(entry);
        proof {
            let fin = self@;
            assert(fin == mid.push(entry));
            assert(fin[n as int] == entry);
            assert(has_key(fin, entry.key@));
            assert(entries_unique(fin)) by {
                assert forall|a: int, b: int| 0 <= a < b < fin.len() implies (#[trigger] fin[a]).key@
                    != (#[trigger] fin[b]).key@ by {
                    if b < n as int {
                        assert(mid[a].key@ != mid[b].key@);
                    } else {
                        assert(fin[a].key@ == mid[a].key@);
                        assert(mid[a].key@ != entry.key@);
                    }
                }
            }
            assert(fin[key_index(fin, entry.key@)].key@ == entry.key@);
            lemma_unique_entry(fin, key_index(fin, entry.key@), n as int);
            Self::lemma_other_keys(orig, mid, fin, n as int, entry, false);
        }
    }

    /// After the optional eviction (`orig` to `mid`) and the write of
    /// `entry` at position `at` (`mid` to `fin`), every other key still
    /// present was present at the start with the same entry, and below
    /// capacity, or unless it was the evicted oldest, it survives.
    proof fn lemma_other_keys(
        orig: Seq<CacheEntry>,
        mid: Seq<CacheEntry>,
        fin: Seq<CacheEntry>,
        at: int,
        entry: CacheEntry,
        is_update: bool,
    )
        requires
            entries_unique(orig),
            entries_unique(mid),
            entries_unique(fin),
            mid == orig || exists|j: int| is_oldest_at(orig, j) && mid == orig.remove(j),
            is_update ==> 0 <= at < mid.len() && fin == mid.update(at, entry) && mid[at].key@
                == entry.key@,
            !is_update ==> at == mid.len() && fin == mid.push(entry),
        ensures
            forall|k: Seq<char>|
                k != entry.key@ && #[trigger] has_key(fin, k) ==> has_key(orig, k)
                    && fin[key_index(fin, k)] == orig[key_index(orig, k)],
            mid == orig ==> forall|k: Seq<char>|
                k != entry.key@ && #[trigger] has_key(orig, k) ==> has_key(fin, k),
            mid != orig ==> exists|j: int|
                is_oldest_at(orig, j) && (forall|k: Seq<char>|
                    k != entry.key@ && k != orig[j].key@ && #[trigger] has_key(orig, k) ==> has_key(
                        fin,
                        k,
                    )),
    {
        assert(fin[at] == entry);
        assert forall|k: Seq<char>| k != entry.key@ && #[trigger] has_key(fin, k) implies has_key(
            orig,
            k,
        ) && fin[key_index(fin, k)] == orig[key_index(orig, k)] by {
            let a = key_index(fin, k);
            assert(0 <= a < fin.len() && fin[a].key@ == k);
            assert(a != at);
            if is_update {
                assert(fin[a] == mid[a]);
            } else {
                assert(a < mid.len());
                assert(fin[a] == mid[a]);
            }
            assert(0 <= a < mid.len());
            assert(mid.contains(mid[a]));
            if mid == orig {
                assert(orig.contains(fin[a]));
            } else {
                let j = choose|j: int| is_oldest_at(orig, j) && mid == orig.remove(j);
                lemma_remove_contains(orig, j, mid[a]);
            }
            let b = choose|b: int| 0 <= b < orig.len() && orig[b] == fin[a];
            assert(orig[b].key@ == k);
            assert(has_key(orig, k));
            assert(orig[key_index(orig, k)].key@ == k);
            lemma_unique_entry(orig, key_index(orig, k), b);
        }
        if mid == orig {
            assert forall|k: Seq<char>|
                k != entry.key@ && #[trigger] has_key(orig, k) implies has_key(fin, k) by {
                let b = key_index(orig, k);
                assert(0 <= b < orig.len() && orig[b].key@ == k);
                if is_update {
                    assert(b != at);
                    assert(fin[b].key@ == k);
                } else {
                    assert(fin[b].key@ == k);
                }
            }
        } else {
            let j = choose|j: int| is_oldest_at(orig, j) && mid == orig.remove(j);
            assert forall|k: Seq<char>|
                k != entry.key@ && k != orig[j].key@ && #[trigger] has_key(orig, k) implies has_key(
                fin,
                k,
            ) by {
                let b = key_index(orig, k);
                assert(0 <= b < orig.len() && orig[b].key@ == k);
                assert(b != j) by {
                    if b == j {
                        assert(orig[j].key@ == k);
                    }
                }
                let m = if b < j {
                    b
                } else {
                    b - 1
                };
                assert(mid[m] == orig[b]);
                assert(mid[m].key@ == k);
                if is_update {
                    assert(m != at);
                    assert(fin[m].key@ == k);
                } else {
                    assert(fin[m].key@ == k);
                }
            }
        }
    }

    /// Removes every entry whose key starts with `prefix` and no other.
    #[verifier::loop_isolation(false)]
    pub fn invalidate(&mut self, prefix: &str)
        requires
            old(self).wf(),
        ensures
            final(self).wf(),
            forall|k: Seq<char>|
                #[trigger] final(self).contains_key(k) <==> old(self).contains_key(k)
                    && !prefix@.is_prefix_of(k),
            forall|k: Seq<char>|
                #[trigger] final(self).contains_key(k) ==> final(self).entry_for(k) == old(
                    self,
                ).entry_for(k),
            final(self)@.len() <= old(self)@.len(),
    {
        let ghost orig = self@;
        let ghost pred = |e: CacheEntry| !prefix@.is_prefix_of(e.key@);
        let mut source: Vec<CacheEntry> = Vec::new();
        core::mem::swap(&mut source, &mut self.entries);
        let ghost n = orig.len() as int;
        proof {
            assert(orig.subrange(0, 0).filter(pred) =~= Seq::<CacheEntry>::empty()) by {
                reveal(Seq::filter);
            }
        }
        while source.len() > 0
            invariant
                n == orig.len(),
                source@.len() <= n,
                source@ =~= orig.subrange(n - source@.len(), n),
                self@ == orig.subrange(0, n - source@.len()).filter(pred),
            decreases source@.len(),
        {
            let ghost pre_src = source@;
            let ghost k = n - pre_src.len();
            let e = source.remove(0);
            proof {
                assert(pre_src[0] == orig.subrange(k, n)[0]);
                assert(orig.subrange(k, n)[0] == orig[k]);
                assert(e == orig[k]);
                assert(source@ == pre_src.remove(0));
                assert(source@ =~= orig.subrange(k + 1, n)) by {
                    assert forall|t: int| 0 <= t < source@.len() implies source@[t] == orig.subrange(
                        k + 1,
                        n,
                    )[t] by {
                        assert(pre_src[t + 1] == orig.subrange(k, n)[t + 1]);
                    }
                }
                assert(orig.subrange(0, k + 1) =~= orig.subrange(0, k).push(orig[k]));
                lemma_filter_push(orig.subrange(0, k), pred, orig[k]);
            }
            if !str_starts_with(e.key.as_str(), prefix) {
                self.entries.push(e);
            }
        }
        proof {
            assert(orig.subrange(0, n) == orig);
            assert(self@ == orig.filter(pred));
            Self::lemma_retained(orig, pred, self@);
            orig.lemma_filter_len(pred);
        }
    }

    /// Staleness sweep: removes every entry older than `max_age_ms` at
    /// `now_ms`, keeping all fresh entries untouched.
    #[verifier::loop_isolation(false)]
    pub fn cleanup_expired(&mut self, now_ms: u64, max_age_ms: u64)
        requires
            old(self).wf(),
        ensures
            final(self).wf(),
            forall|k: Seq<char>|
                #[trigger] final(self).contains_key(k) <==> old(self).contains_key(k)
                    && entry_fresh(old(self).entry_for(k).timestamp_ms, now_ms, max_age_ms),
            forall|k: Seq<char>|
                #[trigger] final(self).contains_key(k) ==> final(self).entry_for(k) == old(
                    self,
                ).entry_for(k),
            final(self)@.len() <= old(self)@.len(),
    {
        let ghost orig = self@;
        let ghost pred = |e: CacheEntry| entry_fresh(e.timestamp_ms, now_ms, max_age_ms);
        let mut source: Vec<CacheEntry> = Vec::new();
        core::mem::swap(&mut source, &mut self.entries);
        let ghost n = orig.len() as int;
        proof {
            assert(orig.subrange(0, 0).filter(pred) =~= Seq::<CacheEntry>::empty()) by {
                reveal(Seq::filter);
            }
        }
        while source.len() > 0
            invariant
                n == orig.len(),
                source@.len() <= n,
                source@ =~= orig.subrange(n - source@.len(), n),
                self@ == orig.subrange(0, n - source@.len()).filter(pred),
            decreases source@.len(),
        {
            let ghost pre_src = source@;
            let ghost k = n - pre_src.len();
            let e = source.remove(0);
            proof {
                assert(pre_src[0] == orig.subrange(k, n)[0]);
                assert(orig.subrange(k, n)[0] == orig[k]);
                assert(e == orig[k]);
                assert(source@ == pre_src.remove(0));
                assert(source@ =~= orig.subrange(k + 1, n)) by {
                    assert forall|t: int| 0 <= t < source@.len() implies source@[t] == orig.subrange(
                        k + 1,
                        n,
                    )[t] by {
                        assert(pre_src[t + 1] == orig.subrange(k, n)[t + 1]);
                    }
                }
                assert(orig.subrange(0, k + 1) =~= orig.subrange(0, k).push(orig[k]));
                lemma_filter_push(orig.subrange(0, k), pred, orig[k]);
            }
            let ts = e.timestamp_ms;
            if now_ms < ts || now_ms - ts < max_age_ms {
                self.entries.push(e);
            }
        }
        proof {
            assert(orig.subrange(0, n) == orig);
            assert(self@ == orig.filter(pred));
            Self::lemma_retained(orig, pred, self@);
            orig.lemma_filter_len(pred);
        }
    }

    /// What a key-level reading of `filter` gives: a key survives exactly
    /// when its unique entry satisfies the predicate, and surviving entries
    /// are unchanged.
    proof fn lemma_retained(
        orig: Seq<CacheEntry>,
        pred: spec_fn(CacheEntry) -> bool,
        fin: Seq<CacheEntry>,
    )
        requires
            entries_unique(orig),
            fin == orig.filter(pred),
        ensures
            entries_unique(fin),
            forall|k: Seq<char>|
                #[trigger] has_key(fin, k) <==> has_key(orig, k) && pred(
                    orig[key_index(orig, k)],
                ),
            forall|k: Seq<char>|
                #[trigger] has_key(fin, k) ==> fin[key_index(fin, k)] == orig[key_index(orig, k)],
    {
        lemma_filter_unique(orig, pred);
        assert forall|k: Seq<char>| #[trigger] has_key(fin, k) implies has_key(orig, k) && pred(
            orig[key_index(orig, k)],
        ) && fin[key_index(fin, k)] == orig[key_index(orig, k)] by {
            let a = key_index(fin, k);
            assert(0 <= a < fin.len() && fin[a].key@ == k);
            assert(fin.contains(fin[a]));
            lemma_filter_membership(orig, pred, fin[a]);
            let b = choose|b: int| 0 <= b < orig.len() && orig[b] == fin[a];
            assert(orig[b].key@ == k);
            assert(has_key(orig, k));
            lemma_unique_entry(orig, key_index(orig, k), b);
        }
        assert forall|k: Seq<char>|
            has_key(orig, k) && pred(orig[key_index(orig, k)]) implies #[trigger] has_key(
            fin,
            k,
        ) by {
            let b = key_index(orig, k);
            assert(0 <= b < orig.len() && orig[b].key@ == k);
            assert(orig.contains(orig[b]));
            lemma_filter_membership(orig, pred, orig[b]);
            let a = choose|a: int| 0 <= a < fin.len() && fin[a] == orig[b];
            assert(fin[a].key@ == k);
        }
    }

    /// Clears the cache unconditionally.
    pub fn invalidate_all(&mut self)
        ensures
            final(self).wf(),
            final(self)@.len() == 0,
            forall|k: Seq<char>| !final(self).contains_key(k),
    {
        self.entries.clear();
    }

    /// Removes every mount-table probe entry, so the next reconciliation
    /// re-probes the mount table.
    pub fn invalidate_mount_cache(&mut self)
        requires
            old(self).wf(),
        ensures
            final(self).wf(),
            forall|k: Seq<char>|
                #[trigger] final(self).contains_key(k) <==> old(self).contains_key(k)
                    && !"mount"@.is_prefix_of(k),
            forall|k: Seq<char>|
                #[trigger] final(self).contains_key(k) ==> final(self).entry_for(k) == old(
                    self,
                ).entry_for(k),
    {
        self.invalidate("mount");
    }

    /// Removes every process-existence probe entry.
    pub fn invalidate_process_cache(&mut self)
        requires
            old(self).wf(),
        ensures
            final(self).wf(),
            forall|k: Seq<char>|
                #[trigger] final(self).contains_key(k) <==> old(self).contains_key(k)
                    && !"pgrep"@.is_prefix_of(k),
            forall|k: Seq<char>|
                #[trigger] final(self).contains_key(k) ==> final(self).entry_for(k) == old(
                    self,
                ).entry_for(k),
    {
        self.invalidate("pgrep");
    }
}

} // verus!
