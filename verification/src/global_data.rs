//! The expiring in-process key/value store that the background loops use
//! for time-bounded ancillary state, and that their timeout housekeeping
//! purges.
//!
//! The store is driven by explicit time values: every operation that reads
//! the clock in the application takes the present reading as an argument
//! here.
use vstd::prelude::*;

verus! {

/// One stored value with its key, the time it was stored, and how long it
/// lives. A lifetime of zero means the value never expires on reads,
/// though the resizing purge still discards it.
#[derive(Debug)]
pub struct ValuePaire {
    /// The stored value.
    pub value: String,
    /// The key under which it is stored.
    pub key: String,
    /// When the value was stored.
    pub timestamp: u64,
    /// How long past `timestamp` the value stays readable; zero reads as
    /// no bound.
    pub expired: u64,
}

/// The store: entries with pairwise distinct keys.
#[derive(Debug)]
pub struct AppData {
    /// The live entries, in order of first insertion.
    pub entries: Vec<ValuePaire>,
}

/// No two entries share a key.
pub open spec fn unique_keys(s: Seq<ValuePaire>) -> bool {
    forall|i: int, j: int| 0 <= i < j < s.len() ==> s[i].key@ != s[j].key@
}

/// True when some entry carries the key.
pub open spec fn has_key(s: Seq<ValuePaire>, k: Seq<char>) -> bool {
    exists|i: int| 0 <= i < s.len() && s[i].key@ == k
}

/// The first entry under the key, if any; with unique keys, the only one.
pub open spec fn lookup_entry(s: Seq<ValuePaire>, k: Seq<char>) -> Option<ValuePaire>
    decreases s.len(),
{
    if s.len() == 0 {
        Option::None
    } else if s[0].key@ == k {
        Option::Some(s[0])
    } else {
        lookup_entry(s.drop_first(), k)
    }
}

/// The store without the first entry under the key; unchanged when the
/// key is absent.
pub open spec fn remove_key_spec(s: Seq<ValuePaire>, k: Seq<char>) -> Seq<ValuePaire>
    decreases s.len(),
{
    if s.len() == 0 {
        s
    } else if s[0].key@ == k {
        s.drop_first()
    } else {
        seq![s[0]] + remove_key_spec(s.drop_first(), k)
    }
}

/// An entry the resizing purge discards: its lifetime has run out at
/// `now`. The purge reads a lifetime of zero as already run out.
pub open spec fn purge_ripe(e: ValuePaire, now: u64) -> bool {
    now >= e.timestamp + e.expired
}

/// The store with every ripe entry discarded.
pub open spec fn purge_expired(s: Seq<ValuePaire>, now: u64) -> Seq<ValuePaire>
    decreases s.len(),
{
    if s.len() == 0 {
        s
    } else {
        let rest = purge_expired(s.drop_last(), now);
        if purge_ripe(s.last(), now) {
            rest
        } else {
            rest.push(s.last())
        }
    }
}

/// What the resizing housekeeping does: only a store that outgrew ten
/// entries is purged.
pub open spec fn resize_spec(s: Seq<ValuePaire>, now: u64) -> Seq<ValuePaire> {
    if s.len() > 10 {
        purge_expired(s, now)
    } else {
        s
    }
}

/// A value is readable when its lifetime is zero or has not run out.
pub open spec fn entry_readable(e: ValuePaire, now: u64) -> bool {
    e.expired == 0 || now <= e.timestamp + e.expired
}

/// Removing a key keeps every entry under another key, in order, and with
/// unique keys the removed key is gone.
proof fn lemma_remove_key_shape(s: Seq<ValuePaire>, k: Seq<char>)
    ensures
        forall|j: int|
            0 <= j < remove_key_spec(s, k).len() ==> exists|i: int|
                0 <= i < s.len() && #[trigger] remove_key_spec(s, k)[j] == s[i],
        unique_keys(s) ==> unique_keys(remove_key_spec(s, k)),
        unique_keys(s) ==> !has_key(remove_key_spec(s, k), k),
    decreases s.len(),
{
    if s.len() == 0 {
    } else if s[0].key@ == k {
        assert forall|j: int| 0 <= j < remove_key_spec(s, k).len() implies exists|i: int|
            0 <= i < s.len() && #[trigger] remove_key_spec(s, k)[j] == s[i] by {
            assert(remove_key_spec(s, k)[j] == s[j + 1]);
        }
        if unique_keys(s) {
            assert forall|j: int| 0 <= j < remove_key_spec(s, k).len() implies (
            #[trigger] remove_key_spec(s, k)[j]).key@ != k by {
                assert(remove_key_spec(s, k)[j] == s[j + 1]);
                assert(s[0].key@ != s[j + 1].key@);
            }
        }
    } else {
        let rest = s.drop_first();
        lemma_remove_key_shape(rest, k);
        assert(unique_keys(s) ==> unique_keys(rest));
        assert forall|j: int| 0 <= j < remove_key_spec(s, k).len() implies exists|i: int|
            0 <= i < s.len() && #[trigger] remove_key_spec(s, k)[j] == s[i] by {
            if j == 0 {
                assert(remove_key_spec(s, k)[0] == s[0]);
            } else {
                assert(remove_key_spec(s, k)[j] == remove_key_spec(rest, k)[j - 1]);
                let i = choose|i: int|
                    0 <= i < rest.len() && #[trigger] remove_key_spec(rest, k)[j - 1] == rest[i];
                assert(rest[i] == s[i + 1]);
            }
        }
        if unique_keys(s) {
            assert forall|a: int, b: int|
                0 <= a < b < remove_key_spec(s, k).len() implies remove_key_spec(s, k)[a].key@
                != remove_key_spec(s, k)[b].key@ by {
                if a == 0 {
                    assert(remove_key_spec(s, k)[0] == s[0]);
                    assert(remove_key_spec(s, k)[b] == remove_key_spec(rest, k)[b - 1]);
                    let i = choose|i: int|
                        0 <= i < rest.len() && #[trigger] remove_key_spec(rest, k)[b - 1] == rest[
                            i
                        ];
                    assert(rest[i] == s[i + 1]);
                    assert(s[0].key@ != s[i + 1].key@);
                } else {
                    assert(remove_key_spec(s, k)[a] == remove_key_spec(rest, k)[a - 1]);
                    assert(remove_key_spec(s, k)[b] == remove_key_spec(rest, k)[b - 1]);
                }
            }
            assert forall|j: int| 0 <= j < remove_key_spec(s, k).len() implies (
            #[trigger] remove_key_spec(s, k)[j]).key@ != k by {
                if j == 0 {
                    assert(remove_key_spec(s, k)[0] == s[0]);
                } else {
                    assert(remove_key_spec(s, k)[j] == remove_key_spec(rest, k)[j - 1]);
                }
            }
        }
    }
}

/// Removing the key found first at position `i` removes exactly that
/// entry.
proof fn lemma_remove_key_at(s: Seq<ValuePaire>, k: Seq<char>, i: int)
    requires
        0 <= i < s.len(),
        s[i].key@ == k,
        forall|j: int| 0 <= j < i ==> s[j].key@ != k,
    ensures
        remove_key_spec(s, k) == s.remove(i),
    decreases i,
{
    if i == 0 {
        assert(remove_key_spec(s, k) =~= s.remove(0));
    } else {
        let rest = s.drop_first();
        assert(rest[i - 1] == s[i]);
        assert(forall|j: int| 0 <= j < i - 1 ==> #[trigger] rest[j].key@ == s[j + 1].key@);
        lemma_remove_key_at(rest, k, i - 1);
        assert(remove_key_spec(s, k) =~= s.remove(i));
    }
}

/// A key that no entry carries leaves the store unchanged by removal.
proof fn lemma_remove_key_absent(s: Seq<ValuePaire>, k: Seq<char>)
    requires
        forall|j: int| 0 <= j < s.len() ==> s[j].key@ != k,
    ensures
        remove_key_spec(s, k) == s,
    decreases s.len(),
{
    if s.len() > 0 {
        let rest = s.drop_first();
        lemma_remove_key_absent(rest, k);
        assert(remove_key_spec(s, k) =~= s);
    }
}

/// The first match of a scan is what `lookup_entry` answers.
proof fn lemma_lookup_at(s: Seq<ValuePaire>, k: Seq<char>, i: int)
    requires
        0 <= i < s.len(),
        s[i].key@ == k,
        forall|j: int| 0 <= j < i ==> s[j].key@ != k,
    ensures
        lookup_entry(s, k) == Option::Some(s[i]),
    decreases i,
{
    if i > 0 {
        let rest = s.drop_first();
        assert(rest[i - 1] == s[i]);
        assert(forall|j: int| 0 <= j < i - 1 ==> #[trigger] rest[j].key@ == s[j + 1].key@);
        lemma_lookup_at(rest, k, i - 1);
    }
}

/// A key that no entry carries has no lookup answer.
proof fn lemma_lookup_absent(s: Seq<ValuePaire>, k: Seq<char>)
    requires
        forall|j: int| 0 <= j < s.len() ==> s[j].key@ != k,
    ensures
        lookup_entry(s, k) is None,
    decreases s.len(),
{
    if s.len() > 0 {
        lemma_lookup_absent(s.drop_first(), k);
    }
}

/// The purge keeps only entries of the store, in order, so unique keys
/// stay unique.
proof fn lemma_purge_shape(s: Seq<ValuePaire>, now: u64)
    ensures
        forall|j: int|
            0 <= j < purge_expired(s, now).len() ==> exists|i: int|
                0 <= i < s.len() && #[trigger] purge_expired(s, now)[j] == s[i],
        unique_keys(s) ==> unique_keys(purge_expired(s, now)),
    decreases s.len(),
{
    if s.len() > 0 {
        let shorter = s.drop_last();
        lemma_purge_shape(shorter, now);
        assert(unique_keys(s) ==> unique_keys(shorter));
        let rest = purge_expired(shorter, now);
        assert forall|j: int| 0 <= j < purge_expired(s, now).len() implies exists|i: int|
            0 <= i < s.len() && #[trigger] purge_expired(s, now)[j] == s[i] by {
            if j < rest.len() {
                assert(purge_expired(s, now)[j] == rest[j]);
                let i = choose|i: int| 0 <= i < shorter.len() && #[trigger] rest[j] == shorter[i];
                assert(shorter[i] == s[i]);
            } else {
                assert(purge_expired(s, now)[j] == s.last());
            }
        }
        if unique_keys(s) {
            assert forall|a: int, b: int|
                0 <= a < b < purge_expired(s, now).len() implies purge_expired(s, now)[a].key@
                != purge_expired(s, now)[b].key@ by {
                if b < rest.len() {
                    assert(purge_expired(s, now)[a] == rest[a]);
                    assert(purge_expired(s, now)[b] == rest[b]);
                } else {
                    assert(purge_expired(s, now)[a] == rest[a]);
                    assert(purge_expired(s, now)[b] == s.last());
                    let i = choose|i: int|
                        0 <= i < shorter.len() && #[trigger] rest[a] == shorter[i];
                    assert(s[i].key@ != s[s.len() - 1].key@);
                }
            }
        }
    }
}

impl AppData {
    /// An empty store.
    pub fn new() -> (r: Self)
        ensures
            r.entries@.len() == 0,
            unique_keys(r.entries@),
    {
        AppData { entries: Vec::new() }
    }

    /// How many entries are live.
    pub fn count(&self) -> (r: usize)
        ensures
            r == self.entries@.len(),
    {
        self.entries.len()
    }
}

/// Removes the entry under the key; absent keys are a no-op.
pub fn global_app_data_remove(store: &mut AppData, key: &str)
    requires
        unique_keys(old(store).entries@),
    ensures
        final(store).entries@ == remove_key_spec(old(store).entries@, key@),
        unique_keys(final(store).entries@),
{
    let k: String = key.to_owned();
    let mut i: usize = 0;
    let n = store.entries.len();
    while i < n
        invariant
            *store == *old(store),
            unique_keys(old(store).entries@),
            k@ == key@,
            n == store.entries@.len(),
            i <= n,
            forall|j: int| 0 <= j < i ==> store.entries@[j].key@ != key@,
        decreases n - i,
    {
        if store.entries[i].key == k {
            let ghost pre = store.entries@;
            let ghost found = i as int;
            store.entries.remove(i);
            proof {
                lemma_remove_key_at(pre, key@, found);
                lemma_remove_key_shape(pre, key@);
            }
            return ;
        }
        i += 1;
    }
    proof {
        lemma_remove_key_absent(store.entries@, key@);
        lemma_remove_key_shape(store.entries@, key@);
    }
}

/// Runs the resizing housekeeping: a store that outgrew ten entries has
/// every entry whose lifetime ran out at `now` discarded; a smaller store
/// is left as it stands.
pub fn global_app_data_resizing(store: &mut AppData, now: u64)
    requires
        unique_keys(old(store).entries@),
    ensures
        final(store).entries@ == resize_spec(old(store).entries@, now),
        unique_keys(final(store).entries@),
{
    if store.entries.len() > 10 {
        let mut kept: Vec<ValuePaire> = Vec::new();
        let n = store.entries.len();
        let mut i: usize = 0;
        while i < n
            invariant
                *store == *old(store),
                n == store.entries@.len(),
                i <= n,
                kept@ == purge_expired(store.entries@.take(i as int), now),
            decreases n - i,
        {
            let ghost pre = store.entries@.take(i as int);
            let e = &store.entries[i];
            let ripe = now >= e.timestamp && now - e.timestamp >= e.expired;
            proof {
                assert(ripe == purge_ripe(store.entries@[i as int], now));
            }
            if !ripe {
                kept.push(ValuePaire {
                    value: e.value.clone(),
                    key: e.key.clone(),
                    timestamp: e.timestamp,
                    expired: e.expired,
                });
            }
            i += 1;
            proof {
                assert(store.entries@.take(i as int) =~= pre.push(store.entries@[i - 1]));
                assert(store.entries@.take(i as int).drop_last() =~= pre);
                assert(kept@ == purge_expired(store.entries@.take(i as int), now));
            }
        }
        proof {
            assert(store.entries@.take(n as int) =~= store.entries@);
            lemma_purge_shape(store.entries@, now);
        }
        store.entries = kept;
    }
}

/// Stores a value under a key with the given lifetime: an earlier entry
/// under the key is replaced, and afterwards the resizing housekeeping
/// runs, as every insertion triggers it.
pub fn global_app_data_insert_with_expire(
    store: &mut AppData,
    key: &str,
    val: &str,
    exp: u64,
    now: u64,
)
    requires
        unique_keys(old(store).entries@),
    ensures
        exists|e: ValuePaire|
            e.key@ == key@ && e.value@ == val@ && e.timestamp == now && e.expired == exp
                && final(store).entries@ == resize_spec(
                remove_key_spec(old(store).entries@, key@).push(e),
                now,
            ),
        unique_keys(final(store).entries@),
{
    let ghost orig = old(store).entries@;
    global_app_data_remove(store, key);
    let entry = ValuePaire {
        value: val.to_owned(),
        key: key.to_owned(),
        timestamp: now,
        expired: exp,
    };
    let ghost e = entry;
    let ghost removed = store.entries@;
    proof {
        assert(removed == remove_key_spec(orig, key@));
    }
    proof {
        lemma_remove_key_shape(old(store).entries@, key@);
        assert forall|a: int, b: int|
            0 <= a < b < removed.push(e).len() implies removed.push(e)[a].key@ != removed.push(
            e,
        )[b].key@ by {
            if b < removed.len() {
            } else {
                assert(removed.push(e)[b] == e);
                assert(removed.push(e)[a] == removed[a]);
            }
        }
    }
    store.entries.push(entry);
    proof {
        assert(store.entries@ == removed.push(e));
    }
    global_app_data_resizing(store, now);
    proof {
        assert(store.entries@ == resize_spec(remove_key_spec(orig, key@).push(e), now));
        assert(e.key@ == key@ && e.value@ == val@ && e.timestamp == now && e.expired == exp);
        assert(exists|x: ValuePaire|
            x.key@ == key@ && x.value@ == val@ && x.timestamp == now && x.expired == exp
                && store.entries@ == resize_spec(
                remove_key_spec(orig, key@).push(x),
                now,
            )) by {
            assert(e.key@ == key@ && e.value@ == val@ && e.timestamp == now && e.expired == exp
                && store.entries@ == resize_spec(remove_key_spec(orig, key@).push(e), now));
        }
    }
}

/// Stores a value under a key with the default lifetime of one minute of
/// milliseconds.
pub fn global_app_data_insert(store: &mut AppData, key: &str, val: &str, now: u64)
    requires
        unique_keys(old(store).entries@),
    ensures
        exists|e: ValuePaire|
            e.key@ == key@ && e.value@ == val@ && e.timestamp == now && e.expired == 60000
                && final(store).entries@ == resize_spec(
                remove_key_spec(old(store).entries@, key@).push(e),
                now,
            ),
        unique_keys(final(store).entries@),
{
    global_app_data_insert_with_expire(store, key, val, 60000, now)
}

/// Reads the value under a key. A value whose nonzero lifetime ran out at
/// `now` is removed on the way and reads as absent; a value with a zero
/// lifetime never expires on reads.
pub fn global_app_data_get(store: &mut AppData, key: &str, now: u64) -> (r: Option<String>)
    requires
        unique_keys(old(store).entries@),
    ensures
        unique_keys(final(store).entries@),
        lookup_entry(old(store).entries@, key@) is None ==> r is None && final(store).entries@
            == old(store).entries@,
        forall|e: ValuePaire|
            lookup_entry(old(store).entries@, key@) == Option::Some(e) ==> if entry_readable(
                e,
                now,
            ) {
                r == Some(e.value) && final(store).entries@ == old(store).entries@
            } else {
                r is None && final(store).entries@ == remove_key_spec(
                    old(store).entries@,
                    key@,
                )
            },
{
    let k: String = key.to_owned();
    let mut i: usize = 0;
    let n = store.entries.len();
    while i < n
        invariant
            *store == *old(store),
            unique_keys(old(store).entries@),
            k@ == key@,
            n == store.entries@.len(),
            i <= n,
            forall|j: int| 0 <= j < i ==> store.entries@[j].key@ != key@,
        decreases n - i,
    {
        if store.entries[i].key == k {
            proof {
                lemma_lookup_at(store.entries@, key@, i as int);
            }
            let e = &store.entries[i];
            let expired_now = e.expired > 0 && now > e.timestamp && now - e.timestamp > e.expired;
            proof {
                assert(expired_now == !entry_readable(store.entries@[i as int], now));
            }
            if expired_now {
                let ghost pre = store.entries@;
                let ghost found = i as int;
                store.entries.remove(i);
                proof {
                    lemma_remove_key_at(pre, key@, found);
                    lemma_remove_key_shape(pre, key@);
                }
                return None;
            } else {
                return Some(store.entries[i].value.clone());
            }
        }
        i += 1;
    }
    proof {
        lemma_lookup_absent(store.entries@, key@);
    }
    None
}

} // verus!
