//! The signer store: two tiers of signer records and the count of live
//! signers. A key stands in one tier at most.
use crate::types::{KeyView, SignerKey, SignerStorage, SignerVal, ValView};
use vstd::prelude::*;

verus! {

/// Ledgers in a week, at one ledger every five seconds: the margin that a
/// renewed window keeps below the longest lifetime the host allows.
pub const WEEK_OF_LEDGERS: u32 = 120960;

/// What a tier holds under a key: the record, and the window of ledgers for
/// which it was last renewed.
pub struct Stored {
    pub val: ValView,
    pub window: u32,
}

/// The store as a value.
pub struct StoreView {
    pub persistent: Map<KeyView, Stored>,
    pub temporary: Map<KeyView, Stored>,
    /// `None` until the first signer is registered.
    pub count: Option<int>,
    /// The longest lifetime that the host allows an entry.
    pub max_ttl: u32,
}

impl StoreView {
    /// No key stands in both tiers.
    pub open spec fn wf(self) -> bool {
        &&& self.max_ttl >= WEEK_OF_LEDGERS
        &&& forall|k: KeyView| !(self.persistent.contains_key(k) && self.temporary.contains_key(k))
    }

    /// The window that a renewal reaches for: the longest lifetime less the
    /// margin.
    pub open spec fn renewal(self) -> u32 {
        (self.max_ttl - WEEK_OF_LEDGERS) as u32
    }

    /// The window after a renewal: a renewal extends a window to what it
    /// reaches for and never shortens one that is longer.
    pub open spec fn renewed(self, window: u32) -> u32 {
        if window > self.renewal() {
            window
        } else {
            self.renewal()
        }
    }

    /// The window that `tier` holds `key` with, if it holds it.
    pub open spec fn window_in(self, key: KeyView, tier: SignerStorage) -> Option<u32> {
        match tier {
            SignerStorage::Temporary => if self.temporary.contains_key(key) {
                Some(self.temporary[key].window)
            } else {
                None
            },
            SignerStorage::Persistent => if self.persistent.contains_key(key) {
                Some(self.persistent[key].window)
            } else {
                None
            },
        }
    }

    /// Whether `later` holds what this store holds, with no window shorter:
    /// every record is in the tier it was in, and its window is what it was
    /// or longer.
    pub open spec fn no_shorter_in(self, later: StoreView) -> bool {
        forall|k: KeyView, tier: SignerStorage|
            self.window_in(k, tier) is Some ==> {
                &&& #[trigger] later.window_in(k, tier) is Some
                &&& later.window_in(k, tier).unwrap() >= self.window_in(k, tier).unwrap()
            }
    }

    /// The window that a record has after it was written under `key` into
    /// `tier`: the renewal of the window that the tier held the key with, and
    /// what a renewal reaches for where the tier did not hold it.
    pub open spec fn written_window(self, key: KeyView, tier: SignerStorage) -> u32 {
        match self.window_in(key, tier) {
            Some(window) => self.renewed(window),
            None => self.renewal(),
        }
    }

    /// The tier that holds `key`. The expiring tier is asked first.
    pub open spec fn tier_of(self, key: KeyView) -> Option<SignerStorage> {
        if self.temporary.contains_key(key) {
            Some(SignerStorage::Temporary)
        } else if self.persistent.contains_key(key) {
            Some(SignerStorage::Persistent)
        } else {
            None
        }
    }

    /// The record under `key` and its tier.
    pub open spec fn get(self, key: KeyView) -> Option<(ValView, SignerStorage)> {
        match self.tier_of(key) {
            Some(SignerStorage::Temporary) => Some(
                (self.temporary[key].val, SignerStorage::Temporary),
            ),
            Some(SignerStorage::Persistent) => Some(
                (self.persistent[key].val, SignerStorage::Persistent),
            ),
            None => None,
        }
    }

    /// The store after the window of `key` was renewed in the tier that holds
    /// it: nothing but that window has changed, and it has not grown shorter.
    /// A key that no tier holds leaves the store as it is.
    pub open spec fn touch(self, key: KeyView) -> StoreView {
        match self.tier_of(key) {
            Some(SignerStorage::Temporary) => StoreView {
                temporary: self.temporary.insert(
                    key,
                    Stored {
                        val: self.temporary[key].val,
                        window: self.renewed(self.temporary[key].window),
                    },
                ),
                ..self
            },
            Some(SignerStorage::Persistent) => StoreView {
                persistent: self.persistent.insert(
                    key,
                    Stored {
                        val: self.persistent[key].val,
                        window: self.renewed(self.persistent[key].window),
                    },
                ),
                ..self
            },
            None => self,
        }
    }

    /// The count after one signer was added (`add`) or taken away.
    pub open spec fn count_after(self, add: bool) -> Option<int> {
        let before = match self.count {
            Some(c) => c,
            None => 0,
        };
        Some(
            if add {
                before + 1
            } else {
                before - 1
            },
        )
    }

    /// The store after `val` was written under `key` into `tier`: the record
    /// stands there with a renewed window and in no other tier, and the
    /// count has grown by one if no tier held the key before.
    pub open spec fn put(self, key: KeyView, val: ValView, tier: SignerStorage) -> StoreView {
        let stored = Stored { val, window: self.written_window(key, tier) };
        let count = if self.tier_of(key) is None {
            self.count_after(true)
        } else {
            self.count
        };
        match tier {
            SignerStorage::Persistent => StoreView {
                persistent: self.persistent.insert(key, stored),
                temporary: self.temporary.remove(key),
                count,
                ..self
            },
            SignerStorage::Temporary => StoreView {
                persistent: self.persistent.remove(key),
                temporary: self.temporary.insert(key, stored),
                count,
                ..self
            },
        }
    }

    /// The store after a record was taken over as the host holds it: it
    /// stands in `tier` with the window given, and in no other tier. The count
    /// is as it was.
    pub open spec fn load(
        self,
        key: KeyView,
        val: ValView,
        tier: SignerStorage,
        window: u32,
    ) -> StoreView {
        let stored = Stored { val, window };
        match tier {
            SignerStorage::Persistent => StoreView {
                persistent: self.persistent.insert(key, stored),
                temporary: self.temporary.remove(key),
                ..self
            },
            SignerStorage::Temporary => StoreView {
                persistent: self.persistent.remove(key),
                temporary: self.temporary.insert(key, stored),
                ..self
            },
        }
    }

    /// Whether the count can take a step up (`add`) or down.
    pub open spec fn can_step(self, add: bool) -> bool {
        match self.count {
            Some(c) => if add {
                c < i32::MAX
            } else {
                c > i32::MIN
            },
            None => true,
        }
    }

    /// The store after `key` was deleted from the tier that held it. The count
    /// falls by one if a tier did.
    pub open spec fn delete(self, key: KeyView) -> StoreView {
        if self.tier_of(key) is None {
            self
        } else {
            StoreView {
                persistent: self.persistent.remove(key),
                temporary: self.temporary.remove(key),
                count: self.count_after(false),
                ..self
            }
        }
    }
}

/// A record that was written is read back as it was written, with the tier
/// it was written to; and the store still holds each key once.
pub proof fn law_put_then_get(store: StoreView, key: KeyView, val: ValView, tier: SignerStorage)
    requires
        store.wf(),
    ensures
        store.put(key, val, tier).wf(),
        store.put(key, val, tier).get(key) == Some((val, tier)),
        store.put(key, val, tier).tier_of(key) == Some(tier),
{
}

/// A record that was deleted is read back as absent, from either tier.
pub proof fn law_delete_then_get(store: StoreView, key: KeyView)
    requires
        store.wf(),
    ensures
        store.delete(key).wf(),
        store.delete(key).get(key) is None,
        !store.delete(key).persistent.contains_key(key),
        !store.delete(key).temporary.contains_key(key),
{
}

/// Writing a key into one tier leaves no record of it in the other, whichever
/// tier held it before.
pub proof fn law_put_leaves_one_tier(
    store: StoreView,
    key: KeyView,
    val: ValView,
    tier: SignerStorage,
)
    requires
        store.wf(),
    ensures
        tier == SignerStorage::Persistent ==> !store.put(key, val, tier).temporary.contains_key(
            key,
        ) && store.put(key, val, tier).persistent.contains_key(key),
        tier == SignerStorage::Temporary ==> !store.put(key, val, tier).persistent.contains_key(
            key,
        ) && store.put(key, val, tier).temporary.contains_key(key),
{
}

/// A renewal changes nothing but the window of the key in the tier that holds
/// it, and never shortens it: the window is afterwards what it was or what a
/// renewal reaches for, whichever is longer. Every record is where it was,
/// with its value; the windows of other keys and the count are as they were;
/// and a key that no tier holds leaves the store as it is.
pub proof fn law_renewal_never_shortens(store: StoreView, key: KeyView, other: KeyView)
    requires
        store.wf(),
    ensures
        store.touch(key).wf(),
        store.touch(key).persistent.dom() == store.persistent.dom(),
        store.touch(key).temporary.dom() == store.temporary.dom(),
        store.touch(key).get(other) == store.get(other),
        other != key ==> store.touch(key).window_in(other, SignerStorage::Temporary)
            == store.window_in(other, SignerStorage::Temporary),
        other != key ==> store.touch(key).window_in(other, SignerStorage::Persistent)
            == store.window_in(other, SignerStorage::Persistent),
        store.touch(key).count == store.count,
        store.touch(key).max_ttl == store.max_ttl,
        store.tier_of(key) is None ==> store.touch(key) == store,
        store.tier_of(key) matches Some(tier) ==> {
            &&& store.touch(key).tier_of(key) == Some(tier)
            &&& store.touch(key).window_in(key, tier) == Some(
                store.renewed(store.window_in(key, tier).unwrap()),
            )
            &&& store.touch(key).window_in(key, tier).unwrap() >= store.window_in(
                key,
                tier,
            ).unwrap()
            &&& store.touch(key).window_in(key, tier).unwrap() >= store.renewal()
        },
{
    assert(store.touch(key).persistent.dom() =~= store.persistent.dom());
    assert(store.touch(key).temporary.dom() =~= store.temporary.dom());
    if store.tier_of(key) is None {
        assert(store.touch(key) == store);
    }
}

/// Writing a record never shortens the window that its tier holds the key
/// with: the window is afterwards what a renewal reaches for at least, and
/// what it was in that tier at least.
pub proof fn law_write_never_shortens(
    store: StoreView,
    key: KeyView,
    val: ValView,
    tier: SignerStorage,
)
    requires
        store.wf(),
    ensures
        store.put(key, val, tier).window_in(key, tier) == Some(store.written_window(key, tier)),
        store.written_window(key, tier) >= store.renewal(),
        store.window_in(key, tier) matches Some(before) ==> store.written_window(key, tier)
            >= before,
{
}

/// Writing or deleting one key changes what is read under no other key.
pub proof fn law_other_keys_untouched(
    store: StoreView,
    key: KeyView,
    val: ValView,
    tier: SignerStorage,
    other: KeyView,
)
    requires
        store.wf(),
        other != key,
    ensures
        store.put(key, val, tier).get(other) == store.get(other),
        store.delete(key).get(other) == store.get(other),
{
}

/// Renewing a window changes neither what is read under any key nor the
/// count, and the store still holds each key once.
pub proof fn law_touch_reads_same(store: StoreView, key: KeyView, other: KeyView)
    requires
        store.wf(),
    ensures
        store.touch(key).wf(),
        store.touch(key).get(other) == store.get(other),
        store.touch(key).count == store.count,
        store.touch(key).max_ttl == store.max_ttl,
{
}

/// The count grows by one when a new key is written, stays when a key is
/// written again, and falls by one when a key that was held is deleted.
pub proof fn law_count_follows(store: StoreView, key: KeyView, val: ValView, tier: SignerStorage)
    requires
        store.wf(),
    ensures
        store.get(key) is None ==> store.put(key, val, tier).count == store.count_after(true),
        store.get(key) is Some ==> store.put(key, val, tier).count == store.count,
        store.get(key) is Some ==> store.delete(key).count == store.count_after(false),
        store.get(key) is None ==> store.delete(key) == store,
{
}

/// One record of a tier.
struct Record {
    key: SignerKey,
    val: SignerVal,
    window: u32,
}

/// Whether a record stands under `k`.
spec fn has_key(recs: Seq<Record>, k: KeyView) -> bool {
    exists|i: int| 0 <= i < recs.len() && (#[trigger] recs[i]).key@ == k
}

/// Where a record stands under `k`.
spec fn index_of(recs: Seq<Record>, k: KeyView) -> int {
    choose|i: int| 0 <= i < recs.len() && (#[trigger] recs[i]).key@ == k
}

/// No two records stand under one key.
spec fn distinct(recs: Seq<Record>) -> bool {
    forall|i: int, j: int|
        0 <= i < j < recs.len() ==> (#[trigger] recs[i]).key@ != (#[trigger] recs[j]).key@
}

/// What a record holds, as a value.
spec fn stored(r: Record) -> Stored {
    Stored { val: r.val@, window: r.window }
}

/// What a tier holds, by key.
spec fn tier_map(recs: Seq<Record>) -> Map<KeyView, Stored> {
    Map::new(|k: KeyView| has_key(recs, k), |k: KeyView| stored(recs[index_of(recs, k)]))
}

proof fn lemma_tier_at(recs: Seq<Record>, i: int)
    requires
        distinct(recs),
        0 <= i < recs.len(),
    ensures
        tier_map(recs).contains_key(recs[i].key@),
        tier_map(recs)[recs[i].key@] == stored(recs[i]),
{
    let k = recs[i].key@;
    assert(has_key(recs, k));
    let j = index_of(recs, k);
    assert(0 <= j < recs.len() && recs[j].key@ == k);
    if j < i {
        assert(recs[j].key@ != recs[i].key@);
    }
    if i < j {
        assert(recs[i].key@ != recs[j].key@);
    }
}

proof fn lemma_tier_push(recs: Seq<Record>, r: Record)
    requires
        distinct(recs),
        !has_key(recs, r.key@),
    ensures
        distinct(recs.push(r)),
        tier_map(recs.push(r)) == tier_map(recs).insert(r.key@, stored(r)),
{
    let after = recs.push(r);
    assert forall|i: int, j: int| 0 <= i < j < after.len() implies (#[trigger] after[i]).key@ != (
    #[trigger] after[j]).key@ by {
        if j == recs.len() {
            assert(recs[i].key@ != r.key@);
        } else {
            assert(recs[i].key@ != recs[j].key@);
        }
    }
    assert forall|k: KeyView| #[trigger]
        tier_map(after).contains_key(k) == tier_map(recs).insert(r.key@, stored(r)).contains_key(
            k,
        ) by {
        if has_key(recs, k) {
            let i = index_of(recs, k);
            assert(after[i].key@ == k);
        }
        if has_key(after, k) && k != r.key@ {
            let i = index_of(after, k);
            assert(recs[i].key@ == k);
        }
        assert(after[recs.len() as int].key@ == r.key@);
    }
    assert forall|k: KeyView| #[trigger] tier_map(after).contains_key(k) implies tier_map(after)[k]
        == tier_map(recs).insert(r.key@, stored(r))[k] by {
        let i = index_of(after, k);
        lemma_tier_at(after, i);
        if i < recs.len() {
            lemma_tier_at(recs, i);
        }
    }
    assert(tier_map(after) =~= tier_map(recs).insert(r.key@, stored(r)));
}

proof fn lemma_tier_update(recs: Seq<Record>, i: int, r: Record)
    requires
        distinct(recs),
        0 <= i < recs.len(),
        recs[i].key@ == r.key@,
    ensures
        distinct(recs.update(i, r)),
        tier_map(recs.update(i, r)) == tier_map(recs).insert(r.key@, stored(r)),
{
    let after = recs.update(i, r);
    assert forall|a: int, b: int| 0 <= a < b < after.len() implies (#[trigger] after[a]).key@ != (
    #[trigger] after[b]).key@ by {
        assert(recs[a].key@ != recs[b].key@);
    }
    assert forall|k: KeyView| #[trigger]
        tier_map(after).contains_key(k) == tier_map(recs).insert(r.key@, stored(r)).contains_key(
            k,
        ) by {
        if has_key(recs, k) {
            let j = index_of(recs, k);
            assert(after[j].key@ == k);
        }
        if has_key(after, k) {
            let j = index_of(after, k);
            assert(recs[j].key@ == k);
        }
        assert(after[i].key@ == r.key@);
    }
    assert forall|k: KeyView| #[trigger] tier_map(after).contains_key(k) implies tier_map(after)[k]
        == tier_map(recs).insert(r.key@, stored(r))[k] by {
        let j = index_of(after, k);
        lemma_tier_at(after, j);
        lemma_tier_at(recs, j);
    }
    assert(tier_map(after) =~= tier_map(recs).insert(r.key@, stored(r)));
}

proof fn lemma_tier_remove(recs: Seq<Record>, i: int)
    requires
        distinct(recs),
        0 <= i < recs.len(),
    ensures
        distinct(recs.remove(i)),
        tier_map(recs.remove(i)) == tier_map(recs).remove(recs[i].key@),
{
    let after = recs.remove(i);
    let gone = recs[i].key@;
    assert forall|a: int| 0 <= a < after.len() implies #[trigger] after[a] == recs[if a < i {
        a
    } else {
        a + 1
    }] by {}
    assert forall|a: int, b: int| 0 <= a < b < after.len() implies (#[trigger] after[a]).key@ != (
    #[trigger] after[b]).key@ by {
        let a0 = if a < i {
            a
        } else {
            a + 1
        };
        let b0 = if b < i {
            b
        } else {
            b + 1
        };
        assert(recs[a0].key@ != recs[b0].key@);
    }
    assert forall|k: KeyView| #[trigger]
        tier_map(after).contains_key(k) == tier_map(recs).remove(gone).contains_key(k) by {
        if has_key(recs, k) && k != gone {
            let j = index_of(recs, k);
            let j1 = if j < i {
                j
            } else {
                j - 1
            };
            assert(after[j1].key@ == k);
        }
        if has_key(after, k) {
            let j = index_of(after, k);
            let j0 = if j < i {
                j
            } else {
                j + 1
            };
            assert(recs[j0].key@ == k);
            if j0 < i {
                assert(recs[j0].key@ != recs[i].key@);
            } else {
                assert(recs[i].key@ != recs[j0].key@);
            }
        }
    }
    assert forall|k: KeyView| #[trigger] tier_map(after).contains_key(k) implies tier_map(after)[k]
        == tier_map(recs).remove(gone)[k] by {
        let j = index_of(after, k);
        let j0 = if j < i {
            j
        } else {
            j + 1
        };
        lemma_tier_at(after, j);
        lemma_tier_at(recs, j0);
    }
    assert(tier_map(after) =~= tier_map(recs).remove(gone));
}

/// The index of the record under `key`.
fn find(recs: &Vec<Record>, key: &SignerKey) -> (at: Option<usize>)
    ensures
        match at {
            Some(i) => i < recs@.len() && recs@[i as int].key@ == key@,
            None => !has_key(recs@, key@),
        },
{
    let n: usize = recs.len();
    let mut i: usize = 0;
    while i < n
        invariant
            n == recs@.len(),
            i <= n,
            forall|j: int| 0 <= j < i ==> (#[trigger] recs@[j]).key@ != key@,
        decreases n - i,
    {
        if recs[i].key.same(key) {
            return Some(i);
        }
        i = i + 1;
    }
    None
}

/// The two tiers and the signer count.
pub struct SignerStore {
    persistent: Vec<Record>,
    temporary: Vec<Record>,
    count: Option<i32>,
    max_ttl: u32,
}

impl View for SignerStore {
    type V = StoreView;

    closed spec fn view(&self) -> StoreView {
        StoreView {
            persistent: tier_map(self.persistent@),
            temporary: tier_map(self.temporary@),
            count: match self.count {
                Some(c) => Some(c as int),
                None => None,
            },
            max_ttl: self.max_ttl,
        }
    }
}

impl SignerStore {
    /// The store holds each key once.
    pub closed spec fn wf(&self) -> bool {
        &&& distinct(self.persistent@)
        &&& distinct(self.temporary@)
        &&& self@.wf()
    }

    /// A well-formed store is well-formed as a value: no key stands in both
    /// tiers.
    pub proof fn wf_as_value(&self)
        requires
            self.wf(),
        ensures
            self@.wf(),
    {
    }

    /// An empty store under a host whose entries live `max_ttl` ledgers at
    /// most.
    pub fn new(max_ttl: u32) -> (store: SignerStore)
        requires
            max_ttl >= WEEK_OF_LEDGERS,
        ensures
            store.wf(),
            store@.persistent == Map::<KeyView, Stored>::empty(),
            store@.temporary == Map::<KeyView, Stored>::empty(),
            store@.count is None,
            store@.max_ttl == max_ttl,
    {
        let store = SignerStore {
            persistent: Vec::new(),
            temporary: Vec::new(),
            count: None,
            max_ttl,
        };
        assert(store@.persistent =~= Map::<KeyView, Stored>::empty());
        assert(store@.temporary =~= Map::<KeyView, Stored>::empty());
        store
    }

    /// The signer count, `None` until the first signer is registered.
    pub fn signer_count(&self) -> (count: Option<i32>)
        ensures
            match count {
                Some(c) => self@.count == Some(c as int),
                None => self@.count is None,
            },
    {
        self.count
    }

    /// The longest lifetime that the host allows an entry.
    pub fn max_ttl(&self) -> (ttl: u32)
        ensures
            ttl == self@.max_ttl,
    {
        self.max_ttl
    }

    /// The window that a renewal reaches for.
    pub fn renewal_window(&self) -> (window: u32)
        requires
            self.wf(),
        ensures
            window == self@.renewal(),
    {
        self.max_ttl - WEEK_OF_LEDGERS
    }

    /// The window for which `key` was last renewed, if a tier holds it.
    pub fn window(&self, key: &SignerKey) -> (window: Option<u32>)
        requires
            self.wf(),
        ensures
            window == match self@.tier_of(key@) {
                Some(SignerStorage::Temporary) => Some(self@.temporary[key@].window),
                Some(SignerStorage::Persistent) => Some(self@.persistent[key@].window),
                None => None,
            },
    {
        match find(&self.temporary, key) {
            Some(i) => {
                proof {
                    lemma_tier_at(self.temporary@, i as int);
                }
                Some(self.temporary[i].window)
            },
            None => match find(&self.persistent, key) {
                Some(i) => {
                    proof {
                        lemma_tier_at(self.persistent@, i as int);
                    }
                    Some(self.persistent[i].window)
                },
                None => None,
            },
        }
    }

    /// Steps the signer count up (`add`) or down by one.
    pub fn update_signer_count(&mut self, add: bool)
        requires
            old(self).wf(),
            old(self)@.can_step(add),
        ensures
            final(self).wf(),
            final(self)@ == (StoreView { count: old(self)@.count_after(add), ..old(self)@ }),
    {
        let before: i32 = match self.count {
            Some(c) => c,
            None => 0,
        };
        let after: i32 = if add {
            before + 1
        } else {
            before - 1
        };
        self.count = Some(after);
    }

    /// Reads the record under `signer_key` and says which tier holds it; the
    /// expiring tier is asked first. With `extend_ttl` the record's window is
    /// renewed.
    pub fn get_signer_val_storage(&mut self, signer_key: &SignerKey, extend_ttl: bool) -> (found:
        Option<(SignerVal, SignerStorage)>)
        requires
            old(self).wf(),
        ensures
            final(self).wf(),
            match found {
                Some((val, tier)) => old(self)@.get(signer_key@) == Some((val@, tier)),
                None => old(self)@.get(signer_key@) is None,
            },
            final(self)@ == if extend_ttl {
                old(self)@.touch(signer_key@)
            } else {
                old(self)@
            },
    {
        match find(&self.temporary, signer_key) {
            Some(i) => {
                proof {
                    lemma_tier_at(self.temporary@, i as int);
                }
                let val = self.temporary[i].val.copy();
                if extend_ttl {
                    let window = self.renew(self.temporary[i].window);
                    let renewed = Record { key: signer_key.copy(), val: val.copy(), window };
                    proof {
                        lemma_tier_update(self.temporary@, i as int, renewed);
                    }
                    self.temporary.set(i, renewed);
                }
                Some((val, SignerStorage::Temporary))
            },
            None => match find(&self.persistent, signer_key) {
                Some(i) => {
                    proof {
                        lemma_tier_at(self.persistent@, i as int);
                    }
                    let val = self.persistent[i].val.copy();
                    if extend_ttl {
                        let window = self.renew(self.persistent[i].window);
                        let renewed = Record { key: signer_key.copy(), val: val.copy(), window };
                        proof {
                            lemma_tier_update(self.persistent@, i as int, renewed);
                        }
                        self.persistent.set(i, renewed);
                    }
                    Some((val, SignerStorage::Persistent))
                },
                None => None,
            },
        }
    }

    /// Renews a window: extends it to what a renewal reaches for, and leaves
    /// it where it is longer.
    pub fn renew(&self, window: u32) -> (renewed: u32)
        requires
            self.wf(),
        ensures
            renewed == self@.renewed(window),
    {
        let reach: u32 = self.max_ttl - WEEK_OF_LEDGERS;
        if window > reach {
            window
        } else {
            reach
        }
    }

    /// The window that a record gets when it is written under `signer_key`
    /// into the chosen tier.
    fn window_to_write(&self, signer_key: &SignerKey, signer_storage: &SignerStorage) -> (window:
        u32)
        requires
            self.wf(),
        ensures
            window == self@.written_window(signer_key@, *signer_storage),
    {
        let held = match signer_storage {
            SignerStorage::Temporary => match find(&self.temporary, signer_key) {
                Some(i) => {
                    proof {
                        lemma_tier_at(self.temporary@, i as int);
                    }
                    Some(self.temporary[i].window)
                },
                None => None,
            },
            SignerStorage::Persistent => match find(&self.persistent, signer_key) {
                Some(i) => {
                    proof {
                        lemma_tier_at(self.persistent@, i as int);
                    }
                    Some(self.persistent[i].window)
                },
                None => None,
            },
        };
        match held {
            Some(window) => self.renew(window),
            None => self.max_ttl - WEEK_OF_LEDGERS,
        }
    }

    /// Puts the record under `signer_key` into the chosen tier with the window
    /// given and takes it out of the other tier. Says whether a tier held the
    /// key before.
    fn place(
        &mut self,
        signer_key: &SignerKey,
        signer_val: &SignerVal,
        signer_storage: &SignerStorage,
        window: u32,
    ) -> (held: bool)
        requires
            old(self).wf(),
        ensures
            final(self).wf(),
            final(self)@ == old(self)@.load(signer_key@, signer_val@, *signer_storage, window),
            held == (old(self)@.tier_of(signer_key@) is Some),
    {
        let in_temporary = find(&self.temporary, signer_key);
        let in_persistent = find(&self.persistent, signer_key);
        let record = Record { key: signer_key.copy(), val: signer_val.copy(), window };
        proof {
            if in_temporary is Some {
                lemma_tier_at(self.temporary@, in_temporary.unwrap() as int);
            }
            if in_persistent is Some {
                lemma_tier_at(self.persistent@, in_persistent.unwrap() as int);
            }
        }
        match signer_storage {
            SignerStorage::Persistent => {
                match in_persistent {
                    Some(i) => {
                        proof {
                            lemma_tier_update(self.persistent@, i as int, record);
                        }
                        self.persistent.set(i, record);
                    },
                    None => {
                        proof {
                            lemma_tier_push(self.persistent@, record);
                        }
                        self.persistent.push(record);
                    },
                }
                match in_temporary {
                    Some(j) => {
                        proof {
                            lemma_tier_remove(self.temporary@, j as int);
                        }
                        self.temporary.remove(j);
                    },
                    None => {
                        assert(tier_map(self.temporary@).remove(signer_key@) =~= tier_map(
                            self.temporary@,
                        ));
                    },
                }
            },
            SignerStorage::Temporary => {
                match in_temporary {
                    Some(i) => {
                        proof {
                            lemma_tier_update(self.temporary@, i as int, record);
                        }
                        self.temporary.set(i, record);
                    },
                    None => {
                        proof {
                            lemma_tier_push(self.temporary@, record);
                        }
                        self.temporary.push(record);
                    },
                }
                match in_persistent {
                    Some(j) => {
                        proof {
                            lemma_tier_remove(self.persistent@, j as int);
                        }
                        self.persistent.remove(j);
                    },
                    None => {
                        assert(tier_map(self.persistent@).remove(signer_key@) =~= tier_map(
                            self.persistent@,
                        ));
                    },
                }
            },
        }
        assert(self@.persistent == old(self)@.load(
            signer_key@,
            signer_val@,
            *signer_storage,
            window,
        ).persistent);
        assert(self@.temporary == old(self)@.load(
            signer_key@,
            signer_val@,
            *signer_storage,
            window,
        ).temporary);
        in_temporary.is_some() || in_persistent.is_some()
    }

    /// Writes the record under `signer_key` into the chosen tier with a
    /// renewed window, takes it out of the other tier, and counts the signer
    /// if no tier held the key before. The count needs room for a step up
    /// only where it takes one.
    pub fn store_signer(
        &mut self,
        signer_key: &SignerKey,
        signer_val: &SignerVal,
        signer_storage: &SignerStorage,
    )
        requires
            old(self).wf(),
            old(self)@.tier_of(signer_key@) is None ==> old(self)@.can_step(true),
        ensures
            final(self).wf(),
            final(self)@ == old(self)@.put(signer_key@, signer_val@, *signer_storage),
    {
        let window = self.window_to_write(signer_key, signer_storage);
        let held = self.place(signer_key, signer_val, signer_storage, window);
        if !held {
            self.update_signer_count(true);
        }
    }

    /// Takes over a record as the host holds it, with the window for which
    /// the host is known to keep it: the record stands in the tier given and
    /// in no other. The count is left as it is.
    pub fn load_signer(
        &mut self,
        signer_key: &SignerKey,
        signer_val: &SignerVal,
        signer_storage: &SignerStorage,
        window: u32,
    )
        requires
            old(self).wf(),
        ensures
            final(self).wf(),
            final(self)@ == old(self)@.load(signer_key@, signer_val@, *signer_storage, window),
    {
        self.place(signer_key, signer_val, signer_storage, window);
    }

    /// Takes over the signer count as the host holds it.
    pub fn load_signer_count(&mut self, count: Option<i32>)
        requires
            old(self).wf(),
        ensures
            final(self).wf(),
            final(self)@ == (StoreView {
                count: match count {
                    Some(c) => Some(c as int),
                    None => None,
                },
                ..old(self)@
            }),
    {
        self.count = count;
    }

    /// Deletes the record under `signer_key` from the tier that holds it, and
    /// counts the signer out if a tier did. The count needs room for a step
    /// down only where it takes one.
    pub fn remove_signer(&mut self, signer_key: &SignerKey)
        requires
            old(self).wf(),
            old(self)@.tier_of(signer_key@) is Some ==> old(self)@.can_step(false),
        ensures
            final(self).wf(),
            final(self)@ == old(self)@.delete(signer_key@),
    {
        match find(&self.temporary, signer_key) {
            Some(i) => {
                proof {
                    lemma_tier_at(self.temporary@, i as int);
                    lemma_tier_remove(self.temporary@, i as int);
                    assert(tier_map(self.persistent@).remove(signer_key@) =~= tier_map(
                        self.persistent@,
                    ));
                }
                self.temporary.remove(i);
                self.update_signer_count(false);
            },
            None => match find(&self.persistent, signer_key) {
                Some(i) => {
                    proof {
                        lemma_tier_at(self.persistent@, i as int);
                        lemma_tier_remove(self.persistent@, i as int);
                        assert(tier_map(self.temporary@).remove(signer_key@) =~= tier_map(
                            self.temporary@,
                        ));
                    }
                    self.persistent.remove(i);
                    self.update_signer_count(false);
                },
                None => {},
            },
        }
    }
}

} // verus!
