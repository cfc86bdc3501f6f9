//! Fingerprint store decisions.
//!
//! The cache backend itself lives outside this library; the application
//! performs plain `GET`, `SET key value EX secs` and `DEL` operations against
//! it. This module decides, from the result of a lookup, whether a sighting
//! of a link is new (and which two writes record it) or a duplicate (and
//! which prior reference to report), and which keys a deletion event must
//! remove. The abstract cache is modelled as a map from key bytes to value
//! bytes, and the laws at the end relate record, lookup and forget over that
//! model.

use vstd::prelude::*;

use crate::bytes::clone_bytes;
use crate::fingerprint::{fingerprint_key, fingerprint_spec, index_key, index_key_spec};

verus! {

/// Seconds a tracked link is retained: seven days.
pub const RETENTION_SECS: u64 = 60 * 60 * 24 * 7;

/// One write the application must perform against the cache backend:
/// `SET key value EX expire_secs`.
pub struct CacheWrite {
    pub key: Vec<u8>,
    pub value: Vec<u8>,
    pub expire_secs: u64,
}

impl View for CacheWrite {
    type V = (Seq<u8>, Seq<u8>, u64);

    open spec fn view(&self) -> (Seq<u8>, Seq<u8>, u64) {
        (self.key@, self.value@, self.expire_secs)
    }
}

impl DeepView for CacheWrite {
    type V = (Seq<u8>, Seq<u8>, u64);

    open spec fn deep_view(&self) -> (Seq<u8>, Seq<u8>, u64) {
        self.view()
    }
}

/// The decision for one sighting of a link.
pub enum LinkDecision {
    /// The link is already recorded in this scope: report it, citing the
    /// reference to the message that first posted it. Nothing is written.
    Duplicate { prior: Vec<u8> },
    /// First sighting in this scope: perform the two writes, which record
    /// fingerprint → permalink and index key → fingerprint.
    New { writes: Vec<CacheWrite> },
}

/// The two writes that record a first sighting of `link` in `scope` by
/// message `message` with permalink `permalink`.
pub open spec fn record_writes_spec(
    link: Seq<u8>,
    scope: u64,
    message: u64,
    permalink: Seq<u8>,
) -> Seq<(Seq<u8>, Seq<u8>, u64)> {
    seq![
        (fingerprint_spec(link, scope), permalink, RETENTION_SECS),
        (index_key_spec(scope, message), fingerprint_spec(link, scope), RETENTION_SECS),
    ]
}

/// Decide what one sighting of `link` means, given the cache's answer
/// (`lookup`) for the link's fingerprint key: an already-recorded link is a
/// duplicate of the stored reference; an unrecorded one is recorded under
/// both its fingerprint key and the originating message's index key, each
/// with the retention window applied.
pub fn check_link(
    link: &Vec<u8>,
    scope: u64,
    message: u64,
    permalink: &Vec<u8>,
    lookup: Option<Vec<u8>>,
) -> (r: LinkDecision)
    ensures
        match lookup {
            Option::Some(prior) => r matches LinkDecision::Duplicate { prior: p } && p@ == prior@,
            Option::None => r matches LinkDecision::New { writes } && writes.deep_view()
                == record_writes_spec(link@, scope, message, permalink@),
        },
{
    match lookup {
        Option::Some(prior) => LinkDecision::Duplicate { prior },
        Option::None => {
            let fp = fingerprint_key(link, scope);
            let fp_again = clone_bytes(&fp);
            let idx = index_key(scope, message);
            let mut writes: Vec<CacheWrite> = Vec::new();
            writes.push(
                CacheWrite { key: fp, value: clone_bytes(permalink), expire_secs: RETENTION_SECS },
            );
            writes.push(CacheWrite { key: idx, value: fp_again, expire_secs: RETENTION_SECS });
            proof {
                assert(writes.deep_view() =~~= record_writes_spec(
                    link@,
                    scope,
                    message,
                    permalink@,
                ));
            }
            LinkDecision::New { writes }
        },
    }
}

/// The keys a deletion event must remove, given the cache's answer for the
/// deleted message's index key: none when the message was never tracked (or
/// already expired), else the recorded fingerprint key and the index key
/// itself.
pub open spec fn forget_keys_spec(index_key: Seq<u8>, lookup: Option<Seq<u8>>) -> Seq<Seq<u8>> {
    match lookup {
        Option::Some(hash) => seq![hash, index_key],
        Option::None => Seq::empty(),
    }
}

/// Decide which keys to delete when the message behind `index_key` was
/// deleted upstream. Looking up an untracked message yields no deletions:
/// forgetting is a no-op there, never an error.
pub fn forget_keys(index_key: &Vec<u8>, lookup: Option<Vec<u8>>) -> (r: Vec<Vec<u8>>)
    ensures
        r.deep_view() == forget_keys_spec(index_key@, lookup.deep_view()),
{
    match &lookup {
        Option::Some(hash) => {
            let mut r: Vec<Vec<u8>> = Vec::new();
            r.push(clone_bytes(hash));
            r.push(clone_bytes(index_key));
            proof {
                assert(r.deep_view() =~~= forget_keys_spec(index_key@, lookup.deep_view()));
            }
            r
        },
        Option::None => {
            let r: Vec<Vec<u8>> = Vec::new();
            proof {
                assert(r.deep_view() =~~= forget_keys_spec(index_key@, lookup.deep_view()));
            }
            r
        },
    }
}

/// What the cache answers for `key`: the stored value, if the key is present.
pub open spec fn lookup_spec(cache: Map<Seq<u8>, Seq<u8>>, key: Seq<u8>) -> Option<Seq<u8>> {
    if cache.contains_key(key) {
        Option::Some(cache[key])
    } else {
        Option::None
    }
}

/// The abstract cache after one write.
pub open spec fn apply_write(
    cache: Map<Seq<u8>, Seq<u8>>,
    w: (Seq<u8>, Seq<u8>, u64),
) -> Map<Seq<u8>, Seq<u8>> {
    cache.insert(w.0, w.1)
}

/// The abstract cache after a sequence of writes, applied in order.
pub open spec fn apply_writes(
    cache: Map<Seq<u8>, Seq<u8>>,
    ws: Seq<(Seq<u8>, Seq<u8>, u64)>,
) -> Map<Seq<u8>, Seq<u8>>
    decreases ws.len(),
{
    if ws.len() == 0 {
        cache
    } else {
        apply_writes(apply_write(cache, ws[0]), ws.drop_first())
    }
}

/// The abstract cache after a sequence of deletions, applied in order.
pub open spec fn apply_deletes(
    cache: Map<Seq<u8>, Seq<u8>>,
    ks: Seq<Seq<u8>>,
) -> Map<Seq<u8>, Seq<u8>>
    decreases ks.len(),
{
    if ks.len() == 0 {
        cache
    } else {
        apply_deletes(cache.remove(ks[0]), ks.drop_first())
    }
}

/// Law: recording a sighting of `link` in `scope` makes the very next lookup
/// of the same fingerprint answer with the first sighting's permalink — so a
/// second sighting of the same link, with no intervening forget, is decided a
/// duplicate of the first, citing that permalink (see `check_link`).
pub proof fn lemma_record_then_duplicate(
    cache: Map<Seq<u8>, Seq<u8>>,
    link: Seq<u8>,
    scope: u64,
    message: u64,
    permalink: Seq<u8>,
)
    requires
        lookup_spec(cache, fingerprint_spec(link, scope)) is None,
    ensures
        lookup_spec(
            apply_writes(cache, record_writes_spec(link, scope, message, permalink)),
            fingerprint_spec(link, scope),
        ) == Option::Some(permalink),
{
    let fp = fingerprint_spec(link, scope);
    let idx = index_key_spec(scope, message);
    let recorded = lemma_recorded_shape(cache, link, scope, message, permalink);
    crate::fingerprint::lemma_fingerprint_key_ne_index_key(link, scope, scope, message);
    assert(recorded[fp] == permalink);
}

/// The cache after the two record writes: fingerprint → permalink inserted
/// first, index key → fingerprint inserted second.
proof fn lemma_recorded_shape(
    cache: Map<Seq<u8>, Seq<u8>>,
    link: Seq<u8>,
    scope: u64,
    message: u64,
    permalink: Seq<u8>,
) -> (recorded: Map<Seq<u8>, Seq<u8>>)
    ensures
        recorded == apply_writes(cache, record_writes_spec(link, scope, message, permalink)),
        recorded == cache.insert(fingerprint_spec(link, scope), permalink).insert(
            index_key_spec(scope, message),
            fingerprint_spec(link, scope),
        ),
{
    let ws = record_writes_spec(link, scope, message, permalink);
    let c1 = apply_write(cache, ws[0]);
    assert(apply_writes(cache, ws) == apply_writes(c1, ws.drop_first()));
    let ws1 = ws.drop_first();
    assert(ws1[0] == ws[1]);
    let c2 = apply_write(c1, ws1[0]);
    assert(apply_writes(c1, ws1) == apply_writes(c2, ws1.drop_first()));
    assert(ws1.drop_first() =~= Seq::<(Seq<u8>, Seq<u8>, u64)>::empty());
    assert(apply_writes(c2, ws1.drop_first()) == c2);
    c2
}

/// Law: recording a sighting and then forgetting it through the originating
/// message's index key removes both entries, leaving the cache exactly as it
/// was — so a later posting of the same link looks up to nothing and is
/// decided new, not duplicate (see `check_link`).
pub proof fn lemma_record_then_forget_round_trip(
    cache: Map<Seq<u8>, Seq<u8>>,
    link: Seq<u8>,
    scope: u64,
    message: u64,
    permalink: Seq<u8>,
)
    requires
        lookup_spec(cache, fingerprint_spec(link, scope)) is None,
        lookup_spec(cache, index_key_spec(scope, message)) is None,
    ensures
        ({
            let recorded = apply_writes(cache, record_writes_spec(link, scope, message, permalink));
            let forgotten = apply_deletes(
                recorded,
                forget_keys_spec(
                    index_key_spec(scope, message),
                    lookup_spec(recorded, index_key_spec(scope, message)),
                ),
            );
            &&& forgotten == cache
            &&& lookup_spec(forgotten, fingerprint_spec(link, scope)) is None
        }),
{
    let fp = fingerprint_spec(link, scope);
    let idx = index_key_spec(scope, message);
    let recorded = lemma_recorded_shape(cache, link, scope, message, permalink);
    crate::fingerprint::lemma_fingerprint_key_ne_index_key(link, scope, scope, message);
    assert(lookup_spec(recorded, idx) == Option::Some(fp));
    let ks = forget_keys_spec(idx, lookup_spec(recorded, idx));
    let d1 = recorded.remove(ks[0]);
    assert(apply_deletes(recorded, ks) == apply_deletes(d1, ks.drop_first()));
    let ks1 = ks.drop_first();
    assert(ks1[0] == idx);
    let d2 = d1.remove(ks1[0]);
    assert(apply_deletes(d1, ks1) == apply_deletes(d2, ks1.drop_first()));
    assert(ks1.drop_first() =~= Seq::<Seq<u8>>::empty());
    assert(apply_deletes(d2, ks1.drop_first()) == d2);
    assert(d2 =~= cache);
}

} // verus!
