//! A fixed number of slots, each empty or holding a key and a value; the
//! store behind shell aliases and environment variables.

use crate::span::truncate;
use vstd::prelude::*;
use vstd::slice::{slice_to_vec, slice_subrange};

verus! {

/// The abstract content of one slot: `None` when empty, else `(key, value)`.
pub type SlotView = Option<(Seq<u8>, Seq<u8>)>;

/// Index of the first slot holding key `k`.
pub open spec fn first_with_key(s: Seq<SlotView>, k: Seq<u8>) -> Option<int>
    decreases s.len(),
{
    if s.len() == 0 {
        None
    } else if s[0] is Some && s[0]->Some_0.0 == k {
        Some(0)
    } else {
        match first_with_key(s.drop_first(), k) {
            Some(i) => Some(i + 1),
            None => None,
        }
    }
}

/// Index of the first empty slot.
pub open spec fn first_free(s: Seq<SlotView>) -> Option<int>
    decreases s.len(),
{
    if s.len() == 0 {
        None
    } else if s[0] is None {
        Some(0)
    } else {
        match first_free(s.drop_first()) {
            Some(i) => Some(i + 1),
            None => None,
        }
    }
}

/// The slots after storing `val` under `key`: the first slot holding `key`
/// gets the value cut to `val_cap` bytes; without one, the first empty slot
/// gets the key cut to `key_cap` bytes and the cut value; when no slot is
/// empty either, nothing changes.
pub open spec fn stored(s: Seq<SlotView>, key: Seq<u8>, val: Seq<u8>, key_cap: nat, val_cap: nat) -> Seq<SlotView> {
    match first_with_key(s, key) {
        Some(j) => s.update(j, Some((key, truncate(val, val_cap)))),
        None => match first_free(s) {
            Some(j) => s.update(j, Some((truncate(key, key_cap), truncate(val, val_cap)))),
            None => s,
        },
    }
}

/// One occupied slot.
pub struct Entry {
    key: Vec<u8>,
    val: Vec<u8>,
}

/// The view of one slot.
pub closed spec fn entry_view(e: Option<Entry>) -> SlotView {
    match e {
        Some(en) => Some((en.key@, en.val@)),
        None => None,
    }
}

/// Fixed number of key/value slots.
pub struct NamedSlots {
    slots: Vec<Option<Entry>>,
}

proof fn lemma_first_with_key_spec(s: Seq<SlotView>, k: Seq<u8>)
    ensures
        match first_with_key(s, k) {
            Some(j) => 0 <= j < s.len() && s[j] is Some && s[j]->Some_0.0 == k && forall|i: int|
                0 <= i < j ==> !(#[trigger] s[i] is Some && s[i]->Some_0.0 == k),
            None => forall|i: int| 0 <= i < s.len() ==> !(#[trigger] s[i] is Some && s[i]->Some_0.0 == k),
        },
    decreases s.len(),
{
    if s.len() > 0 {
        lemma_first_with_key_spec(s.drop_first(), k);
        if !(s[0] is Some && s[0]->Some_0.0 == k) {
            assert forall|i: int| 1 <= i < s.len() implies s[i] == s.drop_first()[i - 1] by {}
        }
    }
}

proof fn lemma_first_free_spec(s: Seq<SlotView>)
    ensures
        match first_free(s) {
            Some(j) => 0 <= j < s.len() && s[j] is None && forall|i: int| 0 <= i < j ==> (#[trigger] s[i]) is Some,
            None => forall|i: int| 0 <= i < s.len() ==> (#[trigger] s[i]) is Some,
        },
    decreases s.len(),
{
    if s.len() > 0 {
        lemma_first_free_spec(s.drop_first());
        if s[0] is Some {
            assert forall|i: int| 1 <= i < s.len() implies s[i] == s.drop_first()[i - 1] by {}
        }
    }
}

/// The first slot that satisfies the characterisation is the one
/// `first_with_key` names.
proof fn lemma_first_with_key_unique(s: Seq<SlotView>, k: Seq<u8>, j: int)
    requires
        0 <= j < s.len(),
        s[j] is Some && s[j]->Some_0.0 == k,
        forall|i: int| 0 <= i < j ==> !(#[trigger] s[i] is Some && s[i]->Some_0.0 == k),
    ensures
        first_with_key(s, k) == Some(j),
{
    lemma_first_with_key_spec(s, k);
}

proof fn lemma_first_free_unique(s: Seq<SlotView>, j: int)
    requires
        0 <= j < s.len(),
        s[j] is None,
        forall|i: int| 0 <= i < j ==> (#[trigger] s[i]) is Some,
    ensures
        first_free(s) == Some(j),
{
    lemma_first_free_spec(s);
}

/// Byte-wise equality of two slices.
pub fn bytes_eq(a: &[u8], b: &[u8]) -> (r: bool)
    ensures
        r == (a@ == b@),
{
    if a.len() != b.len() {
        return false;
    }
    let mut i: usize = 0;
    while i < a.len()
        invariant
            a@.len() == b@.len(),
            0 <= i <= a@.len(),
            forall|k: int| 0 <= k < i ==> a@[k] == b@[k],
        decreases a@.len() - i,
    {
        if a[i] != b[i] {
            return false;
        }
        i = i + 1;
    }
    assert(a@ =~= b@);
    true
}

/// A copy of `b`.
pub fn copy_bytes(b: &[u8]) -> (r: Vec<u8>)
    ensures
        r@ == b@,
{
    slice_to_vec(b)
}

/// The slot `first_with_key` names is in range and holds the key.
pub proof fn lemma_found_in_range(s: Seq<SlotView>, k: Seq<u8>)
    ensures
        first_with_key(s, k) matches Some(j) ==> 0 <= j < s.len() && s[j] is Some && s[j]->Some_0.0
            == k,
{
    lemma_first_with_key_spec(s, k);
}

/// The first `min(b.len(), cap)` bytes of `b`, copied.
fn truncated_copy(b: &[u8], cap: usize) -> (r: Vec<u8>)
    ensures
        r@ == truncate(b@, cap as nat),
{
    let n = if b.len() < cap {
        b.len()
    } else {
        cap
    };
    let r = slice_to_vec(slice_subrange(b, 0, n));
    assert(r@ =~= truncate(b@, cap as nat));
    r
}

impl NamedSlots {
    /// The slots, in order.
    pub closed spec fn view(&self) -> Seq<SlotView> {
        self.slots@.map_values(|e: Option<Entry>| entry_view(e))
    }

    /// `n` empty slots.
    pub fn new(n: usize) -> (r: Self)
        ensures
            r.view() == Seq::new(n as nat, |i: int| None::<(Seq<u8>, Seq<u8>)>),
    {
        let mut slots: Vec<Option<Entry>> = Vec::new();
        let mut i: usize = 0;
        while i < n
            invariant
                0 <= i <= n,
                slots@.len() == i,
                forall|k: int| 0 <= k < i ==> (#[trigger] slots@[k]) is None,
            decreases n - i,
        {
            slots.push(None);
            i = i + 1;
        }
        let r = NamedSlots { slots };
        assert(r.view() =~= Seq::new(n as nat, |i: int| None::<(Seq<u8>, Seq<u8>)>));
        r
    }

    /// Index of the first slot holding `key`.
    pub fn find(&self, key: &[u8]) -> (r: Option<usize>)
        ensures
            match r {
                Some(j) => first_with_key(self.view(), key@) == Some(j as int),
                None => first_with_key(self.view(), key@) is None,
            },
    {
        let mut i: usize = 0;
        while i < self.slots.len()
            invariant
                0 <= i <= self.view().len(),
                self.view().len() == self.slots@.len(),
                forall|k: int|
                    0 <= k < i ==> !(#[trigger] self.view()[k] is Some && self.view()[k]->Some_0.0
                        == key@),
            decreases self.slots@.len() - i,
        {
            match &self.slots[i] {
                Some(e) => {
                    if bytes_eq(e.key.as_slice(), key) {
                        proof {
                            lemma_first_with_key_unique(self.view(), key@, i as int);
                        }
                        return Some(i);
                    }
                },
                None => {},
            }
            i = i + 1;
        }
        proof {
            lemma_first_with_key_spec(self.view(), key@);
            if first_with_key(self.view(), key@) is Some {
                let j = first_with_key(self.view(), key@)->Some_0;
                assert(!(self.view()[j] is Some && self.view()[j]->Some_0.0 == key@));
            }
        }
        None
    }

    /// The key and value held in slot `i`, if it is taken.
    pub fn slot(&self, i: usize) -> (r: Option<(&[u8], &[u8])>)
        requires
            i < self.view().len(),
        ensures
            match r {
                Some((k, v)) => self.view()[i as int] == Some((k@, v@)),
                None => self.view()[i as int] is None,
            },
    {
        match &self.slots[i] {
            Some(e) => Some((e.key.as_slice(), e.val.as_slice())),
            None => None,
        }
    }

    /// The value stored in the occupied slot `i`.
    pub fn value_at(&self, i: usize) -> (r: &[u8])
        requires
            0 <= i < self.view().len(),
            self.view()[i as int] is Some,
        ensures
            r@ == self.view()[i as int]->Some_0.1,
    {
        let e = self.slots[i].as_ref().unwrap();
        e.val.as_slice()
    }

    /// Stores `val` under `key` (see [`stored`]); returns `false` when the
    /// key is new and every slot is taken.
    pub fn set(&mut self, key: &[u8], val: &[u8], key_cap: usize, val_cap: usize) -> (r: bool)
        ensures
            final(self).view() == stored(old(self).view(), key@, val@, key_cap as nat, val_cap as nat),
            r == (first_with_key(old(self).view(), key@) is Some || first_free(old(self).view()) is Some),
    {
        let ghost before = self.view();
        match self.find(key) {
            Some(j) => {
                proof {
                    lemma_first_with_key_spec(before, key@);
                }
                let e = Entry { key: slice_to_vec(key), val: truncated_copy(val, val_cap) };
                self.slots.set(j, Some(e));
                assert(self.view() =~= before.update(j as int, Some((key@, truncate(val@, val_cap as nat)))));
                return true;
            },
            None => {},
        }
        let mut i: usize = 0;
        while i < self.slots.len()
            invariant
                self.view() == before,
                before == old(self).view(),
                first_with_key(before, key@) is None,
                self.view().len() == self.slots@.len(),
                0 <= i <= self.slots@.len(),
                forall|k: int| 0 <= k < i ==> (#[trigger] self.view()[k]) is Some,
            decreases self.slots@.len() - i,
        {
            if self.slots[i].is_none() {
                proof {
                    lemma_first_free_unique(before, i as int);
                }
                let e = Entry { key: truncated_copy(key, key_cap), val: truncated_copy(val, val_cap) };
                self.slots.set(i, Some(e));
                assert(self.view() =~= before.update(
                    i as int,
                    Some((truncate(key@, key_cap as nat), truncate(val@, val_cap as nat))),
                ));
                return true;
            }
            i = i + 1;
        }
        proof {
            lemma_first_free_spec(before);
            if first_free(before) is Some {
                let j = first_free(before)->Some_0;
                assert(before[j] is Some);
            }
        }
        false
    }
}

/// Read after write: once a key that fits the key limit has been stored
/// (there was room, or the key was present), looking it up finds it with
/// the stored value cut to the value limit. This is what makes an alias
/// or environment variable read back what was set.
pub proof fn law_stored_key_is_found(
    s: Seq<SlotView>,
    key: Seq<u8>,
    val: Seq<u8>,
    key_cap: nat,
    val_cap: nat,
)
    requires
        key.len() <= key_cap,
        first_with_key(s, key) is Some || first_free(s) is Some,
    ensures
        ({
            let t = stored(s, key, val, key_cap, val_cap);
            &&& t.len() == s.len()
            &&& first_with_key(t, key) matches Some(j) && t[j] == Some((key, truncate(val, val_cap)))
        }),
{
    lemma_first_with_key_spec(s, key);
    lemma_first_free_spec(s);
    let t = stored(s, key, val, key_cap, val_cap);
    match first_with_key(s, key) {
        Some(j) => {
            lemma_first_with_key_unique(t, key, j);
        },
        None => {
            let j = first_free(s)->Some_0;
            assert(truncate(key, key_cap) == key);
            lemma_first_with_key_unique(t, key, j);
        },
    }
}

/// Storing one key leaves the lookup of every other key unchanged, as
/// long as the stored key fits the key limit (a longer key is cut and
/// could then equal the other key).
pub proof fn law_store_leaves_other_keys(
    s: Seq<SlotView>,
    key: Seq<u8>,
    val: Seq<u8>,
    key_cap: nat,
    val_cap: nat,
    other: Seq<u8>,
)
    requires
        key.len() <= key_cap,
        other != key,
    ensures
        ({
            let t = stored(s, key, val, key_cap, val_cap);
            &&& first_with_key(t, other) == first_with_key(s, other)
            &&& first_with_key(s, other) matches Some(j) ==> t[j] == s[j]
        }),
{
    let t = stored(s, key, val, key_cap, val_cap);
    assert(truncate(key, key_cap) == key);
    lemma_first_with_key_spec(s, other);
    lemma_first_with_key_spec(t, other);
    lemma_first_with_key_spec(s, key);
    lemma_first_free_spec(s);
    assert forall|i: int| 0 <= i < s.len() implies (#[trigger] t[i] is Some && t[i]->Some_0.0 == other)
        == (s[i] is Some && s[i]->Some_0.0 == other) by {}
    match first_with_key(s, other) {
        Some(j) => {
            lemma_first_with_key_unique(t, other, j);
        },
        None => {
            if first_with_key(t, other) is Some {
                let j = first_with_key(t, other)->Some_0;
                assert(s[j] is Some && s[j]->Some_0.0 == other);
            }
        },
    }
}

} // verus!
