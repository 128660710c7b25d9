//! The transposition table: a power-of-two array of encoded slots, indexed
//! by the low bits of a Zobrist hash and checked by its high 26 bits.
use crate::transposition::{
    decode, decode_spec, encode, lemma_encoding_round_trip,
    OptionalSignedTransposition, Signature, Transposition,
};
use crate::zobrist::Zobrist;
use vstd::arithmetic::power2::{lemma2_to64, lemma_pow2_unfold, pow2};
use vstd::prelude::*;

verus! {

/// Bytes taken by one slot.
pub const ENTRY_SIZE: usize = 8;

/// The entry a slot word stands for.
pub open spec fn decoded(b: u64) -> OptionalSignedTransposition {
    match decode_spec(b) {
        Ok(o) => o,
        Err(_) => None,
    }
}

/// The signature of a hash: its high 26 bits.
pub open spec fn signature_spec(key: Zobrist) -> Signature {
    (key >> 38u64) as u32
}

/// The slot of a hash in a table of `n` slots: its low bits.
pub open spec fn index_spec(key: Zobrist, n: int) -> int {
    (key & ((n - 1) as u64)) as int
}

/// Whether `n` is a power of two.
pub open spec fn power_of_two(n: int) -> bool {
    exists|k: nat| pow2(k) == n
}

/// The number of slots for a budget of `size` bytes: the largest power of
/// two whose slots fit in `size`, and one slot if none does.
pub open spec fn capacity_for(size: int, n: int) -> bool {
    &&& power_of_two(n)
    &&& n == 1 || n * 8 <= size
    &&& n * 16 > size
}

/// What `get` finds in the slots `v` for `key`.
pub open spec fn probe(v: Seq<OptionalSignedTransposition>, key: Zobrist) -> Option<Transposition> {
    match v[index_spec(key, v.len() as int)] {
        Some((t, sig)) => if sig == signature_spec(key) {
            Some(t)
        } else {
            None
        },
        None => None,
    }
}

/// The slot content after storing `t` under `sig` where `cur` was: the
/// current entry stays only if its signature is `sig` and it ranks strictly
/// above `t`.
pub open spec fn replaced(cur: OptionalSignedTransposition, t: Transposition, sig: Signature) -> OptionalSignedTransposition {
    match cur {
        Some((u, s)) => if s == sig && u.outranks(t) {
            cur
        } else {
            Some((t, sig))
        },
        None => Some((t, sig)),
    }
}

/// The slots `v` after `set(key, t)`.
pub open spec fn after_set(v: Seq<OptionalSignedTransposition>, key: Zobrist, t: Transposition) -> Seq<
    OptionalSignedTransposition,
> {
    let i = index_spec(key, v.len() as int);
    v.update(i, replaced(v[i], t, signature_spec(key)))
}

/// A cache of [`Transposition`]s.
#[derive(Debug)]
pub struct Table {
    slots: Vec<u64>,
}

impl View for Table {
    type V = Seq<OptionalSignedTransposition>;

    closed spec fn view(&self) -> Seq<OptionalSignedTransposition> {
        self.slots@.map_values(|b: u64| decoded(b))
    }
}

proof fn lemma_index_in_range(key: u64, m: u64)
    ensures
        key & m <= m,
{
    assert(key & m <= m) by (bit_vector);
}

impl Table {
    /// The slots hold valid encodings and their number is a power of two.
    pub closed spec fn wf(&self) -> bool {
        &&& power_of_two(self.slots@.len() as int)
        &&& 1 <= self.slots@.len() <= usize::MAX / 8
        &&& forall|i: int| 0 <= i < self.slots@.len() ==> #[trigger] decode_spec(self.slots@[i]) is Ok
    }

    /// A table of at most `size` bytes, unless `size` is below one slot.
    pub fn new(size: usize) -> (r: Table)
        ensures
            r.wf(),
            capacity_for(size as int, r@.len() as int),
            forall|i: int| 0 <= i < r@.len() ==> #[trigger] r@[i] is None,
    {
        let mut cap: usize = 1;
        let ghost mut k: nat = 0;
        proof {
            lemma2_to64();
        }
        while cap <= size / 16
            invariant
                1 <= cap,
                pow2(k) == cap,
                cap == 1 || cap * 8 <= size,
            decreases size - cap,
        {
            proof {
                lemma_pow2_unfold(k + 1);
            }
            cap = cap * 2;
            proof {
                k = k + 1;
            }
        }
        let mut slots: Vec<u64> = Vec::new();
        let mut i: usize = 0;
        while i < cap
            invariant
                i <= cap,
                slots@.len() == i,
                forall|j: int| 0 <= j < i ==> #[trigger] slots@[j] == 0,
            decreases cap - i,
        {
            slots.push(0);
            i = i + 1;
        }
        let r = Table { slots };
        proof {
            assert(power_of_two(cap as int));
            assert forall|j: int| 0 <= j < r.slots@.len() implies #[trigger] decode_spec(r.slots@[j]) is Ok by {
                assert(r.slots@[j] == 0);
            }
            assert forall|j: int| 0 <= j < r@.len() implies #[trigger] r@[j] is None by {
                assert(r.slots@[j] == 0);
            }
        }
        r
    }

    /// The size of this table in bytes.
    pub fn size(&self) -> (r: usize)
        requires
            self.wf(),
        ensures
            r == self@.len() * 8,
    {
        self.capacity() * ENTRY_SIZE
    }

    /// The number of slots.
    pub fn capacity(&self) -> (r: usize)
        requires
            self.wf(),
        ensures
            r == self@.len(),
            1 <= r <= usize::MAX / 8,
    {
        self.slots.len()
    }

    /// Empties every slot.
    pub fn clear(&mut self)
        requires
            old(self).wf(),
        ensures
            final(self).wf(),
            final(self)@.len() == old(self)@.len(),
            forall|i: int| 0 <= i < final(self)@.len() ==> #[trigger] final(self)@[i] is None,
    {
        let n = self.slots.len();
        let mut i: usize = 0;
        while i < n
            invariant
                i <= n,
                self.slots@.len() == n,
                old(self).wf(),
                n == old(self).slots@.len(),
                forall|j: int| 0 <= j < i ==> #[trigger] self.slots@[j] == 0,
                forall|j: int| 0 <= j < n ==> #[trigger] decode_spec(self.slots@[j]) is Ok,
            decreases n - i,
        {
            self.slots.set(i, 0);
            i = i + 1;
        }
        proof {
            assert forall|j: int| 0 <= j < self@.len() implies #[trigger] self@[j] is None by {
                assert(self.slots@[j] == 0);
            }
        }
    }

    fn signature_of(&self, key: Zobrist) -> (r: Signature)
        ensures
            r == signature_spec(key),
    {
        (key >> 38u64) as u32
    }

    fn index_of(&self, key: Zobrist) -> (r: usize)
        requires
            self.wf(),
        ensures
            r == index_spec(key, self@.len() as int),
            r < self@.len(),
    {
        let m = (self.slots.len() - 1) as u64;
        proof {
            lemma_index_in_range(key, m);
        }
        (key & m) as usize
    }

    /// The entry in the slot of `key`, if its signature is that of `key`.
    pub fn get(&self, key: Zobrist) -> (r: Option<Transposition>)
        requires
            self.wf(),
        ensures
            r == probe(self@, key),
    {
        let sig = self.signature_of(key);
        let i = self.index_of(key);
        let b = self.slots[i];
        proof {
            assert(decode_spec(self.slots@[i as int]) is Ok);
        }
        match decode(b) {
            Ok(Some((t, s))) => {
                if s == sig {
                    Some(t)
                } else {
                    None
                }
            },
            _ => None,
        }
    }

    /// Stores `t` in the slot of `key`, unless the entry there has the
    /// signature of `key` and ranks strictly above `t`; an entry with a
    /// different signature is always replaced.
    pub fn set(&mut self, key: Zobrist, t: Transposition)
        requires
            old(self).wf(),
            t.wf(),
        ensures
            final(self).wf(),
            final(self)@ == after_set(old(self)@, key, t),
    {
        let sig = self.signature_of(key);
        proof {
            assert(sig < 0x400_0000) by {
                assert(key >> 38u64 < 0x400_0000) by (bit_vector);
            }
        }
        let i = self.index_of(key);
        let cur = self.slots[i];
        proof {
            assert(decode_spec(self.slots@[i as int]) is Ok);
        }
        let keep = match decode(cur) {
            Ok(Some((u, s))) => s == sig && u.is_greater(&t),
            _ => false,
        };
        if !keep {
            let entry: OptionalSignedTransposition = Some((t, sig));
            let b = encode(&entry);
            proof {
                lemma_encoding_round_trip(entry);
            }
            self.slots.set(i, b);
        }
        proof {
            assert(self@ =~= after_set(old(self)@, key, t));
        }
    }

    /// Empties the slot of `key`.
    pub fn unset(&mut self, key: Zobrist)
        requires
            old(self).wf(),
        ensures
            final(self).wf(),
            final(self)@ == old(self)@.update(index_spec(key, old(self)@.len() as int), None),
    {
        let i = self.index_of(key);
        self.slots.set(i, 0);
        proof {
            assert(self@ =~= old(self)@.update(index_spec(key, old(self)@.len() as int), None));
        }
    }
}

/// Of two entries set one after the other under the same key, where the
/// first one was stored, the second is found unless the first ranks
/// strictly above it, by depth then kind.
pub proof fn lemma_replacement_policy(
    v: Seq<OptionalSignedTransposition>,
    key: Zobrist,
    a: Transposition,
    b: Transposition,
)
    requires
        v.len() >= 1,
        index_spec(key, v.len() as int) < v.len(),
        !(v[index_spec(key, v.len() as int)] matches Some((u, s)) && s == signature_spec(key)
            && u.outranks(a)),
    ensures
        probe(after_set(after_set(v, key, a), key, b), key) == if a.outranks(b) {
            Some(a)
        } else {
            Some(b)
        },
{
}

/// An entry set under a key is found again under that key, unless the
/// entry already there has the key's signature and ranks strictly above it.
pub proof fn lemma_set_then_get(v: Seq<OptionalSignedTransposition>, key: Zobrist, t: Transposition)
    requires
        v.len() >= 1,
        index_spec(key, v.len() as int) < v.len(),
    ensures
        probe(after_set(v, key, t), key) == match v[index_spec(key, v.len() as int)] {
            Some((u, s)) => if s == signature_spec(key) && u.outranks(t) {
                probe(v, key)
            } else {
                Some(t)
            },
            None => Some(t),
        },
{
}

} // verus!
