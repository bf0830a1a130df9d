//! The address-indexed instruction stream.
//!
//! A [`CodeListing`] maps machine-instruction addresses to the ordered
//! sequence of micro-operations emitted for each address. Its invariants:
//! addresses are unique and iterate in ascending order, and the sequence
//! under one address keeps strict emission order — instructions are never
//! dropped, reordered or deduplicated.

use vstd::prelude::*;
use crate::inst::Inst;
use crate::inst::InstModel;
use crate::inst::insts_model;
use crate::operand::Addr;

verus! {

/// One address and the micro-operations emitted for it, in arrival order.
#[derive(Clone, Debug, PartialEq)]
struct ListingEntry {
    addr: Addr,
    insts: Vec<Inst>,
}

/// An ordered mapping from machine-instruction address to the sequence of
/// micro-operations at that address.
#[derive(Debug, PartialEq)]
pub struct CodeListing {
    entries: Vec<ListingEntry>,
}

impl View for CodeListing {
    type V = Seq<(Addr, Seq<InstModel>)>;

    closed spec fn view(&self) -> Seq<(Addr, Seq<InstModel>)> {
        self.entries@.map_values(|e: ListingEntry| (e.addr, insts_model(e.insts@)))
    }
}

/// Whether addresses are strictly ascending (hence unique).
pub open spec fn listing_sorted(m: Seq<(Addr, Seq<InstModel>)>) -> bool {
    forall|i: int, j: int| 0 <= i < j < m.len() ==> m[i].0 < m[j].0
}

/// The sequence stored under `addr`, if the address is present.
pub open spec fn listing_get(m: Seq<(Addr, Seq<InstModel>)>, addr: Addr) -> Option<
    Seq<InstModel>,
>
    decreases m.len(),
{
    if m.len() == 0 {
        None
    } else if m.first().0 == addr {
        Some(m.first().1)
    } else {
        listing_get(m.drop_first(), addr)
    }
}

/// `m` with `inst` filed under `addr`: appended to the sequence already
/// there, or entered as a new address at its sorted position.
pub open spec fn listing_push(
    m: Seq<(Addr, Seq<InstModel>)>,
    addr: Addr,
    inst: InstModel,
) -> Seq<(Addr, Seq<InstModel>)>
    decreases m.len(),
{
    if m.len() == 0 {
        seq![(addr, seq![inst])]
    } else if m.first().0 == addr {
        seq![(addr, m.first().1.push(inst))] + m.drop_first()
    } else if addr < m.first().0 {
        seq![(addr, seq![inst])] + m
    } else {
        seq![m.first()] + listing_push(m.drop_first(), addr, inst)
    }
}

/// Where [`listing_push`] lands, positionally: at the index of `addr` if
/// present, appending; otherwise inserting at the first index whose address
/// exceeds `addr`.
pub proof fn lemma_listing_push_at(
    m: Seq<(Addr, Seq<InstModel>)>,
    addr: Addr,
    inst: InstModel,
    idx: int,
)
    requires
        listing_sorted(m),
        0 <= idx <= m.len(),
        forall|j: int| 0 <= j < idx ==> m[j].0 < addr,
        idx < m.len() ==> m[idx].0 >= addr,
    ensures
        idx < m.len() && m[idx].0 == addr ==> listing_push(m, addr, inst) == m.update(
            idx,
            (addr, m[idx].1.push(inst)),
        ),
        !(idx < m.len() && m[idx].0 == addr) ==> listing_push(m, addr, inst) == m.insert(
            idx,
            (addr, seq![inst]),
        ),
    decreases m.len(),
{
    if m.len() == 0 {
        assert(listing_push(m, addr, inst) =~= m.insert(0, (addr, seq![inst])));
    } else if idx == 0 {
        if m[0].0 == addr {
            assert(listing_push(m, addr, inst) =~= m.update(0, (addr, m[0].1.push(inst))));
        } else {
            assert(addr < m[0].0);
            assert(listing_push(m, addr, inst) =~= m.insert(0, (addr, seq![inst])));
        }
    } else {
        assert(m[0].0 < addr);
        let tail = m.drop_first();
        assert(listing_sorted(tail)) by {
            assert(forall|i: int, j: int|
                0 <= i < j < tail.len() ==> tail[i].0 == m[i + 1].0 && tail[j].0 == m[j + 1].0);
        }
        assert(forall|j: int| 0 <= j < idx - 1 ==> tail[j].0 == m[j + 1].0 && tail[j].0 < addr);
        assert(idx - 1 < tail.len() ==> tail[idx - 1].0 == m[idx].0);
        lemma_listing_push_at(tail, addr, inst, idx - 1);
        if idx < m.len() && m[idx].0 == addr {
            assert(seq![m.first()] + tail.update(idx - 1, (addr, tail[idx - 1].1.push(inst)))
                =~= m.update(idx, (addr, m[idx].1.push(inst))));
        } else {
            assert(seq![m.first()] + tail.insert(idx - 1, (addr, seq![inst])) =~= m.insert(
                idx,
                (addr, seq![inst]),
            ));
        }
    }
}

/// What filing an instruction does, address by address: the target
/// address's sequence gains `inst` at its end (or is created with just
/// `inst`), every other address keeps its sequence, and the listing stays
/// sorted.
pub proof fn lemma_listing_push_properties(
    m: Seq<(Addr, Seq<InstModel>)>,
    addr: Addr,
    inst: InstModel,
)
    requires
        listing_sorted(m),
    ensures
        listing_sorted(listing_push(m, addr, inst)),
        listing_get(listing_push(m, addr, inst), addr) == Some(
            match listing_get(m, addr) {
                Some(s) => s.push(inst),
                None => seq![inst],
            },
        ),
        forall|b: Addr|
            b != addr ==> listing_get(listing_push(m, addr, inst), b) == listing_get(m, b),
    decreases m.len(),
{
    if m.len() == 0 {
        let r = listing_push(m, addr, inst);
        assert forall|b: Addr| b != addr implies listing_get(r, b) == listing_get(m, b) by {
            assert(listing_get(r, b) == listing_get(r.drop_first(), b));
            assert(r.drop_first() =~= m);
        }
    } else if m.first().0 == addr {
        let r = seq![(addr, m.first().1.push(inst))] + m.drop_first();
        assert(forall|j: int| 0 <= j < r.len() ==> r[j].0 == m[j].0);
        assert(r.drop_first() =~= m.drop_first());
        assert(listing_get(r, addr) == Some(m.first().1.push(inst)));
        assert forall|b: Addr| b != addr implies listing_get(r, b) == listing_get(m, b) by {
            assert(listing_get(r, b) == listing_get(r.drop_first(), b));
            assert(listing_get(m, b) == listing_get(m.drop_first(), b));
        }
    } else if addr < m.first().0 {
        let r = seq![(addr, seq![inst])] + m;
        assert(forall|j: int| 1 <= j < r.len() ==> r[j].0 == m[j - 1].0);
        assert(r.drop_first() =~= m);
        assert(listing_get(r, addr) == Some(seq![inst]));
        assert(forall|j: int| 0 <= j < m.len() ==> (#[trigger] m[j].0) != addr) by {
            assert(forall|j: int| 1 <= j < m.len() ==> m[0].0 < (#[trigger] m[j].0));
        }
        lemma_listing_get_none(m, addr);
        assert forall|b: Addr| b != addr implies listing_get(r, b) == listing_get(m, b) by {
            assert(listing_get(r, b) == listing_get(r.drop_first(), b));
        }
    } else {
        let tail = m.drop_first();
        assert(listing_sorted(tail)) by {
            assert(forall|i: int, j: int|
                0 <= i < j < tail.len() ==> tail[i].0 == m[i + 1].0 && tail[j].0 == m[j + 1].0);
        }
        lemma_listing_push_properties(tail, addr, inst);
        let r = seq![m.first()] + listing_push(tail, addr, inst);
        assert(r.drop_first() =~= listing_push(tail, addr, inst));
        assert(listing_sorted(r)) by {
            assert(forall|j: int|
                0 <= j < listing_push(tail, addr, inst).len() ==> r[j + 1]
                    == listing_push(tail, addr, inst)[j]);
            assert(m.first().0 < addr);
            assert(forall|j: int| 0 <= j < tail.len() ==> m.first().0 < tail[j].0);
            lemma_listing_push_addrs(tail, addr, inst);
        }
        assert(r.first().0 == m.first().0 && m.first().0 != addr);
        assert(listing_get(r, addr) == listing_get(r.drop_first(), addr));
        assert(listing_get(m, addr) == listing_get(tail, addr));
        assert forall|b: Addr| b != addr implies listing_get(r, b) == listing_get(m, b) by {
            if b == m.first().0 {
                assert(listing_get(r, b) == Some(r.first().1));
                assert(listing_get(m, b) == Some(m.first().1));
            } else {
                assert(listing_get(r, b) == listing_get(r.drop_first(), b));
                assert(listing_get(m, b) == listing_get(tail, b));
            }
        }
    }
}

/// An address held by no entry looks up to nothing.
proof fn lemma_listing_get_none(m: Seq<(Addr, Seq<InstModel>)>, addr: Addr)
    requires
        forall|j: int| 0 <= j < m.len() ==> (#[trigger] m[j].0) != addr,
    ensures
        listing_get(m, addr) is None,
    decreases m.len(),
{
    if m.len() > 0 {
        assert(forall|j: int|
            0 <= j < m.drop_first().len() ==> (#[trigger] m.drop_first()[j].0) == m[j + 1].0);
        lemma_listing_get_none(m.drop_first(), addr);
    }
}

/// Every address in a pushed listing is an old address or the new one.
proof fn lemma_listing_push_addrs(m: Seq<(Addr, Seq<InstModel>)>, addr: Addr, inst: InstModel)
    ensures
        forall|j: int|
            0 <= j < listing_push(m, addr, inst).len() ==> (#[trigger] listing_push(
                m,
                addr,
                inst,
            )[j].0 == addr || exists|i: int| 0 <= i < m.len() && m[i].0 == listing_push(
                m,
                addr,
                inst,
            )[j].0),
    decreases m.len(),
{
    if m.len() == 0 {
    } else if m.first().0 == addr {
        let r = seq![(addr, m.first().1.push(inst))] + m.drop_first();
        assert(forall|j: int| 1 <= j < r.len() ==> r[j] == m.drop_first()[j - 1] && r[j].0 == m[j].0);
    } else if addr < m.first().0 {
        let r = seq![(addr, seq![inst])] + m;
        assert(forall|j: int| 1 <= j < r.len() ==> r[j] == m[j - 1]);
    } else {
        lemma_listing_push_addrs(m.drop_first(), addr, inst);
        let tail_r = listing_push(m.drop_first(), addr, inst);
        let r = seq![m.first()] + tail_r;
        assert(forall|j: int| 1 <= j < r.len() ==> r[j] == tail_r[j - 1]);
        assert forall|j: int| 1 <= j < r.len() implies (#[trigger] r[j].0 == addr || exists|i: int|
            0 <= i < m.len() && m[i].0 == r[j].0) by {
            if r[j].0 != addr {
                let i0 = choose|i: int|
                    0 <= i < m.drop_first().len() && m.drop_first()[i].0 == tail_r[j - 1].0;
                assert(m[i0 + 1].0 == r[j].0);
            }
        }
    }
}

impl CodeListing {
    /// The listing's invariant: addresses strictly ascending.
    pub open spec fn wf(&self) -> bool {
        listing_sorted(self@)
    }

    /// An empty listing.
    pub fn new() -> (r: Self)
        ensures
            r@ == Seq::<(Addr, Seq<InstModel>)>::empty(),
            r.wf(),
    {
        let r = CodeListing { entries: Vec::new() };
        proof {
            assert(r@ =~= Seq::<(Addr, Seq<InstModel>)>::empty());
        }
        r
    }

    /// The number of distinct addresses in the listing.
    pub fn len(&self) -> (r: usize)
        ensures
            r == self@.len(),
    {
        self.entries.len()
    }

    /// The address at iteration position `i` (ascending when well-formed).
    pub fn addr_at(&self, i: usize) -> (r: Addr)
        requires
            i < self@.len(),
        ensures
            r == self@[i as int].0,
    {
        self.entries[i].addr
    }

    /// The instructions at iteration position `i`, in arrival order.
    pub fn insts_at(&self, i: usize) -> (r: &Vec<Inst>)
        requires
            i < self@.len(),
        ensures
            insts_model(r@) == self@[i as int].1,
    {
        &self.entries[i].insts
    }

    /// Looks an address up, following [`listing_get`].
    pub fn get(&self, addr: Addr) -> (r: Option<&Vec<Inst>>)
        ensures
            match listing_get(self@, addr) {
                Some(s) => r matches Some(v) && insts_model(v@) == s,
                None => r is None,
            },
    {
        let n = self.entries.len();
        let mut i: usize = 0;
        proof {
            assert(self@.skip(0) =~= self@);
        }
        while i < n
            invariant
                i <= n,
                n == self.entries@.len(),
                listing_get(self@, addr) == listing_get(self@.skip(i as int), addr),
            decreases n - i,
        {
            proof {
                assert(self@.skip(i as int).first() == self@[i as int]);
                assert(self@.skip(i as int).drop_first() =~= self@.skip(i as int + 1));
            }
            if self.entries[i].addr == addr {
                return Some(&self.entries[i].insts);
            }
            i += 1;
        }
        proof {
            assert(self@.skip(n as int) =~= Seq::<(Addr, Seq<InstModel>)>::empty());
        }
        None
    }

    /// Files `inst` under `addr`: appends to the sequence already there, or
    /// enters the address at its sorted position. Exactly
    /// [`listing_push`] on the model; nothing is ever dropped, reordered or
    /// deduplicated.
    pub fn push(&mut self, addr: Addr, inst: Inst)
        requires
            old(self).wf(),
        ensures
            final(self)@ == listing_push(old(self)@, addr, inst@),
            final(self).wf(),
    {
        let n = self.entries.len();
        let mut idx: usize = 0;
        while idx < n && self.entries[idx].addr < addr
            invariant
                idx <= n,
                n == self.entries@.len(),
                *self == *old(self),
                forall|j: int| 0 <= j < idx ==> old(self)@[j].0 < addr,
            decreases n - idx,
        {
            proof {
                assert(self@[idx as int].0 == self.entries@[idx as int].addr);
            }
            idx += 1;
        }
        proof {
            assert(idx < n ==> self@[idx as int].0 == self.entries@[idx as int].addr);
            lemma_listing_push_at(old(self)@, addr, inst@, idx as int);
        }
        if idx < n && self.entries[idx].addr == addr {
            let mut e = self.entries.remove(idx);
            e.insts.push(inst);
            let ghost ev = e.insts@;
            self.entries.insert(idx, e);
            proof {
                assert(insts_model(ev) =~= old(self)@[idx as int].1.push(inst@));
                assert(self@ =~= old(self)@.update(
                    idx as int,
                    (addr, old(self)@[idx as int].1.push(inst@)),
                ));
            }
        } else {
            let mut insts: Vec<Inst> = Vec::new();
            insts.push(inst);
            let ghost iv = insts@;
            self.entries.insert(idx, ListingEntry { addr, insts });
            proof {
                assert(insts_model(iv) =~= seq![inst@]);
                assert(self@ =~= old(self)@.insert(idx as int, (addr, seq![inst@])));
            }
        }
        proof {
            lemma_listing_push_properties(old(self)@, addr, inst@);
        }
    }
}

} // verus!
