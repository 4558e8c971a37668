//! The storage model the initialization protocol runs against: a shared
//! address space of slots, each allocated once with an exact size, funded by
//! a payer, and holding one record.

use vstd::prelude::*;

use crate::address::{addr_eq, copy_bytes, Address};
use crate::coupon::CouponMetadata;
use crate::user::{user_record_len, User, UserView};

verus! {

/// A stored record, tagged by its schema.
pub enum Record {
    Identity(User),
    Metadata(CouponMetadata),
}

/// The mathematical value of a stored record.
pub enum RecordView {
    Identity(UserView),
    Metadata(crate::coupon::CouponMetadataView),
}

impl View for Record {
    type V = RecordView;

    open spec fn view(&self) -> RecordView {
        match self {
            Record::Identity(u) => RecordView::Identity(u@),
            Record::Metadata(m) => RecordView::Metadata(m@),
        }
    }
}

/// One allocated storage slot: its exact size in bytes, the identity that
/// funded its allocation, and the record it holds.
pub struct Slot {
    pub size: usize,
    pub funder: Address,
    pub record: Record,
}

/// The mathematical value of a slot.
pub struct SlotView {
    pub size: int,
    pub funder: Seq<u8>,
    pub record: RecordView,
}

impl View for Slot {
    type V = SlotView;

    open spec fn view(&self) -> SlotView {
        SlotView { size: self.size as int, funder: self.funder@, record: self.record@ }
    }
}

/// The slot stored at address `a` among `entries`, if any: the first entry
/// whose address matches.
pub open spec fn find_in(entries: Seq<(Address, Slot)>, a: Seq<u8>) -> Option<SlotView>
    decreases entries.len(),
{
    if entries.len() == 0 {
        None
    } else if entries[0].0@ == a {
        Some(entries[0].1@)
    } else {
        find_in(entries.drop_first(), a)
    }
}

/// No slot lives at `a` exactly when no entry's address is `a`.
proof fn lemma_find_in_none_iff(entries: Seq<(Address, Slot)>, a: Seq<u8>)
    ensures
        find_in(entries, a) is None <==> (forall|i: int|
            0 <= i < entries.len() ==> #[trigger] entries[i].0@ != a),
    decreases entries.len(),
{
    if entries.len() == 0 {
    } else if entries[0].0@ == a {
        assert(!(forall|i: int| 0 <= i < entries.len() ==> #[trigger] entries[i].0@ != a)) by {
            assert(entries[0].0@ == a);
        }
    } else {
        let d = entries.drop_first();
        lemma_find_in_none_iff(d, a);
        assert(forall|i: int| 0 <= i < d.len() ==> #[trigger] d[i] == entries[i + 1]);
        if find_in(entries, a) is None {
            assert forall|i: int| 0 <= i < entries.len() implies #[trigger] entries[i].0@ != a by {
                if i > 0 {
                    assert(d[i - 1].0@ != a);
                }
            }
        } else {
            assert(exists|j: int| 0 <= j < d.len() && #[trigger] d[j].0@ == a);
            let j = choose|j: int| 0 <= j < d.len() && #[trigger] d[j].0@ == a;
            assert(entries[j + 1].0@ == a);
        }
    }
}

/// The first matching entry is the one `find_in` returns.
proof fn lemma_find_in_index(entries: Seq<(Address, Slot)>, a: Seq<u8>, i: int)
    requires
        0 <= i < entries.len(),
        entries[i].0@ == a,
        forall|j: int| 0 <= j < i ==> #[trigger] entries[j].0@ != a,
    ensures
        find_in(entries, a) == Some(entries[i].1@),
    decreases i,
{
    if i > 0 {
        assert(entries[0].0@ != a);
        lemma_find_in_index(entries.drop_first(), a, i - 1);
        assert(entries.drop_first()[i - 1] == entries[i]);
    }
}

/// Appending an entry leaves every occupied address as it was and fills the
/// new entry's address if it was free.
proof fn lemma_find_in_push(entries: Seq<(Address, Slot)>, e: (Address, Slot), a: Seq<u8>)
    ensures
        find_in(entries.push(e), a) == (if find_in(entries, a) is Some {
            find_in(entries, a)
        } else if e.0@ == a {
            Some(e.1@)
        } else {
            None::<SlotView>
        }),
    decreases entries.len(),
{
    let p = entries.push(e);
    if entries.len() == 0 {
        assert(p[0] == e);
        assert(p.drop_first() =~= Seq::<(Address, Slot)>::empty());
        if e.0@ == a {
            assert(find_in(p, a) == Some(e.1@));
        } else {
            assert(find_in(p, a) == find_in(p.drop_first(), a));
        }
    } else {
        assert(p[0] == entries[0]);
        lemma_find_in_push(entries.drop_first(), e, a);
        assert(p.drop_first() =~= entries.drop_first().push(e));
        if entries[0].0@ == a {
            assert(find_in(p, a) == Some(entries[0].1@));
            assert(find_in(entries, a) == Some(entries[0].1@));
        } else {
            assert(find_in(p, a) == find_in(entries.drop_first().push(e), a));
            assert(find_in(entries, a) == find_in(entries.drop_first(), a));
        }
    }
}

/// Replacing the entry at `i` by one with the same address changes that
/// address's slot and no other, provided all addresses are distinct.
proof fn lemma_find_in_update(
    entries: Seq<(Address, Slot)>,
    i: int,
    e: (Address, Slot),
    a: Seq<u8>,
)
    requires
        0 <= i < entries.len(),
        e.0@ == entries[i].0@,
        forall|j: int, k: int|
            0 <= j < k < entries.len() ==> #[trigger] entries[j].0@ != #[trigger] entries[k].0@,
    ensures
        find_in(entries.update(i, e), a) == (if a == entries[i].0@ {
            Some(e.1@)
        } else {
            find_in(entries, a)
        }),
    decreases i,
{
    let updated = entries.update(i, e);
    if i == 0 {
        assert(updated[0] == e);
        if a != e.0@ {
            assert(updated.drop_first() =~= entries.drop_first());
        }
    } else {
        assert(updated[0] == entries[0]);
        assert(entries[0].0@ != entries[i].0@);
        if a != entries[0].0@ {
            assert(updated.drop_first() =~= entries.drop_first().update(i - 1, e));
            assert(forall|j: int, k: int|
                0 <= j < k < entries.drop_first().len() ==> #[trigger] entries.drop_first()[j].0@
                    != #[trigger] entries.drop_first()[k].0@) by {
                assert(forall|j: int|
                    0 <= j < entries.drop_first().len() ==> #[trigger] entries.drop_first()[j]
                        == entries[j + 1]);
            }
            lemma_find_in_update(entries.drop_first(), i - 1, e, a);
            assert(entries.drop_first()[i - 1] == entries[i]);
        }
    }
}

/// The shared storage the host keeps: every participant's slots, addressed
/// by derived addresses under one program id.
pub struct Ledger {
    program_id: Address,
    slots: Vec<(Address, Slot)>,
}

impl Ledger {
    /// The program id every address in this ledger is derived under.
    pub closed spec fn pid(self) -> Seq<u8> {
        self.program_id@
    }

    /// The slot at address `a`, if one is allocated.
    pub closed spec fn slot_view(self, a: Seq<u8>) -> Option<SlotView> {
        find_in(self.slots@, a)
    }

    /// Every allocated address is unique: the address space is a map.
    pub closed spec fn wf(self) -> bool {
        forall|j: int, k: int|
            0 <= j < k < self.slots@.len() ==> #[trigger] self.slots@[j].0@
                != #[trigger] self.slots@[k].0@
    }

    /// An empty ledger under the given program id.
    pub fn new(program_id: Address) -> (l: Ledger)
        ensures
            l.wf(),
            l.pid() == program_id@,
            forall|a: Seq<u8>| l.slot_view(a) is None,
    {
        Ledger { program_id, slots: Vec::new() }
    }

    /// The program id this ledger derives addresses under.
    pub fn program_id(&self) -> (a: Address)
        ensures
            a@ == self.pid(),
    {
        self.program_id
    }

    /// The index of the entry at address `a`, if one is allocated.
    fn find_index(&self, a: &Address) -> (r: Option<usize>)
        ensures
            r matches Some(i) ==> i < self.slots@.len() && self.slots@[i as int].0@ == a@
                && self.slot_view(a@) == Some(self.slots@[i as int].1@),
            r is None ==> self.slot_view(a@) is None,
    {
        let mut i: usize = 0;
        while i < self.slots.len()
            invariant
                0 <= i <= self.slots@.len(),
                forall|j: int| 0 <= j < i ==> #[trigger] self.slots@[j].0@ != a@,
            decreases self.slots@.len() - i,
        {
            let entry = &self.slots[i];
            if addr_eq(&entry.0, a) {
                proof {
                    lemma_find_in_index(self.slots@, a@, i as int);
                }
                return Some(i);
            }
            i = i + 1;
        }
        proof {
            lemma_find_in_none_iff(self.slots@, a@);
        }
        None
    }

    /// A borrow of the slot at address `a`, if one is allocated.
    pub fn slot_ref(&self, a: &Address) -> (r: Option<&Slot>)
        ensures
            r matches Some(s) ==> self.slot_view(a@) == Some(s@),
            r is None ==> self.slot_view(a@) is None,
    {
        match self.find_index(a) {
            Some(i) => Some(&self.slots[i].1),
            None => None,
        }
    }

    /// Writes a slot at an address, as any participant of the shared address
    /// space may; reports whether the address was free. An occupied address
    /// is left exactly as it was.
    pub fn place_slot(&mut self, address: Address, slot: Slot) -> (ok: bool)
        requires
            old(self).wf(),
        ensures
            final(self).wf(),
            final(self).pid() == old(self).pid(),
            ok <==> old(self).slot_view(address@) is None,
            ok ==> final(self).slot_view(address@) == Some(slot@) && (forall|x: Seq<u8>|
                x != address@ ==> final(self).slot_view(x) == old(self).slot_view(x)),
            !ok ==> *final(self) == *old(self),
    {
        let ghost snap = *self;
        match self.find_index(&address) {
            Some(_) => false,
            None => {
                proof {
                    lemma_find_in_none_iff(self.slots@, address@);
                }
                let ghost e = (address, slot);
                self.slots.push((address, slot));
                proof {
                    assert forall|x: Seq<u8>| true implies #[trigger] find_in(
                        self.slots@,
                        x,
                    ) == (if find_in(snap.slots@, x) is Some {
                        find_in(snap.slots@, x)
                    } else if e.0@ == x {
                        Some(e.1@)
                    } else {
                        None::<SlotView>
                    }) by {
                        lemma_find_in_push(snap.slots@, e, x);
                    }
                }
                true
            },
        }
    }

    /// Overwrites the mutable fields (region and geo) of the Identity Record
    /// at `address`, provided an Identity Record of the expected size lives
    /// there; reports whether it did. The record's uri, two_factor and bump,
    /// and the slot's size and funder, are kept; when nothing fits, nothing
    /// changes.
    pub fn update_identity(&mut self, address: &Address, region: &Vec<u8>, geo: &Vec<u8>) -> (ok:
        bool)
        requires
            old(self).wf(),
        ensures
            final(self).wf(),
            final(self).pid() == old(self).pid(),
            ok <==> (old(self).slot_view(address@) matches Some(sv) && sv.record is Identity
                && sv.size == user_record_len()),
            ok ==> (old(self).slot_view(address@) matches Some(sv) && final(self).slot_view(
                address@,
            ) == Some(updated_identity(sv, region@, geo@))) && (forall|x: Seq<u8>|
                x != address@ ==> final(self).slot_view(x) == old(self).slot_view(x)),
            !ok ==> *final(self) == *old(self),
    {
        match self.find_index(address) {
            None => false,
            Some(i) => {
                let fits = {
                    let s = &self.slots[i].1;
                    let is_identity = match &s.record {
                        Record::Identity(_) => true,
                        Record::Metadata(_) => false,
                    };
                    is_identity && s.size == User::len()
                };
                if !fits {
                    false
                } else {
                    self.set_identity_fields(i, copy_bytes(region), copy_bytes(geo));
                    true
                }
            },
        }
    }

    /// Overwrites the mutable fields of the Identity Record at entry `i`,
    /// leaving its size, funder, uri, two_factor and bump as they were.
    fn set_identity_fields(&mut self, i: usize, region: Vec<u8>, geo: Vec<u8>)
        requires
            old(self).wf(),
            i < old(self).slots@.len(),
            old(self).slots@[i as int].1.record is Identity,
        ensures
            final(self).wf(),
            final(self).pid() == old(self).pid(),
            final(self).slot_view(old(self).slots@[i as int].0@) == Some(SlotView {
                size: old(self).slots@[i as int].1@.size,
                funder: old(self).slots@[i as int].1@.funder,
                record: RecordView::Identity(UserView {
                    region: region@,
                    geo: geo@,
                    uri: old(self).slots@[i as int].1.record->Identity_0@.uri,
                    two_factor: old(self).slots@[i as int].1.record->Identity_0@.two_factor,
                    bump: old(self).slots@[i as int].1.record->Identity_0@.bump,
                }),
            }),
            forall|x: Seq<u8>|
                x != old(self).slots@[i as int].0@ ==> final(self).slot_view(x) == old(
                    self,
                ).slot_view(x),
    {
        let ghost snap = *self;
        let (address, slot) = self.slots.remove(i);
        let Slot { size, funder, record } = slot;
        match record {
            Record::Identity(u) => {
                let updated = User {
                    region,
                    geo,
                    uri: u.uri,
                    two_factor: u.two_factor,
                    bump: u.bump,
                };
                let entry = (address, Slot { size, funder, record: Record::Identity(updated) });
                let ghost e = entry;
                self.slots.insert(i, entry);
                proof {
                    assert(self.slots@ =~= snap.slots@.update(i as int, e));
                    assert forall|x: Seq<u8>| true implies #[trigger] find_in(
                        self.slots@,
                        x,
                    ) == (if x == snap.slots@[i as int].0@ {
                        Some(e.1@)
                    } else {
                        find_in(snap.slots@, x)
                    }) by {
                        lemma_find_in_update(snap.slots@, i as int, e, x);
                    }
                    assert(find_in(snap.slots@, snap.slots@[i as int].0@) is Some) by {
                        lemma_find_in_index_exists(snap.slots@, i as int);
                    }
                }
            },
            Record::Metadata(m) => {
                proof {
                    assert(false);
                }
                self.slots.insert(i, (address, Slot { size, funder, record: Record::Metadata(m) }));
            },
        }
    }
}

/// The slot `sv` with its region and geo replaced and all else kept.
pub open spec fn updated_identity(sv: SlotView, region: Seq<u8>, geo: Seq<u8>) -> SlotView {
    SlotView {
        size: sv.size,
        funder: sv.funder,
        record: RecordView::Identity(
            UserView {
                region: region,
                geo: geo,
                uri: sv.record->Identity_0.uri,
                two_factor: sv.record->Identity_0.two_factor,
                bump: sv.record->Identity_0.bump,
            },
        ),
    }
}

/// An entry's address is occupied.
proof fn lemma_find_in_index_exists(entries: Seq<(Address, Slot)>, i: int)
    requires
        0 <= i < entries.len(),
    ensures
        find_in(entries, entries[i].0@) is Some,
    decreases i,
{
    if entries[0].0@ != entries[i].0@ {
        lemma_find_in_index_exists(entries.drop_first(), i - 1);
        assert(entries.drop_first()[i - 1] == entries[i]);
    }
}

} // verus!
