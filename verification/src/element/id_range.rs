//! Ranges of element ids, and the mapping between an element id (with an
//! optional sub-id) and an exposed id.
use vstd::prelude::*;

verus! {

/// A range of element ids, `first` and `last` both included. It converts
/// between an **element id** (with an optional **sub-id**) and an **exposed
/// id**: the first exposed ids take one element id each (the full slots);
/// where there are more exposed ids than slots, the last slots are followed
/// by a sub-id and each of them takes 256 exposed ids.
#[derive(Debug, Clone, Copy, PartialEq, Eq, Structural)]
pub struct ElementIdRange {
    pub first: u8,
    pub last: u8,
}

impl ElementIdRange {
    /// Whether the range holds at least one id and at most 255.
    pub open spec fn spec_valid(self) -> bool {
        self.first <= self.last && self.last - self.first < 255
    }

    /// The number of slots (ids) in the range.
    pub open spec fn spec_slots(self) -> int {
        self.last - self.first + 1
    }

    /// The number of exposed ids above the slots count (zero if none).
    pub open spec fn spec_excess(self, exposed_count: u16) -> int {
        if exposed_count > self.spec_slots() {
            exposed_count - self.spec_slots()
        } else {
            0
        }
    }

    /// The number of slots that need a sub-id, before it is cut to a byte.
    pub open spec fn spec_needed_sub_slots(self, exposed_count: u16) -> int {
        let excess = self.spec_excess(exposed_count);
        if excess > 0 {
            excess / 255 + 1
        } else {
            0
        }
    }

    /// What `sub_slots_count` returns: the needed sub slots, cut to a byte.
    pub open spec fn spec_sub_slots(self, exposed_count: u16) -> int {
        self.spec_needed_sub_slots(exposed_count) % 256
    }

    /// What `full_slots_count` returns.
    pub open spec fn spec_full_slots(self, exposed_count: u16) -> int {
        self.spec_slots() - self.spec_sub_slots(exposed_count)
    }

    /// The range holds `exposed_count` exposed ids: the sub slots it needs
    /// are no more than its slots.
    pub open spec fn spec_fits(self, exposed_count: u16) -> bool {
        &&& self.spec_valid()
        &&& self.spec_needed_sub_slots(exposed_count) <= self.spec_slots()
    }

    /// What `from_exposed_id` returns.
    pub open spec fn spec_from_exposed_id(self, exposed_count: u16, exposed_id: u16) -> (
        u8,
        Option<u8>,
    ) {
        let full = self.spec_full_slots(exposed_count);
        if exposed_id < full {
            ((self.first + exposed_id) as u8, None)
        } else {
            let overflow = exposed_id - full;
            (
                ((self.first + full + overflow / 256) % 256) as u8,
                Some((overflow % 256) as u8),
            )
        }
    }

    /// The exposed id of an element id and a sub-id (used only in a sub slot).
    pub open spec fn spec_to_exposed_id(
        self,
        exposed_count: u16,
        element_id: u8,
        sub_id: u8,
    ) -> int {
        let exposed_id = element_id - self.first;
        let full = self.spec_full_slots(exposed_count);
        if exposed_id < full {
            exposed_id
        } else {
            full + 256 * (exposed_id - full) + sub_id
        }
    }

    /// Create a new id range, with first and last ids, both included.
    pub fn new(first: u8, last: u8) -> (r: Self)
        ensures
            r.first == first,
            r.last == last,
    {
        Self { first, last }
    }

    /// Whether the id is in the range.
    pub fn contains(self, id: u8) -> (r: bool)
        ensures
            r == (self.first <= id && id <= self.last),
    {
        self.first <= id && id <= self.last
    }

    /// Returns the number of slots in this range.
    pub fn slots_count(self) -> (r: u8)
        requires
            self.spec_valid(),
        ensures
            r == self.spec_slots(),
    {
        self.last - self.first + 1
    }

    /// Returns the number of slots that require a sub-id. These slots are
    /// starting from the end of the range. For example, if this function
    /// returns 1, this means that the last slot (`.last`), if used, will be
    /// followed by a sub-id. It depends on the total number of exposed ids.
    pub fn sub_slots_count(self, exposed_count: u16) -> (r: u8)
        requires
            self.spec_valid(),
        ensures
            r == self.spec_sub_slots(exposed_count),
    {
        let excess_count = exposed_count.saturating_sub(self.slots_count() as u16);
        if excess_count > 0 {
            let needed: u16 = excess_count / 255 + 1;
            assert((needed as u8) as int == needed % 256) by (bit_vector);
            #[verifier::truncate]
            (needed as u8)
        } else {
            0
        }
    }

    /// Returns the number of full slots that don't require a sub-id; the
    /// complement of `sub_slots_count`.
    pub fn full_slots_count(self, exposed_count: u16) -> (r: u8)
        requires
            self.spec_valid(),
            self.spec_sub_slots(exposed_count) <= self.spec_slots(),
        ensures
            r == self.spec_full_slots(exposed_count),
    {
        self.slots_count() - self.sub_slots_count(exposed_count)
    }

    /// Get the element's id and optional sub-id from the given exposed id
    /// and total count of exposed ids.
    pub fn from_exposed_id(self, exposed_count: u16, exposed_id: u16) -> (r: (u8, Option<u8>))
        requires
            self.spec_valid(),
            self.spec_sub_slots(exposed_count) <= self.spec_slots(),
            exposed_id >= self.spec_full_slots(exposed_count) ==> self.first + self.spec_full_slots(
                exposed_count,
            ) <= 255,
        ensures
            r == self.spec_from_exposed_id(exposed_count, exposed_id),
    {
        let full_slots = self.full_slots_count(exposed_count);
        if exposed_id < full_slots as u16 {
            // The exposed id fits in the full slots.
            (self.first + exposed_id as u8, None)
        } else {
            // The exposed id goes in a sub-slot: its offset from the first
            // sub slot picks the slot and the sub-id.
            let overflow = exposed_id - full_slots as u16;
            let first_sub_slot = self.first + full_slots;
            let slot: u16 = first_sub_slot as u16 + overflow / 256;
            let sub: u16 = overflow % 256;
            assert((slot as u8) as int == slot % 256) by (bit_vector);
            assert((sub as u8) as int == sub % 256) by (bit_vector);
            (#[verifier::truncate] (slot as u8), Some(#[verifier::truncate] (sub as u8)))
        }
    }

    /// Get the exposed id of an element id, but only where it is in a full
    /// slot (and so needs no sub-id).
    pub fn to_exposed_id_checked(self, exposed_count: u16, element_id: u8) -> (r: Option<u16>)
        requires
            self.spec_valid(),
            self.spec_sub_slots(exposed_count) <= self.spec_slots(),
            element_id >= self.first,
        ensures
            r == (if element_id - self.first < self.spec_full_slots(exposed_count) {
                Some((element_id - self.first) as u16)
            } else {
                None::<u16>
            }),
    {
        let raw_exposed_id = element_id - self.first;
        if raw_exposed_id < self.full_slots_count(exposed_count) {
            Some(raw_exposed_id as u16)
        } else {
            None
        }
    }

    /// Get the exposed id from an element id and, where the element id is
    /// in a sub slot, the sub-id that `sub_id_getter` gives; the getter is
    /// called only then.
    pub fn to_exposed_id(
        self,
        exposed_count: u16,
        element_id: u8,
        sub_id_getter: impl FnOnce() -> u8,
    ) -> (r: u16)
        requires
            self.spec_valid(),
            self.spec_sub_slots(exposed_count) <= self.spec_slots(),
            element_id >= self.first,
            element_id - self.first >= self.spec_full_slots(exposed_count) ==> call_requires(
                sub_id_getter,
                (),
            ),
        ensures
            element_id - self.first < self.spec_full_slots(exposed_count) ==> r == element_id
                - self.first,
            element_id - self.first >= self.spec_full_slots(exposed_count) ==> exists|sub_id: u8|
                call_ensures(sub_id_getter, (), sub_id) && r == self.spec_to_exposed_id(
                    exposed_count,
                    element_id,
                    sub_id,
                ),
    {
        // The raw exposed id, compared with the full slots, tells whether a
        // sub-id is needed.
        let exposed_id = element_id - self.first;
        let full_slots = self.full_slots_count(exposed_count);
        if exposed_id < full_slots {
            exposed_id as u16
        } else {
            // The offset of the sub slot among the sub slots.
            let offset_id = exposed_id - full_slots;
            let sub_id = sub_id_getter();
            assert(full_slots as u16 + 256 * offset_id as u16 + sub_id as u16 <= 0xFFFF) by (
            nonlinear_arith)
                requires
                    offset_id + full_slots <= 255,
            ;
            let r = full_slots as u16 + 256 * offset_id as u16 + sub_id as u16;
            assert(r == self.spec_to_exposed_id(exposed_count, element_id, sub_id));
            r
        }
    }
}

/// Every exposed id below the count maps, in a range that holds the count,
/// to an element id in the range, with a sub-id exactly where the element id
/// is past the full slots; mapping the pair back gives the exposed id.
pub proof fn lemma_exposed_id_roundtrip(range: ElementIdRange, exposed_count: u16, exposed_id: u16)
    requires
        range.spec_fits(exposed_count),
        exposed_id < exposed_count,
    ensures
        ({
            let (element_id, sub_id) = range.spec_from_exposed_id(exposed_count, exposed_id);
            let full = range.spec_full_slots(exposed_count);
            &&& range.first <= element_id <= range.last
            &&& sub_id is None <==> element_id - range.first < full
            &&& range.spec_to_exposed_id(
                exposed_count,
                element_id,
                match sub_id {
                    Some(s) => s,
                    None => 0,
                },
            ) == exposed_id
        }),
{
    let slots = range.spec_slots();
    let excess = range.spec_excess(exposed_count);
    let needed = range.spec_needed_sub_slots(exposed_count);
    let full = range.spec_full_slots(exposed_count);
    assert(range.spec_sub_slots(exposed_count) == needed);
    if exposed_id >= full {
        let overflow = exposed_id - full;
        assert(excess > 0);
        assert(needed == excess / 255 + 1);
        assert(255 * (excess / 255) > excess - 255) by (nonlinear_arith)
            requires
                excess >= 0,
        ;
        assert(overflow < 256 * needed);
        assert(overflow / 256 < needed) by (nonlinear_arith)
            requires
                overflow < 256 * needed,
                overflow >= 0,
        ;
        assert(256 * (overflow / 256) + overflow % 256 == overflow) by (nonlinear_arith);
    }
}

/// An element id of the range, with the sub-id where it is past the full
/// slots, maps to an exposed id; where that id is below the count, mapping
/// it back gives the same element id and sub-id.
pub proof fn lemma_element_id_roundtrip(
    range: ElementIdRange,
    exposed_count: u16,
    element_id: u8,
    sub_id: u8,
)
    requires
        range.spec_fits(exposed_count),
        range.first <= element_id <= range.last,
        range.spec_to_exposed_id(exposed_count, element_id, sub_id) < exposed_count,
    ensures
        ({
            let exposed_id = range.spec_to_exposed_id(exposed_count, element_id, sub_id) as u16;
            range.spec_from_exposed_id(exposed_count, exposed_id) == (
                element_id,
                if element_id - range.first < range.spec_full_slots(exposed_count) {
                    None
                } else {
                    Some(sub_id)
                },
            )
        }),
{
    let full = range.spec_full_slots(exposed_count);
    let raw = element_id - range.first;
    if raw >= full {
        let offset = raw - full;
        let overflow = 256 * offset + sub_id;
        assert(overflow / 256 == offset && overflow % 256 == sub_id) by (nonlinear_arith)
            requires
                overflow == 256 * offset + sub_id,
                0 <= sub_id < 256,
                offset >= 0,
        ;
    }
}

/// An element id in a full slot needs no sub-id: its exposed id is its
/// offset in the range, whatever sub-id comes with it, and that is the id
/// that `to_exposed_id_checked` gives.
pub proof fn lemma_full_slot_ignores_sub_id(
    range: ElementIdRange,
    exposed_count: u16,
    element_id: u8,
    sub_id_a: u8,
    sub_id_b: u8,
)
    requires
        element_id >= range.first,
        element_id - range.first < range.spec_full_slots(exposed_count),
    ensures
        range.spec_to_exposed_id(exposed_count, element_id, sub_id_a) == element_id - range.first,
        range.spec_to_exposed_id(exposed_count, element_id, sub_id_a) == range.spec_to_exposed_id(
            exposed_count,
            element_id,
            sub_id_b,
        ),
{
}

/// In a range that holds the count, the sub slots are the last ones and
/// there are as many as the excess of exposed ids over the slots needs,
/// `excess / 255 + 1`. An exposed id in the full slots is the offset of its
/// element id from `first`; past them, consecutive exposed ids fill the sub
/// slots in order, 256 to a slot: the slot is the first sub slot plus the
/// id's offset from the full slots divided by 256, and the sub-id is that
/// offset modulo 256.
pub proof fn lemma_exposed_id_layout(range: ElementIdRange, exposed_count: u16, exposed_id: u16)
    requires
        range.spec_fits(exposed_count),
        exposed_id < exposed_count,
    ensures
        exposed_count <= range.spec_slots() ==> range.spec_sub_slots(exposed_count) == 0,
        exposed_count > range.spec_slots() ==> range.spec_sub_slots(exposed_count) == (
        exposed_count - range.spec_slots()) / 255 + 1,
        range.spec_full_slots(exposed_count) + range.spec_sub_slots(exposed_count)
            == range.last - range.first + 1,
        exposed_id < range.spec_full_slots(exposed_count) ==> range.spec_from_exposed_id(
            exposed_count,
            exposed_id,
        ) == ((range.first + exposed_id) as u8, None::<u8>),
        exposed_id >= range.spec_full_slots(exposed_count) ==> ({
            let offset = exposed_id - range.spec_full_slots(exposed_count);
            let (element_id, sub_id) = range.spec_from_exposed_id(exposed_count, exposed_id);
            &&& element_id == range.first + range.spec_full_slots(exposed_count) + offset / 256
            &&& sub_id == Some((offset % 256) as u8)
        }),
{
    lemma_exposed_id_roundtrip(range, exposed_count, exposed_id);
}

} // verus!
