//! Small value types shared by the rest of the crate.

use vstd::prelude::*;

verus! {

/// A 16-bit count that is never zero.
#[derive(Debug, Copy, Clone, PartialEq, Eq, Structural, Hash)]
pub struct NonZeroU16 {
    raw: u16,
}

impl NonZeroU16 {
    /// The count.
    pub closed spec fn value(self) -> int {
        self.raw as int
    }

    /// The count that holds `v`, for `v` from 1 to 65535.
    pub closed spec fn of(v: int) -> NonZeroU16 {
        NonZeroU16 { raw: v as u16 }
    }

    /// Whether the count lies in the range that the type is kept to.
    pub open spec fn wf(self) -> bool {
        1 <= self.value() <= 65535
    }

    #[verifier::type_invariant]
    pub open spec fn inv(self) -> bool {
        self.wf()
    }

    /// `of` and `value` undo each other.
    pub broadcast proof fn lemma_of_value(v: int)
        requires
            0 <= v <= 65535,
        ensures
            (#[trigger] NonZeroU16::of(v)).value() == v,
    {
    }

    /// A count is fixed by its value.
    pub broadcast proof fn lemma_value_of(self)
        ensures
            NonZeroU16::of(#[trigger] self.value()) == self,
            0 <= self.value() <= 65535,
    {
    }

    /// The count `raw`, unless `raw` is zero.
    pub fn new(raw: u16) -> (r: Option<NonZeroU16>)
        ensures
            raw == 0 ==> r is None,
            raw != 0 ==> r == Some(NonZeroU16::of(raw as int)),
            r matches Some(n) ==> n.wf(),
    {
        if raw == 0 {
            None
        } else {
            Some(NonZeroU16 { raw })
        }
    }

    /// The count one.
    pub fn one() -> (r: NonZeroU16)
        ensures
            r == NonZeroU16::of(1),
            r.wf(),
    {
        NonZeroU16 { raw: 1 }
    }

    /// The count as a plain integer.
    pub fn get(self) -> (r: u16)
        ensures
            r == self.value(),
            r >= 1,
            self.wf(),
    {
        proof {
            use_type_invariant(self);
        }
        self.raw
    }
}

pub broadcast group group_nonzero {
    NonZeroU16::lemma_of_value,
    NonZeroU16::lemma_value_of,
}

} // verus!
