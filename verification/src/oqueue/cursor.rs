use vstd::prelude::*;
use vstd::std_specs::ops::AddSpecImpl;
use vstd::std_specs::ops::SubSpecImpl;
use vstd::std_specs::ops::AddSpec;
use vstd::std_specs::ops::SubSpec;
use vstd::std_specs::cmp::PartialOrdSpecImpl;
use vstd::std_specs::cmp::PartialOrdSpec;
use core::cmp::Ordering;
use core::ops::Add;
use core::ops::Sub;

verus! {

/// A reference to a specific row in a queue. This refers to an element over the full history of an
/// oqueue (the row that the `i`-th sent value occupies), not to a slot of the ring buffer.
/// Cursors compare as their indexes do.
#[derive(Clone, Copy, Debug, PartialEq, Eq, Structural, Ord)]
pub struct Cursor(pub usize);

impl PartialOrd for Cursor {
    fn partial_cmp(&self, other: &Cursor) -> (r: Option<Ordering>) {
        if self.0 < other.0 {
            Some(Ordering::Less)
        } else if self.0 > other.0 {
            Some(Ordering::Greater)
        } else {
            Some(Ordering::Equal)
        }
    }
}

impl PartialOrdSpecImpl for Cursor {
    open spec fn obeys_partial_cmp_spec() -> bool {
        true
    }

    open spec fn partial_cmp_spec(&self, other: &Cursor) -> Option<Ordering> {
        if self.0 < other.0 {
            Some(Ordering::Less)
        } else if self.0 > other.0 {
            Some(Ordering::Greater)
        } else {
            Some(Ordering::Equal)
        }
    }
}

impl Cursor {
    /// Get the global index of the cursor: the index of the row it points to in a hypothetical
    /// infinite buffer holding every row ever added to the oqueue.
    pub fn index(&self) -> (r: usize)
        ensures
            r == self.0,
    {
        self.0
    }
}

impl Add<usize> for Cursor {
    type Output = Cursor;

    /// Moves the cursor forward by `rhs` rows. Moving past `usize::MAX` is refused by `add_req`.
    fn add(self, rhs: usize) -> (r: Cursor) {
        Cursor(self.0 + rhs)
    }
}

impl AddSpecImpl<usize> for Cursor {
    open spec fn obeys_add_spec() -> bool {
        true
    }

    open spec fn add_req(self, rhs: usize) -> bool {
        self.0 + rhs <= usize::MAX
    }

    open spec fn add_spec(self, rhs: usize) -> Cursor {
        Cursor((self.0 + rhs) as usize)
    }
}

impl Sub<usize> for Cursor {
    type Output = Cursor;

    /// Moves the cursor back by `rhs` rows, stopping at row 0.
    fn sub(self, rhs: usize) -> (r: Cursor) {
        if rhs <= self.0 {
            Cursor(self.0 - rhs)
        } else {
            Cursor(0)
        }
    }
}

impl SubSpecImpl<usize> for Cursor {
    open spec fn obeys_sub_spec() -> bool {
        true
    }

    open spec fn sub_req(self, rhs: usize) -> bool {
        true
    }

    open spec fn sub_spec(self, rhs: usize) -> Cursor {
        if rhs <= self.0 {
            Cursor((self.0 - rhs) as usize)
        } else {
            Cursor(0)
        }
    }
}

/// Cursors compare as their indexes do: each of `<`, `<=`, `>`, `>=` holds of two cursors exactly
/// when it holds of their indexes. Moving a cursor forward by `k` (without passing `usize::MAX`)
/// adds `k` to its index; moving it back by `k` subtracts `k`, stopping at row 0.
pub proof fn law_cursor_follows_index(c1: Cursor, c2: Cursor, k: usize)
    ensures
        (PartialOrdSpec::partial_cmp_spec(&c1, &c2) == Some(Ordering::Less)) <==> c1.0 < c2.0,
        (PartialOrdSpec::partial_cmp_spec(&c1, &c2) == Some(Ordering::Equal)) <==> c1.0 == c2.0,
        (PartialOrdSpec::partial_cmp_spec(&c1, &c2) == Some(Ordering::Greater)) <==> c1.0 > c2.0,
        c1.0 + k <= usize::MAX ==> AddSpec::add_req(c1, k) && AddSpec::add_spec(c1, k).0 == c1.0 + k,
        SubSpec::sub_spec(c1, k).0 == if k <= c1.0 { c1.0 - k } else { 0 },
{
}

} // verus!
