//! A bounded counter that wraps to zero on overflow and recovers near its
//! bound on underflow.

use vstd::prelude::*;

verus! {

/// Value after adding `by` to `value` under `bound`: zero when the sum
/// exceeds the bound.
pub open spec fn increment_value(value: int, by: int, bound: int) -> int {
    if value + by > bound {
        0
    } else {
        value + by
    }
}

/// Value after taking `by` from `value` under `bound`: the bound when the
/// deficit is one, one less than the bound when it is larger.
pub open spec fn decrement_value(value: int, by: int, bound: int) -> int {
    if by <= value {
        value - by
    } else if by - value > 1 {
        bound - 1
    } else {
        bound
    }
}

/// A counter within `[0, bound]`.
#[derive(Clone, Copy, Debug, PartialEq, Eq, Structural)]
pub struct ResourceMeter {
    pub value: u8,
    pub bound: u8,
}

impl ResourceMeter {
    pub open spec fn wf(self) -> bool {
        0 < self.bound && self.value <= self.bound
    }

    /// A full meter.
    pub fn new(bound: u8) -> (m: Self)
        requires
            bound > 0,
        ensures
            m.wf(),
            m.value == bound,
            m.bound == bound,
    {
        ResourceMeter { value: bound, bound }
    }

    /// Adds `by`; wraps to zero, and says so, when the sum exceeds the bound.
    pub fn increment(&mut self, by: u8) -> (wrapped: bool)
        requires
            old(self).wf(),
        ensures
            final(self).wf(),
            final(self).bound == old(self).bound,
            wrapped == (old(self).value + by > old(self).bound),
            final(self).value == increment_value(
                old(self).value as int,
                by as int,
                old(self).bound as int,
            ),
    {
        let sum: u16 = self.value as u16 + by as u16;
        if sum > self.bound as u16 {
            self.value = 0;
            true
        } else {
            self.value = sum as u8;
            false
        }
    }

    /// Takes `by`; on underflow sets the recovery value and says so.
    pub fn decrement(&mut self, by: u8) -> (underflow: bool)
        requires
            old(self).wf(),
        ensures
            final(self).wf(),
            final(self).bound == old(self).bound,
            underflow == (by > old(self).value),
            final(self).value == decrement_value(
                old(self).value as int,
                by as int,
                old(self).bound as int,
            ),
    {
        if by <= self.value {
            self.value = self.value - by;
            false
        } else {
            if by - self.value > 1 {
                self.value = self.bound - 1;
            } else {
                self.value = self.bound;
            }
            true
        }
    }

    /// Sets the meter to its bound.
    pub fn refill(&mut self)
        requires
            old(self).wf(),
        ensures
            final(self).wf(),
            final(self).bound == old(self).bound,
            final(self).value == old(self).bound,
    {
        self.value = self.bound;
    }
}

/// Incrementing a meter that stands at its bound wraps it to zero, and the
/// wrap is signalled once, by that call.
pub proof fn lemma_increment_at_bound_wraps(value: int, by: int, bound: int)
    requires
        0 < bound,
        value == bound,
        by >= 1,
    ensures
        increment_value(value, by, bound) == 0,
        value + by > bound,
{
}

/// Decrementing below zero lands on the recovery value, which lies inside
/// the meter's range, and is signalled once.
pub proof fn lemma_decrement_below_zero_recovers(value: int, by: int, bound: int)
    requires
        0 < bound,
        0 <= value <= bound,
        by > value,
    ensures
        decrement_value(value, by, bound) == if by - value > 1 {
            bound - 1
        } else {
            bound
        },
        0 <= decrement_value(value, by, bound) <= bound,
{
}

} // verus!
