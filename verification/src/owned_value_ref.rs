//! Custody of reference-counted engine values.
//!
//! A guard stands for one unit of an engine value's reference count. Taking a
//! unit and giving it back go through the guard, never by hand.
use vstd::prelude::*;
use crate::engine::RawValue;
use crate::tag::{TAG_BOOL, TAG_EXCEPTION, TAG_NULL, TAG_OBJECT, TAG_STRING, TAG_UNDEFINED};

verus! {

/// The reference count that the engine keeps at the head of a heap object.
#[derive(PartialEq, Eq, Clone, Copy, Debug, Structural)]
pub struct RefCountHeader {
    pub ref_count: i32,
}

/// What can be done with guards of one engine value.
#[derive(PartialEq, Eq, Clone, Copy, Debug, Structural)]
pub enum GuardOp {
    /// Take custody of a unit that the caller already owns.
    Wrap,
    /// Take a new unit, then custody of it.
    DupWrap,
    /// Copy a guard, which takes a new unit.
    Clone,
    /// Give the value out and keep its unit alive: the guard is gone, the
    /// unit now belongs to whoever received the value.
    Extract,
    /// Drop a guard, which gives its unit back.
    Drop,
}

/// By how much an operation changes the reference count of a counted value.
pub open spec fn count_change(op: GuardOp) -> int {
    match op {
        GuardOp::Wrap => 0,
        GuardOp::DupWrap => 1,
        GuardOp::Clone => 1,
        GuardOp::Extract => 0,
        GuardOp::Drop => -1,
    }
}

/// By how much an operation changes the number of live guards.
pub open spec fn live_change(op: GuardOp) -> int {
    match op {
        GuardOp::Wrap => 1,
        GuardOp::DupWrap => 1,
        GuardOp::Clone => 1,
        GuardOp::Extract => -1,
        GuardOp::Drop => -1,
    }
}

/// The reference count after an operation on a guard of `value`: scalars are
/// never counted.
pub open spec fn count_after(value: RawValue, op: GuardOp, count: int) -> int {
    if value.ref_counted() {
        count + count_change(op)
    } else {
        count
    }
}

/// The net change of the reference count over a sequence of operations.
pub open spec fn net_count_change(ops: Seq<GuardOp>) -> int
    decreases ops.len(),
{
    if ops.len() == 0 {
        0
    } else {
        net_count_change(ops.drop_last()) + count_change(ops.last())
    }
}

/// The number of live guards after a sequence of operations.
pub open spec fn live_guards(ops: Seq<GuardOp>) -> int
    decreases ops.len(),
{
    if ops.len() == 0 {
        0
    } else {
        live_guards(ops.drop_last()) + live_change(ops.last())
    }
}

/// How often a given operation occurs in a sequence.
pub open spec fn occurrences(ops: Seq<GuardOp>, op: GuardOp) -> int
    decreases ops.len(),
{
    if ops.len() == 0 {
        0
    } else {
        occurrences(ops.drop_last(), op) + if ops.last() == op {
            1int
        } else {
            0int
        }
    }
}

/// Subtracts one from the count of a counted value and says whether the
/// engine must now free it: when the count has come down to zero.
pub fn free_value(value: RawValue, header: &mut RefCountHeader) -> (free_now: bool)
    requires
        value.ref_counted() ==> old(header).ref_count > i32::MIN,
    ensures
        final(header).ref_count == count_after(value, GuardOp::Drop, old(header).ref_count as int),
        free_now == (value.ref_counted() && final(header).ref_count <= 0),
{
    if value.is_ref_counted() {
        header.ref_count = header.ref_count - 1;
        header.ref_count <= 0
    } else {
        false
    }
}

/// A guard that owns one unit of an engine value's reference count.
#[derive(PartialEq, Eq, Debug)]
pub struct OwnedValueRef {
    value: RawValue,
}

impl View for OwnedValueRef {
    type V = RawValue;

    closed spec fn view(&self) -> RawValue {
        self.value
    }
}

impl OwnedValueRef {
    /// Takes custody of a value. The reference count is not changed: the
    /// caller hands over a unit it already owns, or the value is a scalar.
    pub fn wrap(value: RawValue) -> (guard: Self)
        ensures
            guard@ == value,
    {
        OwnedValueRef { value }
    }

    /// Takes a new unit of the value's reference count, then custody of it.
    pub fn owned(value: RawValue, header: &mut RefCountHeader) -> (guard: Self)
        requires
            value.ref_counted() ==> old(header).ref_count < i32::MAX,
        ensures
            guard@ == value,
            final(header).ref_count == count_after(
                value,
                GuardOp::DupWrap,
                old(header).ref_count as int,
            ),
    {
        if value.is_ref_counted() {
            header.ref_count = header.ref_count + 1;
        }
        OwnedValueRef { value }
    }

    /// A second guard of the same value, with a unit of its own.
    pub fn duplicate(&self, header: &mut RefCountHeader) -> (guard: Self)
        requires
            self@.ref_counted() ==> old(header).ref_count < i32::MAX,
        ensures
            guard@ == self@,
            final(header).ref_count == count_after(
                self@,
                GuardOp::Clone,
                old(header).ref_count as int,
            ),
    {
        if self.value.is_ref_counted() {
            header.ref_count = header.ref_count + 1;
        }
        OwnedValueRef { value: self.value }
    }

    /// The value without its guard. The reference count is not changed: the
    /// unit goes with the value, to whoever takes ownership of it.
    pub fn into_inner(self) -> (value: RawValue)
        ensures
            value == self@,
    {
        self.value
    }

    /// Ends the guard and gives its unit back. Says whether the engine must
    /// now free the value.
    pub fn release(self, header: &mut RefCountHeader) -> (free_now: bool)
        requires
            self@.ref_counted() ==> old(header).ref_count > i32::MIN,
        ensures
            final(header).ref_count == count_after(
                self@,
                GuardOp::Drop,
                old(header).ref_count as int,
            ),
            free_now == (self@.ref_counted() && final(header).ref_count <= 0),
    {
        free_value(self.value, header)
    }

    /// The word of the guarded value; the guard keeps its unit.
    pub fn as_inner(&self) -> (value: RawValue)
        ensures
            value == self@,
    {
        self.value
    }

    /// The reference count of the guarded value; zero for a scalar.
    pub fn ref_count(&self, header: &RefCountHeader) -> (count: i32)
        ensures
            count == (if self@.ref_counted() {
                header.ref_count
            } else {
                0i32
            }),
    {
        if self.value.is_ref_counted() {
            header.ref_count
        } else {
            0
        }
    }

    /// Returns true if this is a null value.
    pub fn is_null(&self) -> (b: bool)
        ensures
            b == (self@.tag == TAG_NULL),
    {
        self.value.tag == TAG_NULL
    }

    /// Returns true if this is the undefined value.
    pub fn is_undefined(&self) -> (b: bool)
        ensures
            b == (self@.tag == TAG_UNDEFINED),
    {
        self.value.tag == TAG_UNDEFINED
    }

    /// Returns true if this is a boolean value.
    pub fn is_bool(&self) -> (b: bool)
        ensures
            b == (self@.tag == TAG_BOOL),
    {
        self.value.tag == TAG_BOOL
    }

    /// Returns true if this is the marker of an exception.
    pub fn is_exception(&self) -> (b: bool)
        ensures
            b == (self@.tag == TAG_EXCEPTION),
    {
        self.value.tag == TAG_EXCEPTION
    }

    /// Returns true if this is an object.
    pub fn is_object(&self) -> (b: bool)
        ensures
            b == (self@.tag == TAG_OBJECT),
    {
        self.value.tag == TAG_OBJECT
    }

    /// Returns true if this is a string value.
    pub fn is_string(&self) -> (b: bool)
        ensures
            b == (self@.tag == TAG_STRING),
    {
        self.value.tag == TAG_STRING
    }
}

/// Over any sequence of guard operations, the reference count changes by the
/// number of guards that are left alive, plus the number of values given out
/// with their unit, minus the number of units that were brought in by `Wrap`.
pub proof fn lemma_guard_ledger(ops: Seq<GuardOp>)
    ensures
        net_count_change(ops) == live_guards(ops) + occurrences(ops, GuardOp::Extract)
            - occurrences(ops, GuardOp::Wrap),
    decreases ops.len(),
{
    if ops.len() > 0 {
        lemma_guard_ledger(ops.drop_last());
    }
}

/// Guards that are made by taking a unit and are all dropped again leave the
/// reference count as it was.
pub proof fn lemma_dropped_guards_are_neutral(ops: Seq<GuardOp>)
    requires
        occurrences(ops, GuardOp::Wrap) == 0,
        occurrences(ops, GuardOp::Extract) == 0,
        live_guards(ops) == 0,
    ensures
        net_count_change(ops) == 0,
{
    lemma_guard_ledger(ops);
}

/// Whether the operations only make guards that take a unit of their own
/// and drop guards that were made: no guard is wrapped or extracted, and at
/// no point were more guards dropped than made.
pub open spec fn makes_and_drops(ops: Seq<GuardOp>) -> bool
    decreases ops.len(),
{
    ops.len() == 0 || {
        &&& makes_and_drops(ops.drop_last())
        &&& ops.last() == GuardOp::DupWrap || ops.last() == GuardOp::Clone || ops.last()
            == GuardOp::Drop
        &&& live_guards(ops) >= 0
    }
}

/// Whether one of the drops among the operations uses the count up, so that
/// the engine is told to free the value. `count` is the count before the
/// operations.
pub open spec fn freed_by(count: int, ops: Seq<GuardOp>) -> bool
    decreases ops.len(),
{
    ops.len() > 0 && (freed_by(count, ops.drop_last()) || (ops.last() == GuardOp::Drop && count
        + net_count_change(ops) <= 0))
}

/// While guards are made and dropped, the count stands above where it
/// began by the number of live guards; and a value whose count was at least
/// one to begin with is never freed.
pub proof fn lemma_count_follows_live_guards(count: int, ops: Seq<GuardOp>)
    requires
        makes_and_drops(ops),
    ensures
        net_count_change(ops) == live_guards(ops),
        count >= 1 ==> !freed_by(count, ops),
    decreases ops.len(),
{
    if ops.len() > 0 {
        lemma_count_follows_live_guards(count, ops.drop_last());
    }
}

/// Any number of guards of a counted value, made by taking a unit or by
/// copying a guard and all dropped again in any order, leave the reference
/// count as it was before; and where the count was at least one before, as
/// it is for every value that lives, the value is not freed on the way.
pub proof fn lemma_guards_leave_value_as_it_was(value: RawValue, count: int, ops: Seq<GuardOp>)
    requires
        value.ref_counted(),
        makes_and_drops(ops),
        live_guards(ops) == 0,
    ensures
        count + net_count_change(ops) == count,
        count >= 1 ==> !freed_by(count, ops),
{
    lemma_count_follows_live_guards(count, ops);
}

/// Makes `n` guards of one value and drops them all again. The reference
/// count ends where it began. Tells whether the engine was told to free
/// the value on the way: that is so only for a counted value that had no
/// unit left to begin with.
pub fn make_and_drop(value: RawValue, header: &mut RefCountHeader, n: u32) -> (freed: bool)
    requires
        old(header).ref_count + n <= i32::MAX,
    ensures
        final(header).ref_count == old(header).ref_count,
        freed == (value.ref_counted() && n > 0 && old(header).ref_count <= 0),
{
    let mut guards: Vec<OwnedValueRef> = Vec::new();
    let mut i: u32 = 0;
    while i < n
        invariant
            i <= n,
            guards@.len() == i,
            old(header).ref_count + n <= i32::MAX,
            header.ref_count == (if value.ref_counted() {
                old(header).ref_count + i
            } else {
                old(header).ref_count as int
            }),
            forall|k: int| 0 <= k < guards@.len() ==> (#[trigger] guards@[k])@ == value,
        decreases n - i,
    {
        let guard = OwnedValueRef::owned(value, header);
        guards.push(guard);
        i += 1;
    }
    let mut freed = false;
    while guards.len() > 0
        invariant
            guards@.len() <= n,
            old(header).ref_count + n <= i32::MAX,
            header.ref_count == (if value.ref_counted() {
                old(header).ref_count + guards@.len()
            } else {
                old(header).ref_count as int
            }),
            forall|k: int| 0 <= k < guards@.len() ==> (#[trigger] guards@[k])@ == value,
            freed == (value.ref_counted() && guards@.len() < n && old(header).ref_count
                + guards@.len() <= 0),
        decreases guards@.len(),
    {
        let guard = guards.pop().unwrap();
        let free_now = guard.release(header);
        freed = freed || free_now;
    }
    freed
}

} // verus!
