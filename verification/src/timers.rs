//! Timers of the host: what stands behind `setTimeout` and `clearTimeout`.
//!
//! The timers are kept in the order in which they were set, not in the
//! order in which they expire. The time is handed in by whoever reads the
//! clock.
use vstd::prelude::*;
use crate::bigint::JsBigInt;
use crate::engine::RawValue;
use crate::owned_value_ref::OwnedValueRef;
use crate::value::{JsValue, ValueModel};

verus! {

/// A timer: the time at which it expires, and the function to call then.
#[derive(PartialEq, Eq, Debug)]
pub struct JsTimer {
    /// The time of expiry in milliseconds since the Unix epoch.
    expire: i64,
    /// The function to call. It is taken out when the timer fires.
    value: Option<OwnedValueRef>,
}

/// The mathematical model of a timer.
pub struct TimerModel {
    pub expire: int,
    pub value: Option<RawValue>,
}

impl View for JsTimer {
    type V = TimerModel;

    closed spec fn view(&self) -> TimerModel {
        TimerModel {
            expire: self.expire as int,
            value: match self.value {
                Some(f) => Some(f@),
                None => None,
            },
        }
    }
}

impl JsTimer {
    /// A timer that expires `timeout_ms` milliseconds after `now`.
    pub fn new(func: OwnedValueRef, timeout_ms: i32, now: i64) -> (timer: JsTimer)
        requires
            i64::MIN <= now + timeout_ms <= i64::MAX,
        ensures
            timer@ == (TimerModel { expire: now + timeout_ms, value: Some(func@) }),
    {
        JsTimer { expire: now + timeout_ms as i64, value: Some(func) }
    }

    /// The time at which the timer expires.
    pub fn expire(&self) -> (at: i64)
        ensures
            at == self@.expire,
    {
        self.expire
    }

    /// Takes the function out of the timer.
    pub fn take(self) -> (value: Option<OwnedValueRef>)
        ensures
            match value {
                Some(f) => self@.value == Some(f@),
                None => self@.value.is_none(),
            },
    {
        self.value
    }
}

/// The models of a sequence of timers.
pub open spec fn timers_view(nodes: Seq<JsTimer>) -> Seq<TimerModel> {
    Seq::new(nodes.len(), |i: int| nodes[i]@)
}

/// The position of the first timer at or after `start` that expires at
/// `id`, or the number of timers where there is none.
pub open spec fn position_of(timers: Seq<TimerModel>, id: int, start: int) -> int
    decreases timers.len() - start,
{
    if start < 0 || start >= timers.len() {
        timers.len() as int
    } else if timers[start].expire == id {
        start
    } else {
        position_of(timers, id, start + 1)
    }
}

/// The position found is at or after `start`, and at most the number of
/// timers.
pub proof fn lemma_position_of_bounds(timers: Seq<TimerModel>, id: int, start: int)
    requires
        0 <= start <= timers.len(),
    ensures
        start <= position_of(timers, id, start) <= timers.len(),
    decreases timers.len() - start,
{
    if start < timers.len() && timers[start].expire != id {
        lemma_position_of_bounds(timers, id, start + 1);
    }
}

/// The timers that are left once the first timer that expires at `id` is
/// removed.
pub open spec fn cleared(timers: Seq<TimerModel>, id: int) -> Seq<TimerModel> {
    let at = position_of(timers, id, 0);
    if 0 <= at < timers.len() {
        timers.remove(at)
    } else {
        timers
    }
}

/// Whether a timer has expired at the time `now`.
pub open spec fn expired(timer: TimerModel, now: int) -> bool {
    timer.expire < now
}

/// The timers that have not expired at the time `now`, in their order.
pub open spec fn waiting(timers: Seq<TimerModel>, now: int) -> Seq<TimerModel>
    decreases timers.len(),
{
    if timers.len() == 0 {
        Seq::empty()
    } else if expired(timers.last(), now) {
        waiting(timers.drop_last(), now)
    } else {
        waiting(timers.drop_last(), now).push(timers.last())
    }
}

/// The functions of the timers that have expired at the time `now`, in the
/// order of the timers.
pub open spec fn due(timers: Seq<TimerModel>, now: int) -> Seq<RawValue>
    decreases timers.len(),
{
    if timers.len() == 0 {
        Seq::empty()
    } else if expired(timers.last(), now) && timers.last().value.is_some() {
        due(timers.drop_last(), now).push(timers.last().value.unwrap())
    } else {
        due(timers.drop_last(), now)
    }
}

/// The functions of all timers, in the order of the timers.
pub open spec fn all_functions(timers: Seq<TimerModel>) -> Seq<RawValue>
    decreases timers.len(),
{
    if timers.len() == 0 {
        Seq::empty()
    } else if timers.last().value.is_some() {
        all_functions(timers.drop_last()).push(timers.last().value.unwrap())
    } else {
        all_functions(timers.drop_last())
    }
}

/// The words of a sequence of guards.
pub open spec fn guards_view(guards: Seq<OwnedValueRef>) -> Seq<RawValue> {
    Seq::new(guards.len(), |i: int| guards[i]@)
}

/// The timers of one context.
pub struct Timers {
    nodes: Vec<JsTimer>,
}

impl View for Timers {
    type V = Seq<TimerModel>;

    closed spec fn view(&self) -> Seq<TimerModel> {
        timers_view(self.nodes@)
    }
}

impl Timers {
    /// No timers.
    pub fn new() -> (timers: Timers)
        ensures
            timers@ == Seq::<TimerModel>::empty(),
    {
        let timers = Timers { nodes: Vec::new() };
        assert(timers@ =~= Seq::<TimerModel>::empty());
        timers
    }

    /// Whether any timer is left.
    pub fn has_pending(&self) -> (pending: bool)
        ensures
            pending == (self@.len() > 0),
    {
        self.nodes.len() > 0
    }

    /// Sets a timer that expires `timeout_ms` milliseconds after `now`. It
    /// comes last in the list. The time of expiry is returned: it is the
    /// timer's id.
    pub fn set_timeout(&mut self, func: OwnedValueRef, timeout_ms: i32, now: i64) -> (id: i64)
        requires
            i64::MIN <= now + timeout_ms <= i64::MAX,
        ensures
            id == now + timeout_ms,
            final(self)@ == old(self)@.push(
                TimerModel { expire: now + timeout_ms, value: Some(func@) },
            ),
    {
        let timer = JsTimer::new(func, timeout_ms, now);
        let id = timer.expire;
        self.nodes.push(timer);
        assert(self@ =~= old(self)@.push(
            TimerModel { expire: now + timeout_ms, value: Some(func@) },
        ));
        id
    }

    /// Removes the first timer that expires at `id`, and hands it out.
    pub fn clear_timeout(&mut self, id: i64) -> (removed: Option<JsTimer>)
        ensures
            final(self)@ == cleared(old(self)@, id as int),
            match removed {
                Some(timer) => {
                    &&& position_of(old(self)@, id as int, 0) < old(self)@.len()
                    &&& timer@ == old(self)@[position_of(old(self)@, id as int, 0)]
                },
                None => position_of(old(self)@, id as int, 0) == old(self)@.len(),
            },
    {
        let mut i: usize = 0;
        while i < self.nodes.len()
            invariant
                i <= self.nodes@.len(),
                self.nodes == old(self).nodes,
                position_of(self@, id as int, 0) == position_of(self@, id as int, i as int),
            decreases self.nodes@.len() - i,
        {
            if self.nodes[i].expire == id {
                let timer = self.nodes.remove(i);
                assert(self@ =~= old(self)@.remove(i as int));
                return Some(timer);
            }
            i += 1;
        }
        None
    }

    /// Fires the timers that have expired at the time `now`: takes them out
    /// of the list and hands out their functions, in the order of the list.
    /// The timers that have not expired stay, in their order.
    pub fn fire_expired(&mut self, now: i64) -> (fired: Vec<OwnedValueRef>)
        ensures
            final(self)@ == waiting(old(self)@, now as int),
            guards_view(fired@) == due(old(self)@, now as int),
    {
        let mut fired: Vec<OwnedValueRef> = Vec::new();
        let mut kept: Vec<JsTimer> = Vec::new();
        let ghost all = self@;
        let total: usize = self.nodes.len();
        let mut nodes: Vec<JsTimer> = Vec::new();
        std::mem::swap(&mut nodes, &mut self.nodes);
        let mut done: usize = 0;
        assert(all.take(0) =~= Seq::empty());
        assert(timers_view(kept@) =~= Seq::empty());
        assert(guards_view(fired@) =~= Seq::empty());
        assert(all.subrange(0, total as int) =~= all);
        while nodes.len() > 0
            invariant
                done + nodes@.len() == total,
                total == all.len(),
                timers_view(nodes@) == all.subrange(done as int, total as int),
                timers_view(kept@) == waiting(all.take(done as int), now as int),
                guards_view(fired@) == due(all.take(done as int), now as int),
            decreases nodes@.len(),
        {
            let ghost before_kept = timers_view(kept@);
            let ghost before_fired = guards_view(fired@);
            let ghost rest = timers_view(nodes@);
            let ghost old_nodes = nodes@;
            let timer = nodes.remove(0);
            proof {
                assert(nodes@ == old_nodes.remove(0));
                assert forall|k: int| 0 <= k < nodes@.len() implies timers_view(nodes@)[k]
                    == all.subrange(done + 1, total as int)[k] by {
                    assert(nodes@[k] == old_nodes[k + 1]);
                    assert(rest[k + 1] == old_nodes[k + 1]@);
                    assert(rest[k + 1] == all[done + k + 1]);
                }
                assert(timer@ == rest[0]);
                assert(timer@ == all[done as int]);
                assert(all.take(done + 1).drop_last() =~= all.take(done as int));
                assert(all.take(done + 1).last() == all[done as int]);
                assert(timers_view(nodes@) =~= all.subrange(done + 1, total as int));
            }
            if timer.expire < now {
                match timer.value {
                    Some(func) => {
                        fired.push(func);
                        assert(guards_view(fired@) =~= before_fired.push(func@));
                    },
                    None => {},
                }
            } else {
                kept.push(timer);
                assert(timers_view(kept@) =~= before_kept.push(timer@));
            }
            done += 1;
        }
        self.nodes = kept;
        assert(all.take(total as int) =~= all);
        fired
    }

    /// Fires the timers that have expired at the time `now`, and tells
    /// whether any timer is left.
    pub fn await_timers_at(&mut self, now: i64) -> (r: (Vec<OwnedValueRef>, bool))
        ensures
            final(self)@ == waiting(old(self)@, now as int),
            guards_view(r.0@) == due(old(self)@, now as int),
            r.1 == (final(self)@.len() > 0),
    {
        let fired = self.fire_expired(now);
        let remaining = self.has_pending();
        (fired, remaining)
    }

    /// Stops all timers. Their functions are handed out, so that they can
    /// be released.
    pub fn cancel_all_timers(&mut self) -> (released: Vec<OwnedValueRef>)
        ensures
            final(self)@ == Seq::<TimerModel>::empty(),
            guards_view(released@) == all_functions(old(self)@),
    {
        let mut released: Vec<OwnedValueRef> = Vec::new();
        let ghost all = self@;
        let total: usize = self.nodes.len();
        let mut nodes: Vec<JsTimer> = Vec::new();
        std::mem::swap(&mut nodes, &mut self.nodes);
        let mut done: usize = 0;
        assert(all.take(0) =~= Seq::empty());
        assert(guards_view(released@) =~= Seq::empty());
        assert(all.subrange(0, total as int) =~= all);
        while nodes.len() > 0
            invariant
                done + nodes@.len() == total,
                total == all.len(),
                self.nodes@.len() == 0,
                timers_view(nodes@) == all.subrange(done as int, total as int),
                guards_view(released@) == all_functions(all.take(done as int)),
            decreases nodes@.len(),
        {
            let ghost before = guards_view(released@);
            let ghost rest = timers_view(nodes@);
            let ghost old_nodes = nodes@;
            let timer = nodes.remove(0);
            proof {
                assert(nodes@ == old_nodes.remove(0));
                assert forall|k: int| 0 <= k < nodes@.len() implies timers_view(nodes@)[k]
                    == all.subrange(done + 1, total as int)[k] by {
                    assert(nodes@[k] == old_nodes[k + 1]);
                    assert(rest[k + 1] == old_nodes[k + 1]@);
                    assert(rest[k + 1] == all[done + k + 1]);
                }
                assert(timer@ == rest[0]);
                assert(timer@ == all[done as int]);
                assert(all.take(done + 1).drop_last() =~= all.take(done as int));
                assert(all.take(done + 1).last() == all[done as int]);
                assert(timers_view(nodes@) =~= all.subrange(done + 1, total as int));
            }
            match timer.value {
                Some(func) => {
                    released.push(func);
                    assert(guards_view(released@) =~= before.push(func@));
                },
                None => {},
            }
            done += 1;
        }
        assert(all.take(total as int) =~= all);
        assert(self@ =~= Seq::<TimerModel>::empty());
        released
    }
}

/// The position of a timer that expires at `id` and has no timer of that
/// expiry before it is where the timer stands.
pub proof fn lemma_position_of_first(timers: Seq<TimerModel>, id: int, start: int, at: int)
    requires
        0 <= start <= at < timers.len(),
        timers[at].expire == id,
        forall|k: int| start <= k < at ==> (#[trigger] timers[k]).expire != id,
    ensures
        position_of(timers, id, start) == at,
    decreases at - start,
{
    if start < at {
        assert(timers[start].expire != id);
        lemma_position_of_first(timers, id, start + 1, at);
    }
}

/// Clearing a timer right after it was set leaves the timers as they were
/// before, where no earlier timer expires at the same time. Where one
/// does, it is that earlier timer that is cleared.
pub proof fn lemma_clear_undoes_set(timers: Seq<TimerModel>, timer: TimerModel)
    requires
        forall|k: int| 0 <= k < timers.len() ==> (#[trigger] timers[k]).expire != timer.expire,
    ensures
        cleared(timers.push(timer), timer.expire) == timers,
{
    let set = timers.push(timer);
    assert forall|k: int| 0 <= k < timers.len() implies (#[trigger] set[k]).expire
        != timer.expire by {
        assert(set[k] == timers[k]);
    }
    lemma_position_of_first(set, timer.expire, 0, timers.len() as int);
    assert(set.remove(timers.len() as int) =~= timers);
}

/// The host value that stands for a timer id: an `Int` where the id fits in
/// 32 bits, a `BigInt` where it does not.
pub fn timer_id_value(id: i64) -> (v: JsValue)
    ensures
        v@ == (if i32::MIN <= id <= i32::MAX {
            ValueModel::Int(id as int)
        } else {
            ValueModel::BigInt(id as int)
        }),
{
    if id >= -2147483648 && id <= 2147483647 {
        JsValue::Int(id as i32)
    } else {
        JsValue::BigInt(JsBigInt::from_i64(id))
    }
}

/// The timer id that a host value stands for, if it is a number that can be
/// one.
pub open spec fn timer_id_of(v: ValueModel) -> Option<int> {
    match v {
        ValueModel::Int(n) => Some(n),
        ValueModel::BigInt(n) => if i64::MIN <= n <= i64::MAX {
            Some(n)
        } else {
            None
        },
        _ => None,
    }
}

/// The timer id that a host value stands for, if it is a number that can be
/// one.
pub fn read_timer_id(v: &JsValue) -> (id: Option<i64>)
    ensures
        match id {
            Some(n) => timer_id_of(v@) == Some(n as int),
            None => timer_id_of(v@).is_none(),
        },
{
    match v {
        JsValue::Int(n) => Some(*n as i64),
        JsValue::BigInt(b) => b.as_i64(),
        _ => None,
    }
}

/// What `clearTimeout` does with its arguments. With one argument that is a
/// number, the first timer with that id is removed and handed out, and the
/// script gets `null`. Anything else is refused with a message.
pub fn clear_timeout_callback(timers: &mut Timers, args: Vec<JsValue>) -> (r: Result<
    Option<JsTimer>,
    String,
>)
    ensures
        match r {
            Ok(removed) => {
                &&& args@.len() == 1
                &&& timer_id_of(args@[0]@).is_some()
                &&& final(timers)@ == cleared(old(timers)@, timer_id_of(args@[0]@).unwrap())
                &&& removed.is_some() == (final(timers)@.len() < old(timers)@.len())
            },
            Err(msg) => {
                &&& final(timers)@ == old(timers)@
                &&& if args@.len() != 1 {
                    msg@ == "Expect 1 arguments!"@
                } else {
                    timer_id_of(args@[0]@).is_none() && msg@ == "First argument must be a number!"@
                }
            },
        },
{
    if args.len() != 1 {
        return Err(String::from_str("Expect 1 arguments!"));
    }
    match read_timer_id(&args[0]) {
        Some(id) => {
            let removed = timers.clear_timeout(id);
            proof {
                lemma_position_of_bounds(old(timers)@, id as int, 0);
            }
            assert(removed.is_some() ==> timers@.len() == old(timers)@.len() - 1);
            assert(removed.is_none() ==> timers@ == old(timers)@);
            Ok(removed)
        },
        None => Err(String::from_str("First argument must be a number!")),
    }
}

/// Whether the arguments are what `setTimeout` asks for: a function, then
/// a timeout in milliseconds that, added to the time now, is still a time.
pub open spec fn timeout_arguments(args: Seq<JsValue>, now: int) -> bool {
    &&& args.len() == 2
    &&& args[0] is OpaqueFunction
    &&& args[1] is Int
    &&& i64::MIN <= now + args[1]->Int_0 <= i64::MAX
}

/// What `setTimeout` does with its arguments at the time `now`, which is
/// the time that the clock shows when the script calls. With a function
/// and a timeout in milliseconds, a timer is set that expires that long
/// after `now`, and the script gets the timer's id. Anything else is
/// refused with a message.
pub fn set_timeout_at(timers: &mut Timers, args: Vec<JsValue>, now: i64) -> (r: Result<
    JsValue,
    String,
>)
    ensures
        match r {
            Ok(id) => {
                &&& timeout_arguments(args@, now as int)
                &&& final(timers)@ == old(timers)@.push(
                    TimerModel {
                        expire: now + args@[1]->Int_0,
                        value: Some(args@[0]->OpaqueFunction_0@),
                    },
                )
                &&& timer_id_of(id@) == Some(now + args@[1]->Int_0)
            },
            Err(msg) => {
                &&& final(timers)@ == old(timers)@
                &&& !timeout_arguments(args@, now as int)
                &&& msg@ == (if args@.len() != 2 {
                    "Expect 2 arguments!"@
                } else {
                    "Arguments invalid"@
                })
            },
        },
{
    if args.len() != 2 {
        return Err(String::from_str("Expect 2 arguments!"));
    }
    let mut args = args;
    let second = args.remove(1);
    let first = args.remove(0);
    match (second, first) {
        (JsValue::Int(timeout_ms), JsValue::OpaqueFunction(func)) => {
            match now.checked_add(timeout_ms as i64) {
                Some(_) => {
                    let id = timers.set_timeout(func, timeout_ms, now);
                    Ok(timer_id_value(id))
                },
                None => Err(String::from_str("Arguments invalid")),
            }
        },
        _ => Err(String::from_str("Arguments invalid")),
    }
}

} // verus!
