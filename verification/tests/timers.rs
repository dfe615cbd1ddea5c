use quick_js::engine::{Payload, RawValue};
use quick_js::owned_value_ref::OwnedValueRef;
use quick_js::tag::TAG_OBJECT;
use quick_js::timers::{
    clear_timeout_callback, read_timer_id, set_timeout_at, timer_id_value,
    JsTimer, Timers,
};
use quick_js::value::JsValue;

fn func(n: usize) -> OwnedValueRef {
    OwnedValueRef::wrap(RawValue { u: Payload::Ptr(n), tag: TAG_OBJECT })
}

fn ids(fired: &[OwnedValueRef]) -> Vec<usize> {
    fired
        .iter()
        .map(|f| match f.as_inner().u {
            Payload::Ptr(n) => n,
            other => panic!("unexpected payload {:?}", other),
        })
        .collect()
}

#[test]
fn timer_id_is_the_time_of_expiry() {
    let mut timers = Timers::new();
    assert!(!timers.has_pending());
    assert_eq!(timers.set_timeout(func(1), 250, 1_000), 1_250);
    assert_eq!(timers.set_timeout(func(2), -50, 1_000), 950);
    assert!(timers.has_pending());
    assert_eq!(JsTimer::new(func(3), 7, 10).expire(), 17);
}

#[test]
fn expired_timers_fire_in_list_order() {
    let mut timers = Timers::new();
    timers.set_timeout(func(1), 300, 1_000);
    timers.set_timeout(func(2), 100, 1_000);
    timers.set_timeout(func(3), 200, 1_000);
    // Nothing has expired yet: a timer fires after its time, not at it.
    assert!(timers.fire_expired(1_100).is_empty());
    // The list is in the order of setting, and so is the firing.
    assert_eq!(ids(&timers.fire_expired(1_301)), vec![1, 2, 3]);
    assert!(!timers.has_pending());
}

#[test]
fn timers_that_have_not_expired_stay() {
    let mut timers = Timers::new();
    timers.set_timeout(func(1), 300, 1_000);
    timers.set_timeout(func(2), 100, 1_000);
    timers.set_timeout(func(3), 500, 1_000);
    let (fired, remaining) = timers.await_timers_at(1_200);
    assert_eq!(ids(&fired), vec![2]);
    assert!(remaining);
    let (fired, remaining) = timers.await_timers_at(1_400);
    assert_eq!(ids(&fired), vec![1]);
    assert!(remaining);
    let (fired, remaining) = timers.await_timers_at(2_000);
    assert_eq!(ids(&fired), vec![3]);
    assert!(!remaining);
    let (fired, remaining) = timers.await_timers_at(3_000);
    assert!(fired.is_empty());
    assert!(!remaining);
}

#[test]
fn clear_removes_the_first_timer_with_the_id() {
    let mut timers = Timers::new();
    timers.set_timeout(func(1), 100, 1_000);
    timers.set_timeout(func(2), 200, 1_000);
    timers.set_timeout(func(3), 100, 1_000);
    let removed = timers.clear_timeout(1_100).unwrap();
    assert_eq!(removed.expire(), 1_100);
    assert_eq!(ids(&[removed.take().unwrap()]), vec![1]);
    assert!(timers.clear_timeout(999).is_none());
    assert_eq!(ids(&timers.fire_expired(5_000)), vec![2, 3]);
}

#[test]
fn cancel_hands_out_every_function() {
    let mut timers = Timers::new();
    timers.set_timeout(func(1), 100, 0);
    timers.set_timeout(func(2), 200, 0);
    assert_eq!(ids(&timers.cancel_all_timers()), vec![1, 2]);
    assert!(!timers.has_pending());
    assert!(timers.cancel_all_timers().is_empty());
}

#[test]
fn clock_driven_timers() {
    let now = chrono::Utc::now().timestamp_millis();
    let mut timers = Timers::new();
    let id = set_timeout_at(
        &mut timers,
        vec![JsValue::OpaqueFunction(func(1)), JsValue::Int(-1_000)],
        now,
    )
    .unwrap();
    let far = set_timeout_at(
        &mut timers,
        vec![JsValue::OpaqueFunction(func(2)), JsValue::Int(i32::MAX)],
        now,
    )
    .unwrap();
    assert_eq!(read_timer_id(&id), Some(now - 1_000));
    assert_eq!(read_timer_id(&far), Some(now + i32::MAX as i64));
    let (fired, remaining) = timers.await_timers_at(chrono::Utc::now().timestamp_millis());
    assert_eq!(ids(&fired), vec![1]);
    assert!(remaining);
}

#[test]
fn set_timeout_checks_its_arguments() {
    let mut timers = Timers::new();
    assert_eq!(
        set_timeout_at(&mut timers, vec![JsValue::OpaqueFunction(func(1))], 0),
        Err("Expect 2 arguments!".to_string())
    );
    assert_eq!(
        set_timeout_at(&mut timers, vec![JsValue::Int(5), JsValue::OpaqueFunction(func(1))], 0),
        Err("Arguments invalid".to_string())
    );
    assert_eq!(
        set_timeout_at(&mut timers, vec![JsValue::OpaqueFunction(func(1)), JsValue::Null], 0),
        Err("Arguments invalid".to_string())
    );
    assert_eq!(
        set_timeout_at(
            &mut timers,
            vec![JsValue::OpaqueFunction(func(1)), JsValue::Int(1)],
            i64::MAX
        ),
        Err("Arguments invalid".to_string())
    );
    assert!(!timers.has_pending());
    assert_eq!(
        set_timeout_at(
            &mut timers,
            vec![JsValue::OpaqueFunction(func(1)), JsValue::Int(20)],
            100
        ),
        Ok(JsValue::Int(120))
    );
    let id = set_timeout_at(
        &mut timers,
        vec![JsValue::OpaqueFunction(func(2)), JsValue::Int(20)],
        1_700_000_000_000,
    )
    .unwrap();
    assert_eq!(read_timer_id(&id), Some(1_700_000_000_020));
}

#[test]
fn clear_timeout_checks_its_arguments() {
    let mut timers = Timers::new();
    timers.set_timeout(func(1), 20, 1_700_000_000_000);
    assert_eq!(
        clear_timeout_callback(&mut timers, vec![]),
        Err("Expect 1 arguments!".to_string())
    );
    assert_eq!(
        clear_timeout_callback(&mut timers, vec![JsValue::String("1".to_string())]),
        Err("First argument must be a number!".to_string())
    );
    assert_eq!(clear_timeout_callback(&mut timers, vec![JsValue::Int(5)]), Ok(None));
    assert!(timers.has_pending());
    let removed =
        clear_timeout_callback(&mut timers, vec![timer_id_value(1_700_000_000_020)]).unwrap();
    assert_eq!(removed.unwrap().expire(), 1_700_000_000_020);
    assert!(!timers.has_pending());
}

#[test]
fn timer_ids_as_values() {
    assert_eq!(timer_id_value(5), JsValue::Int(5));
    assert_eq!(timer_id_value(i32::MIN as i64), JsValue::Int(i32::MIN));
    assert_eq!(timer_id_value(i32::MAX as i64 + 1), JsValue::from_i64(i32::MAX as i64 + 1));
    assert_eq!(read_timer_id(&JsValue::Int(-4)), Some(-4));
    assert_eq!(read_timer_id(&JsValue::from_i64(1 << 40)), Some(1 << 40));
    assert_eq!(
        read_timer_id(&JsValue::from_bigint(num_bigint::BigInt::from(u64::MAX))),
        None
    );
    assert_eq!(read_timer_id(&JsValue::Float(0)), None);
}
