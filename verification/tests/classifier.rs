use usb_configurator::classifier::{
    Classifier, DeviceEvent, EventOrigin, PressState, TriggeredEvent, DEBOUNCE_FLOOR_MS,
    DOUBLE_PRESS_WINDOW_MS,
};
use usb_configurator::identity::DeviceIdentity;
use usb_configurator::types::TriggerType;

fn press(vendor_id: u16, product_id: u16, origin: EventOrigin, at: u64) -> DeviceEvent {
    DeviceEvent { identity: DeviceIdentity::new(vendor_id, product_id), origin, observed_at: at }
}

fn raw(at: u64) -> DeviceEvent {
    press(0xAF88, 0x6688, EventOrigin::RawInput, at)
}

fn state(c: &Classifier) -> Option<PressState> {
    c.press_state(&DeviceIdentity::new(0xAF88, 0x6688))
}

#[test]
fn tunables_are_four_hundred_and_twenty_milliseconds() {
    assert_eq!(DOUBLE_PRESS_WINDOW_MS, 400);
    assert_eq!(DEBOUNCE_FLOOR_MS, 20);
    assert_eq!(Classifier::new().tunables(), (400, 20));
}

#[test]
fn first_press_is_a_single_press() {
    let mut c = Classifier::new();
    assert_eq!(state(&c), None);
    let t = c.observe(raw(5_000)).unwrap();
    assert_eq!(t.trigger, TriggerType::SinglePress);
    assert_eq!(t.observed_at, 5_000);
    assert_eq!(t.identity, DeviceIdentity::new(0xAF88, 0x6688));
    assert_eq!(state(&c), Some(PressState { last_press_at: 5_000, consecutive_count: 1 }));
}

#[test]
fn first_press_at_time_zero_is_not_debounced() {
    let mut c = Classifier::new();
    assert_eq!(c.observe(raw(0)).unwrap().trigger, TriggerType::SinglePress);
}

#[test]
fn press_within_the_window_counts_up() {
    let mut c = Classifier::new();
    c.observe(raw(1_000)).unwrap();
    let second = c.observe(raw(1_120)).unwrap();
    assert_eq!(second.trigger, TriggerType::DoublePress);
    assert_eq!(state(&c), Some(PressState { last_press_at: 1_120, consecutive_count: 2 }));
    let third = c.observe(raw(1_300)).unwrap();
    assert_eq!(third.trigger, TriggerType::DoublePress);
    assert_eq!(state(&c), Some(PressState { last_press_at: 1_300, consecutive_count: 3 }));
}

#[test]
fn press_at_the_window_starts_over() {
    let mut c = Classifier::new();
    c.observe(raw(1_000)).unwrap();
    assert_eq!(c.observe(raw(1_399)).unwrap().trigger, TriggerType::DoublePress);
    let later = c.observe(raw(1_799)).unwrap();
    assert_eq!(later.trigger, TriggerType::SinglePress);
    assert_eq!(state(&c), Some(PressState { last_press_at: 1_799, consecutive_count: 1 }));
}

#[test]
fn press_eight_hundred_milliseconds_later_is_single() {
    let mut c = Classifier::new();
    assert_eq!(c.observe(raw(0)).unwrap().trigger, TriggerType::SinglePress);
    assert_eq!(c.observe(raw(800)).unwrap().trigger, TriggerType::SinglePress);
    assert_eq!(state(&c), Some(PressState { last_press_at: 800, consecutive_count: 1 }));
}

#[test]
fn second_sighting_within_the_debounce_floor_is_dropped() {
    let mut c = Classifier::new();
    let first = c.observe(press(0xAF88, 0x6688, EventOrigin::RawInput, 1_000));
    assert_eq!(first.unwrap().trigger, TriggerType::SinglePress);
    let second = c.observe(press(0xAF88, 0x6688, EventOrigin::HidPoll, 1_010));
    assert!(second.is_none());
    assert_eq!(state(&c), Some(PressState { last_press_at: 1_000, consecutive_count: 1 }));
    assert!(c.observe(raw(1_019)).is_none());
    assert_eq!(state(&c), Some(PressState { last_press_at: 1_000, consecutive_count: 1 }));
}

#[test]
fn press_at_the_debounce_floor_counts() {
    let mut c = Classifier::new();
    c.observe(raw(1_000)).unwrap();
    assert_eq!(c.observe(raw(1_020)).unwrap().trigger, TriggerType::DoublePress);
}

#[test]
fn double_press_that_fired_starts_the_count_over() {
    let mut c = Classifier::new();
    c.observe(raw(1_000)).unwrap();
    let double = c.observe(raw(1_120)).unwrap();
    assert_eq!(double.trigger, TriggerType::DoublePress);
    c.action_fired(&double);
    assert_eq!(state(&c), Some(PressState { last_press_at: 1_120, consecutive_count: 0 }));
    let next = c.observe(raw(1_300)).unwrap();
    assert_eq!(next.trigger, TriggerType::SinglePress);
    assert_eq!(state(&c), Some(PressState { last_press_at: 1_300, consecutive_count: 1 }));
}

#[test]
fn debounce_still_holds_after_a_double_press_fired() {
    let mut c = Classifier::new();
    c.observe(raw(1_000)).unwrap();
    let double = c.observe(raw(1_120)).unwrap();
    c.action_fired(&double);
    assert!(c.observe(raw(1_125)).is_none());
    assert_eq!(state(&c), Some(PressState { last_press_at: 1_120, consecutive_count: 0 }));
}

#[test]
fn single_press_that_fired_changes_nothing() {
    let mut c = Classifier::new();
    let single = c.observe(raw(1_000)).unwrap();
    c.action_fired(&single);
    assert_eq!(state(&c), Some(PressState { last_press_at: 1_000, consecutive_count: 1 }));
    assert_eq!(c.observe(raw(1_100)).unwrap().trigger, TriggerType::DoublePress);
}

#[test]
fn firing_for_an_unseen_device_changes_nothing() {
    let mut c = Classifier::new();
    let event = TriggeredEvent {
        identity: DeviceIdentity::new(1, 2),
        trigger: TriggerType::DoublePress,
        observed_at: 7,
    };
    c.action_fired(&event);
    assert_eq!(c.press_state(&DeviceIdentity::new(1, 2)), None);
}

#[test]
fn devices_are_classified_independently() {
    let mut c = Classifier::new();
    c.observe(press(1, 1, EventOrigin::RawInput, 1_000)).unwrap();
    let other = c.observe(press(1, 2, EventOrigin::RawInput, 1_005)).unwrap();
    assert_eq!(other.trigger, TriggerType::SinglePress);
    let again = c.observe(press(1, 1, EventOrigin::RawInput, 1_100)).unwrap();
    assert_eq!(again.trigger, TriggerType::DoublePress);
    assert_eq!(
        c.press_state(&DeviceIdentity::new(1, 2)),
        Some(PressState { last_press_at: 1_005, consecutive_count: 1 })
    );
    assert_eq!(c.press_state(&DeviceIdentity::new(2, 1)), None);
}

#[test]
fn identity_of_the_press_is_handed_on() {
    let mut c = Classifier::new();
    let mut identity = DeviceIdentity::new(0x046D, 0xC534);
    identity.serial = Some("SER".to_string());
    identity.interface_number = Some(1);
    identity.product_name = Some("Receiver".to_string());
    let t = c
        .observe(DeviceEvent { identity, origin: EventOrigin::HidPoll, observed_at: 42 })
        .unwrap();
    assert_eq!(t.identity.serial.as_deref(), Some("SER"));
    assert_eq!(t.identity.interface_number, Some(1));
    assert_eq!(t.identity.product_name.as_deref(), Some("Receiver"));
}

#[test]
fn clock_that_runs_backwards_counts_as_no_time() {
    let mut c = Classifier::new();
    c.observe(raw(1_000)).unwrap();
    assert!(c.observe(raw(900)).is_none());
    let mut plain = Classifier::with_tunables(400, 0).unwrap();
    plain.observe(raw(1_000)).unwrap();
    assert_eq!(plain.observe(raw(900)).unwrap().trigger, TriggerType::DoublePress);
    assert_eq!(state(&plain), Some(PressState { last_press_at: 900, consecutive_count: 2 }));
}

#[test]
fn tunables_of_the_callers_choice() {
    assert!(Classifier::with_tunables(10, 20).is_none());
    assert!(Classifier::with_tunables(20, 20).is_some());
    let mut c = Classifier::with_tunables(1_000, 100).unwrap();
    assert_eq!(c.tunables(), (1_000, 100));
    c.observe(raw(0)).unwrap();
    assert!(c.observe(raw(99)).is_none());
    assert_eq!(c.observe(raw(999)).unwrap().trigger, TriggerType::DoublePress);
    assert_eq!(c.observe(raw(1_999)).unwrap().trigger, TriggerType::SinglePress);
}

#[test]
fn without_a_window_every_press_is_single() {
    let mut c = Classifier::with_tunables(0, 0).unwrap();
    for at in [5u64, 5, 6, 7, 1_000] {
        assert_eq!(c.observe(raw(at)).unwrap().trigger, TriggerType::SinglePress);
    }
}

#[test]
fn no_press_is_ever_a_long_press() {
    let mut c = Classifier::new();
    let mut at: u64 = 0;
    for gap in [0u64, 5, 20, 25, 399, 400, 401, 19, 1_000, 30, 30, 30] {
        at += gap;
        if let Some(t) = c.observe(raw(at)) {
            assert_ne!(t.trigger, TriggerType::LongPress);
            assert!(state(&c).unwrap().consecutive_count >= 1);
            assert_eq!(state(&c).unwrap().last_press_at, at);
        }
    }
}

#[test]
fn far_end_of_the_clock_does_not_overflow() {
    let mut c = Classifier::new();
    c.observe(raw(0)).unwrap();
    assert_eq!(c.observe(raw(u64::MAX)).unwrap().trigger, TriggerType::SinglePress);
    assert!(c.observe(raw(u64::MAX)).is_none());
    assert!(c.observe(raw(0)).is_none());
}
