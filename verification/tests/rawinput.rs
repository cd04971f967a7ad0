use usb_configurator::classifier::EventOrigin;
use usb_configurator::rawinput::{
    classify_message, data_query_succeeded, message_loop_continues, size_query_succeeded,
    window_class_name, KeyTracker, RawInputDevice, WindowMessage, RIM_TYPEKEYBOARD, WM_DESTROY,
    WM_INPUT, WM_KEYDOWN, WM_KEYUP, WM_SYSKEYUP,
};
use usb_configurator::types::DeviceStatus;

const PATH: &str = "\\\\?\\HID#VID_046D&PID_C534&MI_01#9&1f2e3d&0&0000#{884b96c3-56ef-11d1-bc8c-00a0c91405dd}";

#[test]
fn message_numbers_are_those_of_the_system() {
    assert_eq!(WM_INPUT, 0x00FF);
    assert_eq!(WM_DESTROY, 2);
    assert_eq!(WM_KEYDOWN, 0x0100);
    assert_eq!(WM_KEYUP, 0x0101);
    assert_eq!(WM_SYSKEYUP, 0x0105);
    assert_eq!(RIM_TYPEKEYBOARD, 1);
}

#[test]
fn keyboard_is_named_by_its_path() {
    let d = RawInputDevice::from_device_name(0x1234, PATH.to_string()).unwrap();
    assert_eq!(d.vendor_id, 0x046D);
    assert_eq!(d.product_id, 0xC534);
    assert_eq!(d.device_handle, 0x1234);
    assert_eq!(d.device_name, PATH);
    let c = d.clone();
    assert_eq!((c.vendor_id, c.product_id, c.device_handle), (0x046D, 0xC534, 0x1234));
    assert_eq!(c.device_name, PATH);
}

#[test]
fn path_that_names_no_device_is_dropped() {
    assert!(RawInputDevice::from_device_name(1, String::new()).is_none());
    assert!(RawInputDevice::from_device_name(1, "\\\\?\\ACPI#PNP0303#4&1".to_string()).is_none());
    assert!(RawInputDevice::from_device_name(1, "\\\\?\\HID#VID_046D&PID_C5".to_string()).is_none());
}

#[test]
fn keyboard_is_shown_as_a_connected_device() {
    let d = RawInputDevice::from_device_name(-7, PATH.to_string()).unwrap();
    let h = d.to_hid_device();
    assert_eq!(h.id, "046D:C534");
    assert_eq!(h.name, PATH);
    assert_eq!(h.vendor_id, "046D");
    assert_eq!(h.product_id, "C534");
    assert_eq!(h.interface_number, 0);
    assert_eq!(h.total_interfaces, 1);
    assert_eq!(h.status, DeviceStatus::Connected);
    assert_eq!(h.manufacturer, None);
    assert_eq!(h.serial_number, None);
}

#[test]
fn keyboard_press_becomes_a_raw_input_event() {
    let d = RawInputDevice::from_device_name(9, PATH.to_string()).unwrap();
    let e = d.to_event(123_456);
    assert_eq!(e.identity.vendor_id, 0x046D);
    assert_eq!(e.identity.product_id, 0xC534);
    assert_eq!(e.identity.canonical_string(), "046D:C534");
    assert_eq!(e.identity.product_name.as_deref(), Some(PATH));
    assert_eq!(e.identity.serial, None);
    assert_eq!(e.identity.interface_number, None);
    assert_eq!(e.origin, EventOrigin::RawInput);
    assert_eq!(e.observed_at, 123_456);
}

#[test]
fn window_messages_are_sorted() {
    assert_eq!(classify_message(0x00FF), WindowMessage::Input);
    assert_eq!(classify_message(0x0002), WindowMessage::Destroy);
    assert_eq!(classify_message(0x0100), WindowMessage::Other);
    assert_eq!(classify_message(0), WindowMessage::Other);
    assert_eq!(classify_message(u32::MAX), WindowMessage::Other);
}

#[test]
fn query_results_are_judged() {
    assert!(size_query_succeeded(0));
    assert!(!size_query_succeeded(1));
    assert!(!size_query_succeeded(u32::MAX));
    assert!(data_query_succeeded(0));
    assert!(data_query_succeeded(48));
    assert!(!data_query_succeeded(u32::MAX));
}

#[test]
fn message_loop_ends_on_error_and_on_quit() {
    assert!(!message_loop_continues(-1));
    assert!(!message_loop_continues(0));
    assert!(message_loop_continues(1));
    assert!(message_loop_continues(-2));
    assert!(message_loop_continues(i32::MAX));
}

#[test]
fn key_that_goes_down_is_a_press() {
    let mut t = KeyTracker::new();
    assert!(t.on_keyboard_input(10, 0x41, RIM_TYPEKEYBOARD, WM_KEYDOWN));
}

#[test]
fn key_that_repeats_is_no_press() {
    let mut t = KeyTracker::new();
    assert!(t.on_keyboard_input(10, 0x41, RIM_TYPEKEYBOARD, WM_KEYDOWN));
    assert!(!t.on_keyboard_input(10, 0x41, RIM_TYPEKEYBOARD, WM_KEYDOWN));
    assert!(!t.on_keyboard_input(10, 0x41, RIM_TYPEKEYBOARD, WM_KEYDOWN));
    assert!(!t.on_keyboard_input(10, 0x41, RIM_TYPEKEYBOARD, WM_KEYUP));
    assert!(t.on_keyboard_input(10, 0x41, RIM_TYPEKEYBOARD, WM_KEYDOWN));
}

#[test]
fn key_up_is_no_press() {
    let mut t = KeyTracker::new();
    assert!(!t.on_keyboard_input(10, 0x41, RIM_TYPEKEYBOARD, WM_KEYUP));
    assert!(!t.on_keyboard_input(10, 0x41, RIM_TYPEKEYBOARD, WM_SYSKEYUP));
    assert!(t.on_keyboard_input(10, 0x41, RIM_TYPEKEYBOARD, WM_KEYDOWN));
    assert!(!t.on_keyboard_input(10, 0x41, RIM_TYPEKEYBOARD, WM_SYSKEYUP));
    assert!(t.on_keyboard_input(10, 0x41, RIM_TYPEKEYBOARD, WM_KEYDOWN));
}

#[test]
fn keys_and_devices_are_tracked_apart() {
    let mut t = KeyTracker::new();
    assert!(t.on_keyboard_input(10, 0x41, RIM_TYPEKEYBOARD, WM_KEYDOWN));
    assert!(t.on_keyboard_input(10, 0x42, RIM_TYPEKEYBOARD, WM_KEYDOWN));
    assert!(t.on_keyboard_input(11, 0x41, RIM_TYPEKEYBOARD, WM_KEYDOWN));
    assert!(!t.on_keyboard_input(10, 0x41, RIM_TYPEKEYBOARD, WM_KEYDOWN));
    assert!(!t.on_keyboard_input(11, 0x41, RIM_TYPEKEYBOARD, WM_KEYUP));
    assert!(!t.on_keyboard_input(10, 0x41, RIM_TYPEKEYBOARD, WM_KEYDOWN));
    assert!(t.on_keyboard_input(11, 0x41, RIM_TYPEKEYBOARD, WM_KEYDOWN));
    assert!(!t.on_keyboard_input(10, 0x42, RIM_TYPEKEYBOARD, WM_KEYDOWN));
}

#[test]
fn input_that_is_no_key_down_of_a_keyboard_is_no_press() {
    let mut t = KeyTracker::new();
    assert!(!t.on_keyboard_input(10, 0x41, 0, WM_KEYDOWN));
    assert!(!t.on_keyboard_input(10, 0x41, 2, WM_KEYDOWN));
    assert!(!t.on_keyboard_input(10, 0x41, RIM_TYPEKEYBOARD, 0x0104));
    assert!(!t.on_keyboard_input(10, 0x41, RIM_TYPEKEYBOARD, 0));
    assert!(t.on_keyboard_input(10, 0x41, RIM_TYPEKEYBOARD, WM_KEYDOWN));
    assert!(!t.on_keyboard_input(10, 0x41, 0, WM_KEYUP));
    assert!(!t.on_keyboard_input(10, 0x41, RIM_TYPEKEYBOARD, WM_KEYDOWN));
}

#[test]
fn window_class_name_is_the_counter_in_utf16_with_a_zero() {
    let expected: Vec<u16> = "RawInputMonitorClass_0".encode_utf16().chain(Some(0)).collect();
    assert_eq!(window_class_name(0), expected);
    for counter in [1u32, 9, 10, 42, 1_000, u32::MAX] {
        let text = format!("RawInputMonitorClass_{}", counter);
        let expected: Vec<u16> = text.encode_utf16().chain(Some(0)).collect();
        assert_eq!(window_class_name(counter), expected);
    }
}

#[test]
fn window_class_names_differ() {
    let names: Vec<Vec<u16>> = (0u32..50).map(window_class_name).collect();
    for i in 0..names.len() {
        for j in 0..i {
            assert_ne!(names[i], names[j]);
        }
    }
}
