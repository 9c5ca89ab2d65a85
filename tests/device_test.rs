use meeting_recorder::{DeviceError, DeviceManager};

#[test]
fn empty_device_list_is_refused() {
    assert!(matches!(DeviceManager::<u32>::new(Vec::new()), Err(DeviceError::NoDevices)));
}

#[test]
fn take_device_hands_over_and_removes() {
    let mut manager = DeviceManager::new(vec!["a", "b", "c"]).ok().unwrap();
    assert_eq!(manager.device_count(), 3);
    assert_eq!(manager.get_device(1), Some(&"b"));
    assert_eq!(manager.get_device(3), None);
    assert_eq!(manager.take_device(1), Some("b"));
    assert_eq!(manager.device_count(), 2);
    assert_eq!(manager.get_device(1), Some(&"c"));
    assert_eq!(manager.take_device(2), None);
    assert_eq!(manager.device_count(), 2);
}
