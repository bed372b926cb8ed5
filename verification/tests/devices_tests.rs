use iron_nest::devices::{
    card_control, card_toggle, filter_devices, is_powered_on, settings_view, BrightnessTarget,
    Device, DeviceError, DeviceType, ToggleTarget,
};

fn device(id: i64, device_type: DeviceType, power_state: i64, child_id: Option<&str>) -> Device {
    Device {
        id,
        name: format!("device {id}"),
        device_type,
        ip: format!("10.0.0.{id}"),
        power_state,
        battery_percentage: 80,
        child_id: child_id.map(|c| c.to_string()),
    }
}

#[test]
fn toggles_panel_keeps_listed_devices_in_order() {
    let devices = vec![
        device(84, DeviceType::KasaPlug, 1, None),
        device(85, DeviceType::KasaLight, 0, None),
        device(86, DeviceType::RokuTv, 1, None),
        device(90, DeviceType::Stoplight, 0, None),
    ];
    let kept = filter_devices(devices, &[90, 84, 12]);
    let kept_ids: Vec<i64> = kept.iter().map(|d| d.id).collect();
    assert_eq!(kept_ids, vec![84, 90]);
    assert!(filter_devices(vec![device(1, DeviceType::KasaPlug, 0, None)], &[]).is_empty());
}

#[test]
fn card_toggles_by_kind() {
    assert_eq!(card_toggle(DeviceType::KasaPlug), Some(ToggleTarget::SmartPlug));
    assert_eq!(card_toggle(DeviceType::KasaDimmer), Some(ToggleTarget::SmartPlug));
    assert_eq!(card_toggle(DeviceType::KasaLight), Some(ToggleTarget::SmartLight));
    assert_eq!(card_toggle(DeviceType::TuyaGrowLight), Some(ToggleTarget::SmartLight));
    assert_eq!(card_toggle(DeviceType::KasaPowerStrip), Some(ToggleTarget::SmartPowerStrip));
    assert_eq!(card_toggle(DeviceType::RokuTv), Some(ToggleTarget::RokuTv));
    assert_eq!(card_toggle(DeviceType::RingDoorbell), None);
    assert_eq!(card_toggle(DeviceType::Stoplight), None);
}

#[test]
fn card_controls_carry_address_and_state() {
    let c = card_control(&device(3, DeviceType::KasaLight, 1, None)).unwrap().unwrap();
    assert_eq!(c.target, ToggleTarget::SmartLight);
    assert_eq!(c.ip, "10.0.0.3");
    assert!(c.checked);
    assert_eq!(c.child_id, None);
    let strip = card_control(&device(4, DeviceType::KasaPowerStrip, 2, Some("outlet-1")))
        .unwrap()
        .unwrap();
    assert_eq!(strip.child_id.as_deref(), Some("outlet-1"));
    assert!(!strip.checked);
    assert!(card_control(&device(5, DeviceType::RingDoorbell, 1, None)).unwrap().is_none());
}

#[test]
fn power_strip_without_outlet_is_refused() {
    assert_eq!(
        card_control(&device(4, DeviceType::KasaPowerStrip, 1, None)).err(),
        Some(DeviceError::MissingChildId)
    );
}

#[test]
fn power_state_one_means_on() {
    assert!(is_powered_on(&device(1, DeviceType::KasaPlug, 1, None)));
    assert!(!is_powered_on(&device(1, DeviceType::KasaPlug, 0, None)));
    assert!(!is_powered_on(&device(1, DeviceType::KasaPlug, 2, None)));
}

#[test]
fn settings_dialog_controls() {
    let light = settings_view(DeviceType::KasaLight);
    assert_eq!(light.toggle, Some(ToggleTarget::SmartLight));
    assert_eq!(light.brightness, Some(BrightnessTarget::SmartLight));
    assert!(light.color_picker);
    let dimmer = settings_view(DeviceType::KasaDimmer);
    assert_eq!(dimmer.toggle, Some(ToggleTarget::SmartPlug));
    assert_eq!(dimmer.brightness, Some(BrightnessTarget::SmartDimmer));
    assert!(!dimmer.color_picker);
    let strip = settings_view(DeviceType::KasaPowerStrip);
    assert_eq!(strip.toggle, Some(ToggleTarget::SmartPlug));
    assert_eq!(settings_view(DeviceType::RokuTv).toggle, Some(ToggleTarget::SmartPlug));
    let bell = settings_view(DeviceType::RingDoorbell);
    assert!(bell.shows_battery);
    assert_eq!(bell.toggle, None);
}
