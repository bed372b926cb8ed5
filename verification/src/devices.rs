//! Smart-home devices: which of them a toggles panel shows, and which controls
//! each kind of device gets in the device card, the device list and the device
//! settings dialog.
use vstd::prelude::*;

verus! {

/// The kinds of device the home knows.
#[derive(Clone, Copy, Debug, PartialEq, Eq, Structural)]
pub enum DeviceType {
    KasaPlug,
    KasaLight,
    KasaDimmer,
    KasaPowerStrip,
    TuyaLight,
    TuyaGrowLight,
    RingDoorbell,
    Stoplight,
    RokuTv,
}

/// A device as the dashboard reads it.
#[derive(Clone, Debug)]
pub struct Device {
    pub id: i64,
    pub name: String,
    pub device_type: DeviceType,
    pub ip: String,
    pub power_state: i64,
    pub battery_percentage: i64,
    pub child_id: Option<String>,
}

/// The devices whose id is listed, in the order of the device list.
pub open spec fn selected(devices: Seq<Device>, device_ids: Seq<i64>) -> Seq<Device>
    decreases devices.len(),
{
    if devices.len() == 0 {
        Seq::empty()
    } else {
        let rest = selected(devices.drop_last(), device_ids);
        if device_ids.contains(devices.last().id) {
            rest.push(devices.last())
        } else {
            rest
        }
    }
}

/// Whether `d` is in the list.
fn list_contains(ids: &[i64], d: i64) -> (r: bool)
    ensures
        r == ids@.contains(d),
{
    let mut i: usize = 0;
    while i < ids.len()
        invariant
            i <= ids.len(),
            forall|j: int| 0 <= j < i ==> ids@[j] != d,
        decreases ids.len() - i,
    {
        if ids[i] == d {
            assert(ids@[i as int] == d);
            return true;
        }
        i = i + 1;
    }
    false
}

/// The devices of a toggles panel: those whose id the panel lists, in the
/// order of the device list.
pub fn filter_devices(devices: Vec<Device>, device_ids: &[i64]) -> (r: Vec<Device>)
    ensures
        r@ == selected(devices@, device_ids@),
{
    let ghost all = devices@;
    let mut rest = devices;
    let mut result: Vec<Device> = Vec::new();
    let mut taken: usize = 0;
    let total: usize = rest.len();
    while rest.len() > 0
        invariant
            total == all.len(),
            taken + rest.len() == total,
            rest@ == all.subrange(taken as int, total as int),
            result@ == selected(all.take(taken as int), device_ids@),
        decreases rest.len(),
    {
        let d = rest.remove(0);
        proof {
            assert(all.take(taken + 1).drop_last() =~= all.take(taken as int));
            assert(all.take(taken + 1).last() == d);
        }
        if list_contains(device_ids, d.id) {
            result.push(d);
        }
        taken = taken + 1;
        proof {
            assert(rest@ =~= all.subrange(taken as int, total as int));
        }
    }
    assert(all.take(total as int) =~= all);
    result
}

/// Whether a device's toggle is shown switched on.
pub fn is_powered_on(device: &Device) -> (r: bool)
    ensures
        r == (device.power_state == 1),
{
    device.power_state == 1
}

/// The server action that a toggle switches a device with.
#[derive(Clone, Copy, Debug, PartialEq, Eq, Structural)]
pub enum ToggleTarget {
    SmartPlug,
    SmartLight,
    SmartPowerStrip,
    RokuTv,
}

/// The toggle that the device card and the device list show for a kind of
/// device, if any.
pub open spec fn card_toggle_spec(t: DeviceType) -> Option<ToggleTarget> {
    match t {
        DeviceType::KasaPlug => Some(ToggleTarget::SmartPlug),
        DeviceType::KasaLight => Some(ToggleTarget::SmartLight),
        DeviceType::KasaDimmer => Some(ToggleTarget::SmartPlug),
        DeviceType::KasaPowerStrip => Some(ToggleTarget::SmartPowerStrip),
        DeviceType::TuyaLight => Some(ToggleTarget::SmartLight),
        DeviceType::TuyaGrowLight => Some(ToggleTarget::SmartLight),
        DeviceType::RingDoorbell => None,
        DeviceType::Stoplight => None,
        DeviceType::RokuTv => Some(ToggleTarget::RokuTv),
    }
}

/// The toggle of the device card and of the device list: dimmers switch as
/// plugs, Tuya lights as lights, doorbells and stoplights have none.
pub fn card_toggle(t: DeviceType) -> (r: Option<ToggleTarget>)
    ensures
        r == card_toggle_spec(t),
{
    match t {
        DeviceType::KasaPlug => Some(ToggleTarget::SmartPlug),
        DeviceType::KasaLight => Some(ToggleTarget::SmartLight),
        DeviceType::KasaDimmer => Some(ToggleTarget::SmartPlug),
        DeviceType::KasaPowerStrip => Some(ToggleTarget::SmartPowerStrip),
        DeviceType::TuyaLight => Some(ToggleTarget::SmartLight),
        DeviceType::TuyaGrowLight => Some(ToggleTarget::SmartLight),
        DeviceType::RingDoorbell => None,
        DeviceType::Stoplight => None,
        DeviceType::RokuTv => Some(ToggleTarget::RokuTv),
    }
}

/// A toggle bound to one device: the action, the device's address, the
/// outlet of a power strip, and whether it shows as switched on.
#[derive(Debug)]
pub struct ToggleControl {
    pub target: ToggleTarget,
    pub ip: String,
    pub child_id: Option<String>,
    pub checked: bool,
}

/// Why a device's controls cannot be built.
#[derive(Clone, Copy, Debug, PartialEq, Eq, Structural)]
pub enum DeviceError {
    /// A power strip without the id of its outlet.
    MissingChildId,
}

/// The toggle that the device card and the device list bind to a device. A
/// power strip's toggle carries its outlet id; one without an outlet id is
/// refused.
pub fn card_control(device: &Device) -> (r: Result<Option<ToggleControl>, DeviceError>)
    ensures
        card_toggle_spec(device.device_type) == Some(ToggleTarget::SmartPowerStrip)
            && device.child_id is None <==> r == Err::<Option<ToggleControl>, DeviceError>(
            DeviceError::MissingChildId,
        ),
        r matches Ok(c) ==> match c {
            None => card_toggle_spec(device.device_type) is None,
            Some(c) => {
                &&& card_toggle_spec(device.device_type) == Some(c.target)
                &&& c.ip@ == device.ip@
                &&& c.checked == (device.power_state == 1)
                &&& (c.target == ToggleTarget::SmartPowerStrip ==> (device.child_id matches Some(
                    id,
                ) && c.child_id matches Some(cid) && cid@ == id@))
                &&& (c.target != ToggleTarget::SmartPowerStrip ==> c.child_id is None)
            },
        },
{
    match card_toggle(device.device_type) {
        None => Ok(None),
        Some(target) => {
            let child_id = match target {
                ToggleTarget::SmartPowerStrip => match &device.child_id {
                    Some(id) => Some(id.clone()),
                    None => {
                        return Err(DeviceError::MissingChildId);
                    },
                },
                _ => None,
            };
            Ok(
                Some(
                    ToggleControl {
                        target,
                        ip: device.ip.clone(),
                        child_id,
                        checked: device.power_state == 1,
                    },
                ),
            )
        },
    }
}

/// The brightness slider of the device settings dialog.
#[derive(Clone, Copy, Debug, PartialEq, Eq, Structural)]
pub enum BrightnessTarget {
    SmartLight,
    SmartDimmer,
}

/// What the device settings dialog shows for a kind of device: a toggle, a
/// brightness slider, a colour picker, or the battery level.
#[derive(Clone, Copy, Debug, PartialEq, Eq, Structural)]
pub struct SettingsView {
    pub toggle: Option<ToggleTarget>,
    pub brightness: Option<BrightnessTarget>,
    pub color_picker: bool,
    pub shows_battery: bool,
}

/// The dialog's controls by kind of device.
pub open spec fn settings_view_spec(t: DeviceType) -> SettingsView {
    match t {
        DeviceType::KasaLight | DeviceType::TuyaLight | DeviceType::TuyaGrowLight => SettingsView {
            toggle: Some(ToggleTarget::SmartLight),
            brightness: Some(BrightnessTarget::SmartLight),
            color_picker: true,
            shows_battery: false,
        },
        DeviceType::KasaDimmer => SettingsView {
            toggle: Some(ToggleTarget::SmartPlug),
            brightness: Some(BrightnessTarget::SmartDimmer),
            color_picker: false,
            shows_battery: false,
        },
        DeviceType::KasaPlug | DeviceType::KasaPowerStrip | DeviceType::RokuTv => SettingsView {
            toggle: Some(ToggleTarget::SmartPlug),
            brightness: None,
            color_picker: false,
            shows_battery: false,
        },
        DeviceType::RingDoorbell | DeviceType::Stoplight => SettingsView {
            toggle: None,
            brightness: None,
            color_picker: false,
            shows_battery: true,
        },
    }
}

/// The controls of the device settings dialog: lights get a toggle, a
/// brightness slider and a colour picker; dimmers a plug toggle and a dimmer
/// slider; plugs, power strips and Roku TVs a plug toggle; doorbells and
/// stoplights show their battery level. The dialog's own view names no Tuya
/// kind; that Tuya lights and grow lights get the controls of a light here
/// is this library's choice, made to match their device cards, which show
/// the light control.
pub fn settings_view(t: DeviceType) -> (r: SettingsView)
    ensures
        r == settings_view_spec(t),
{
    match t {
        DeviceType::KasaLight | DeviceType::TuyaLight | DeviceType::TuyaGrowLight => SettingsView {
            toggle: Some(ToggleTarget::SmartLight),
            brightness: Some(BrightnessTarget::SmartLight),
            color_picker: true,
            shows_battery: false,
        },
        DeviceType::KasaDimmer => SettingsView {
            toggle: Some(ToggleTarget::SmartPlug),
            brightness: Some(BrightnessTarget::SmartDimmer),
            color_picker: false,
            shows_battery: false,
        },
        DeviceType::KasaPlug | DeviceType::KasaPowerStrip | DeviceType::RokuTv => SettingsView {
            toggle: Some(ToggleTarget::SmartPlug),
            brightness: None,
            color_picker: false,
            shows_battery: false,
        },
        DeviceType::RingDoorbell | DeviceType::Stoplight => SettingsView {
            toggle: None,
            brightness: None,
            color_picker: false,
            shows_battery: true,
        },
    }
}

/// A device that is a light: a Kasa light, a Tuya light or a Tuya grow light.
pub open spec fn is_light_kind(t: DeviceType) -> bool {
    t == DeviceType::KasaLight || t == DeviceType::TuyaLight || t == DeviceType::TuyaGrowLight
}

/// A device that runs on a battery: a Ring doorbell or a stoplight.
pub open spec fn is_battery_kind(t: DeviceType) -> bool {
    t == DeviceType::RingDoorbell || t == DeviceType::Stoplight
}

/// The toggle each kind of device card gets: every light switches as a smart
/// light, plugs and dimmers as smart plugs, a power strip per outlet, a Roku
/// TV as a TV, and battery devices have no toggle.
pub proof fn law_card_toggle_by_kind(t: DeviceType)
    ensures
        is_light_kind(t) ==> card_toggle_spec(t) == Some(ToggleTarget::SmartLight),
        t == DeviceType::KasaPlug || t == DeviceType::KasaDimmer ==> card_toggle_spec(t) == Some(
            ToggleTarget::SmartPlug,
        ),
        t == DeviceType::KasaPowerStrip ==> card_toggle_spec(t) == Some(
            ToggleTarget::SmartPowerStrip,
        ),
        t == DeviceType::RokuTv ==> card_toggle_spec(t) == Some(ToggleTarget::RokuTv),
        card_toggle_spec(t) is None <==> is_battery_kind(t),
        card_toggle_spec(t) == Some(ToggleTarget::SmartLight) <==> is_light_kind(t),
{
}

/// The settings dialog by kind: lights, and only lights, get a light
/// brightness slider and a colour picker; the Kasa dimmer, and only it, gets
/// a dimmer slider; battery devices, and only they, show their battery; a
/// light's dialog toggle is its card toggle; plugs, power strips and Roku TVs
/// get the plug toggle alone.
pub proof fn law_settings_view_by_kind(t: DeviceType)
    ensures
        (settings_view_spec(t).brightness == Some(BrightnessTarget::SmartLight)) <==> is_light_kind(t),
        (settings_view_spec(t).brightness == Some(BrightnessTarget::SmartDimmer)) <==> t
            == DeviceType::KasaDimmer,
        settings_view_spec(t).color_picker <==> is_light_kind(t),
        settings_view_spec(t).shows_battery <==> is_battery_kind(t),
        settings_view_spec(t).toggle is None <==> is_battery_kind(t),
        is_light_kind(t) ==> settings_view_spec(t).toggle == card_toggle_spec(t),
        t == DeviceType::KasaDimmer ==> settings_view_spec(t).toggle == Some(ToggleTarget::SmartPlug),
        t == DeviceType::KasaPlug || t == DeviceType::KasaPowerStrip || t == DeviceType::RokuTv
            ==> settings_view_spec(t) == (SettingsView {
            toggle: Some(ToggleTarget::SmartPlug),
            brightness: None,
            color_picker: false,
            shows_battery: false,
        }),
{
}

/// A toggles panel shows the device list filtered by whether the panel lists
/// the device's id, and nothing else: kind and state play no part, and the
/// order is that of the device list.
pub proof fn law_selected_is_filter_by_listed_id(devices: Seq<Device>, device_ids: Seq<i64>)
    ensures
        selected(devices, device_ids) == devices.filter(|d: Device| device_ids.contains(d.id)),
        forall|d: Device|
            #[trigger] selected(devices, device_ids).contains(d) <==> devices.contains(d)
                && device_ids.contains(d.id),
    decreases devices.len(),
{
    reveal_with_fuel(Seq::filter, 1);
    if devices.len() > 0 {
        let p = devices.drop_last();
        law_selected_is_filter_by_listed_id(p, device_ids);
        let last = devices.last();
        let rest = selected(p, device_ids);
        assert forall|d: Device| #[trigger] selected(devices, device_ids).contains(d) <==> devices.contains(d)
            && device_ids.contains(d.id) by {
            if device_ids.contains(last.id) {
                assert(selected(devices, device_ids) == rest.push(last));
                if rest.push(last).contains(d) && d != last {
                    let i = choose|i: int| 0 <= i < rest.push(last).len() && rest.push(last)[i] == d;
                    assert(rest[i] == d);
                    assert(rest.contains(d));
                }
                if rest.contains(d) {
                    let i = choose|i: int| 0 <= i < rest.len() && rest[i] == d;
                    assert(rest.push(last)[i] == d);
                }
                if d == last {
                    assert(rest.push(last)[rest.len() as int] == d);
                }
            }
            if devices.contains(d) {
                let i = choose|i: int| 0 <= i < devices.len() && devices[i] == d;
                if i < devices.len() - 1 {
                    assert(p[i] == d);
                    assert(p.contains(d));
                }
            }
            if p.contains(d) {
                let i = choose|i: int| 0 <= i < p.len() && p[i] == d;
                assert(devices[i] == d);
            }
            if d == last {
                assert(devices[devices.len() - 1] == d);
            }
        }
    }
}

} // verus!
