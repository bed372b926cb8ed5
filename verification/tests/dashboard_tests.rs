use iron_nest::dashboard::{panel_content, DashboardLayout, PanelContent, PanelDataInner};

fn ids(layout: &DashboardLayout) -> Vec<String> {
    layout.sorted_panels().into_iter().map(|(id, _)| id).collect()
}

fn panel<'a>(entries: &'a [(String, PanelDataInner)], id: &str) -> &'a PanelDataInner {
    &entries.iter().find(|(k, _)| k == id).unwrap().1
}

#[test]
fn initial_panels_in_display_order() {
    let layout = DashboardLayout::initial();
    assert_eq!(
        ids(&layout),
        vec!["ring2", "roku1", "meals", "ring1", "command", "toggles", "toggles2"]
    );
    let entries = layout.sorted_panels();
    assert_eq!(panel(&entries, "ring1").camera_id.as_deref(), Some("375458730"));
    assert_eq!(panel(&entries, "ring2").camera_id.as_deref(), Some("141328255"));
    assert_eq!(panel(&entries, "toggles").device_ids, Some(vec![85, 88, 89, 90]));
    assert_eq!(panel(&entries, "toggles2").device_ids, Some(vec![95, 86, 87, 97, 96, 84]));
    assert_eq!(panel(&entries, "roku1").component_type, "roku");
}

#[test]
fn clicked_device_is_added_once() {
    let mut layout = DashboardLayout::initial();
    layout.handle_device_click(100);
    let entries = layout.sorted_panels();
    assert_eq!(panel(&entries, "toggles").device_ids, Some(vec![85, 88, 89, 90, 100]));
    layout.handle_device_click(100);
    let again = layout.sorted_panels();
    assert_eq!(entries, again);
}

#[test]
fn listed_device_changes_nothing() {
    let mut layout = DashboardLayout::initial();
    let before = layout.sorted_panels();
    layout.handle_device_click(88);
    assert_eq!(layout.sorted_panels(), before);
}

#[test]
fn other_panels_are_untouched_by_a_click() {
    let mut layout = DashboardLayout::initial();
    let before = layout.sorted_panels();
    layout.handle_device_click(7);
    let after = layout.sorted_panels();
    for (id, data) in &before {
        if id != "toggles" {
            assert_eq!(panel(&after, id), data);
        }
    }
    assert_eq!(ids(&layout).len(), 7);
}

fn settings(kind: &str, camera: Option<&str>, devices: Option<Vec<i64>>) -> PanelDataInner {
    PanelDataInner {
        component_type: kind.to_string(),
        camera_id: camera.map(|c| c.to_string()),
        device_ids: devices,
    }
}

#[test]
fn panel_contents_by_component_type() {
    let cameras = [141328255i64, 375458730];
    assert_eq!(panel_content(&settings("roku", None, None), &cameras), PanelContent::RokuRemote);
    assert_eq!(panel_content(&settings("meals", None, None), &cameras), PanelContent::PlannedMeals);
    assert_eq!(panel_content(&settings("command", None, None), &cameras), PanelContent::CommandBox);
    assert_eq!(panel_content(&settings("weather", None, None), &cameras), PanelContent::BlankPanel);
    assert_eq!(
        panel_content(&settings("toggles", None, Some(vec![1, 2])), &cameras),
        PanelContent::DeviceToggles(vec![1, 2])
    );
    assert_eq!(
        panel_content(&settings("toggles", None, None), &cameras),
        PanelContent::NoDevicesAssigned
    );
}

#[test]
fn camera_panels_find_their_camera_by_id() {
    let cameras = [141328255i64, 375458730, -5];
    assert_eq!(
        panel_content(&settings("ring", Some("375458730"), None), &cameras),
        PanelContent::Camera(1)
    );
    assert_eq!(panel_content(&settings("ring", Some("-5"), None), &cameras), PanelContent::Camera(2));
    assert_eq!(
        panel_content(&settings("ring", Some("0375458730"), None), &cameras),
        PanelContent::CameraNotFound
    );
    assert_eq!(panel_content(&settings("ring", None, None), &cameras), PanelContent::CameraNotFound);
    assert_eq!(panel_content(&settings("ring", Some("1"), None), &[]), PanelContent::CameraNotFound);
}

#[test]
fn many_clicks_keep_each_panel_listed_once() {
    let mut layout = DashboardLayout::initial();
    for device in [7i64, 85, 7, 1000, -3, 95, 1000] {
        layout.handle_device_click(device);
        assert_eq!(ids(&layout), *layout.component_order());
    }
    let entries = layout.sorted_panels();
    assert_eq!(panel(&entries, "toggles").device_ids, Some(vec![85, 88, 89, 90, 7, 1000, -3, 95]));
    assert_eq!(panel(&entries, "toggles2").device_ids, Some(vec![95, 86, 87, 97, 96, 84]));
}
