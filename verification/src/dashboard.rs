//! The dashboard's panel layout: which panels exist, the order they are shown
//! in, what each one renders, and how a click on a device adds it to the
//! toggles panel.
use vstd::prelude::*;
use crate::text::{i64_to_decimal, str_equal};

verus! {

/// The settings of one dashboard panel.
#[derive(Debug, PartialEq, Eq)]
pub struct PanelDataInner {
    pub component_type: String,
    pub camera_id: Option<String>,
    pub device_ids: Option<Vec<i64>>,
}

/// Mathematical view of a panel's settings.
pub struct PanelView {
    pub component_type: Seq<char>,
    pub camera_id: Option<Seq<char>>,
    pub device_ids: Option<Seq<i64>>,
}

pub open spec fn opt_text_view(o: Option<String>) -> Option<Seq<char>> {
    match o {
        Some(s) => Some(s@),
        None => None,
    }
}

pub open spec fn opt_ids_view(o: Option<Vec<i64>>) -> Option<Seq<i64>> {
    match o {
        Some(v) => Some(v@),
        None => None,
    }
}

impl View for PanelDataInner {
    type V = PanelView;

    open spec fn view(&self) -> PanelView {
        PanelView {
            component_type: self.component_type@,
            camera_id: opt_text_view(self.camera_id),
            device_ids: opt_ids_view(self.device_ids),
        }
    }
}

/// View of one (panel id, settings) entry.
pub open spec fn entry_view(e: (String, PanelDataInner)) -> (Seq<char>, PanelView) {
    (e.0@, e.1@)
}

/// The map from panel id to settings that a list of entries stands for.
pub open spec fn entries_map(e: Seq<(Seq<char>, PanelView)>) -> Map<Seq<char>, PanelView>
    decreases e.len(),
{
    if e.len() == 0 {
        Map::empty()
    } else {
        entries_map(e.drop_last()).insert(e.last().0, e.last().1)
    }
}

/// No id occurs twice in a list of entries.
pub open spec fn unique_ids(e: Seq<(Seq<char>, PanelView)>) -> bool {
    forall|i: int, j: int| 0 <= i < j < e.len() ==> #[trigger] e[i].0 != #[trigger] e[j].0
}

/// No element occurs twice in a sequence.
pub open spec fn no_duplicates<A>(s: Seq<A>) -> bool {
    forall|i: int, j: int| 0 <= i < j < s.len() ==> #[trigger] s[i] != #[trigger] s[j]
}

/// The id of the panel that clicked devices are added to.
pub open spec fn toggles_id() -> Seq<char> {
    "toggles"@
}

/// A panel's settings after `device_id` was added to its device list: kept as
/// it is when the device is listed already, appended otherwise.
pub open spec fn with_device(p: PanelView, device_id: i64) -> PanelView {
    match p.device_ids {
        Some(ids) => if ids.contains(device_id) {
            p
        } else {
            PanelView { device_ids: Some(ids.push(device_id)), ..p }
        },
        None => PanelView { device_ids: Some(seq![device_id]), ..p },
    }
}

/// The toggles panel created for a first clicked device.
pub open spec fn new_toggles_panel(device_id: i64) -> PanelView {
    PanelView { component_type: "toggles"@, camera_id: None, device_ids: Some(seq![device_id]) }
}

/// The panels after a click on `device_id`.
pub open spec fn after_device_click(panels: Map<Seq<char>, PanelView>, device_id: i64) -> Map<
    Seq<char>,
    PanelView,
> {
    if panels.contains_key(toggles_id()) {
        panels.insert(toggles_id(), with_device(panels[toggles_id()], device_id))
    } else {
        panels.insert(toggles_id(), new_toggles_panel(device_id))
    }
}

/// The panels that `order` lists, in that order, each with its settings.
pub open spec fn arranged(order: Seq<Seq<char>>, panels: Map<Seq<char>, PanelView>) -> Seq<
    (Seq<char>, PanelView),
>
    decreases order.len(),
{
    if order.len() == 0 {
        Seq::empty()
    } else {
        let rest = arranged(order.drop_last(), panels);
        let k = order.last();
        if panels.contains_key(k) {
            rest.push((k, panels[k]))
        } else {
            rest
        }
    }
}

/// Settings of a panel from its parts.
pub open spec fn panel_view(
    component_type: Seq<char>,
    camera_id: Option<Seq<char>>,
    device_ids: Option<Seq<i64>>,
) -> PanelView {
    PanelView { component_type, camera_id, device_ids }
}

/// The panels the dashboard starts with.
pub open spec fn initial_panels() -> Map<Seq<char>, PanelView> {
    map![
        "roku1"@ => panel_view("roku"@, None, None),
        "meals"@ => panel_view("meals"@, None, None),
        "command"@ => panel_view("command"@, None, None),
        "ring1"@ => panel_view("ring"@, Some("375458730"@), None),
        "ring2"@ => panel_view("ring"@, Some("141328255"@), None),
        "toggles"@ => panel_view("toggles"@, None, Some(seq![85i64, 88, 89, 90])),
        "toggles2"@ => panel_view("toggles"@, None, Some(seq![95i64, 86, 87, 97, 96, 84])),
    ]
}

/// The order in which the dashboard shows its panels at start.
pub open spec fn initial_order() -> Seq<Seq<char>> {
    seq!["ring2"@, "roku1"@, "meals"@, "ring1"@, "command"@, "toggles"@, "toggles2"@]
}

/// A copy of a list of device ids.
fn copy_ids(v: &Vec<i64>) -> (r: Vec<i64>)
    ensures
        r@ == v@,
{
    let mut r: Vec<i64> = Vec::new();
    let mut i: usize = 0;
    while i < v.len()
        invariant
            i <= v.len(),
            r@ == v@.take(i as int),
        decreases v.len() - i,
    {
        r.push(v[i]);
        i = i + 1;
        assert(r@ =~= v@.take(i as int));
    }
    assert(v@.take(v.len() as int) =~= v@);
    r
}

/// Whether `d` is in the list.
fn contains_id(ids: &Vec<i64>, d: i64) -> (r: bool)
    ensures
        r == ids@.contains(d),
{
    let mut i: usize = 0;
    while i < ids.len()
        invariant
            i <= ids.len(),
            forall|j: int| 0 <= j < i ==> ids@[j] != d,
        decreases ids.len() - i,
    {
        if ids[i] == d {
            assert(ids@[i as int] == d);
            return true;
        }
        i = i + 1;
    }
    false
}

/// A copy of an optional string.
fn copy_opt_text(o: &Option<String>) -> (r: Option<String>)
    ensures
        opt_text_view(r) == opt_text_view(*o),
{
    match o {
        Some(s) => Some(s.clone()),
        None => None,
    }
}

impl PanelDataInner {
    /// A copy of these settings.
    pub fn copy_panel(&self) -> (r: PanelDataInner)
        ensures
            r@ == self@,
    {
        PanelDataInner {
            component_type: self.component_type.clone(),
            camera_id: copy_opt_text(&self.camera_id),
            device_ids: match &self.device_ids {
                Some(v) => Some(copy_ids(v)),
                None => None,
            },
        }
    }
}

/// The position of the panel with the given id, if there is one.
fn find_panel(panels: &Vec<(String, PanelDataInner)>, id: &str) -> (r: Option<usize>)
    ensures
        match r {
            Some(i) => i < panels.len() && panels@[i as int].0@ == id@,
            None => forall|i: int| 0 <= i < panels.len() ==> (#[trigger] panels@[i]).0@ != id@,
        },
{
    let mut i: usize = 0;
    while i < panels.len()
        invariant
            i <= panels.len(),
            forall|j: int| 0 <= j < i ==> (#[trigger] panels@[j]).0@ != id@,
        decreases panels.len() - i,
    {
        if str_equal(panels[i].0.as_str(), id) {
            return Some(i);
        }
        i = i + 1;
    }
    None
}

/// A panel with the given settings.
fn make_panel(component_type: &str, camera_id: Option<&str>, device_ids: Option<Vec<i64>>) -> (r:
    PanelDataInner)
    ensures
        r@ == panel_view(
            component_type@,
            match camera_id {
                Some(c) => Some(c@),
                None => None,
            },
            opt_ids_view(device_ids),
        ),
{
    PanelDataInner {
        component_type: String::from_str(component_type),
        camera_id: match camera_id {
            Some(c) => Some(String::from_str(c)),
            None => None,
        },
        device_ids,
    }
}

/// What a dashboard panel shows.
#[derive(Debug, PartialEq, Eq)]
pub enum PanelContent {
    /// The Roku remote.
    RokuRemote,
    /// The planned meals.
    PlannedMeals,
    /// The assistant command box.
    CommandBox,
    /// The camera at this position of the camera list.
    Camera(usize),
    /// A camera panel whose camera is not in the list.
    CameraNotFound,
    /// Toggles for these device ids.
    DeviceToggles(Vec<i64>),
    /// A toggles panel without a device list.
    NoDevicesAssigned,
    /// A panel of an unknown kind.
    BlankPanel,
}

/// The camera id a panel asks for: its camera id, or the empty text.
pub open spec fn wanted_camera(p: PanelView) -> Seq<char> {
    match p.camera_id {
        Some(c) => c,
        None => Seq::empty(),
    }
}

/// `i` is the first position of the camera list whose id, rendered in
/// decimal, is `wanted`.
pub open spec fn is_first_camera(camera_ids: Seq<i64>, wanted: Seq<char>, i: int) -> bool {
    &&& 0 <= i < camera_ids.len()
    &&& crate::text::signed_decimal(camera_ids[i] as int) == wanted
    &&& forall|j: int| 0 <= j < i ==> crate::text::signed_decimal(camera_ids[j] as int) != wanted
}

/// A camera panel whose camera id is a camera's id in decimal shows the
/// first camera with that id: comparing renderings is comparing ids.
pub proof fn law_camera_found_by_id(camera_ids: Seq<i64>, id: i64, i: int)
    ensures
        is_first_camera(camera_ids, crate::text::signed_decimal(id as int), i) <==> {
            &&& 0 <= i < camera_ids.len()
            &&& camera_ids[i] == id
            &&& forall|j: int| 0 <= j < i ==> camera_ids[j] != id
        },
{
    let w = crate::text::signed_decimal(id as int);
    assert forall|j: int| 0 <= j < camera_ids.len() implies (crate::text::signed_decimal(
        #[trigger] camera_ids[j] as int,
    ) == w <==> camera_ids[j] == id) by {
        crate::text::law_signed_decimal_injective(camera_ids[j] as int, id as int);
    }
}

/// What a panel with these settings shows, given the ids of the known
/// cameras: chosen by its component type.
pub open spec fn panel_content_matches(p: PanelView, camera_ids: Seq<i64>, c: PanelContent) -> bool {
    if p.component_type == "roku"@ {
        c == PanelContent::RokuRemote
    } else if p.component_type == "meals"@ {
        c == PanelContent::PlannedMeals
    } else if p.component_type == "command"@ {
        c == PanelContent::CommandBox
    } else if p.component_type == "ring"@ {
        match c {
            PanelContent::Camera(i) => is_first_camera(camera_ids, wanted_camera(p), i as int),
            PanelContent::CameraNotFound => forall|j: int|
                0 <= j < camera_ids.len() ==> crate::text::signed_decimal(camera_ids[j] as int)
                    != wanted_camera(p),
            _ => false,
        }
    } else if p.component_type == "toggles"@ {
        match p.device_ids {
            Some(ids) => c matches PanelContent::DeviceToggles(v) && v@ == ids,
            None => c == PanelContent::NoDevicesAssigned,
        }
    } else {
        c == PanelContent::BlankPanel
    }
}

/// The kind names the panel choice compares are pairwise distinct.
proof fn lemma_kind_names_distinct()
    ensures
        "ring"@ != "roku"@,
        "ring"@ != "meals"@,
        "ring"@ != "command"@,
        "toggles"@ != "roku"@,
        "toggles"@ != "meals"@,
        "toggles"@ != "command"@,
        "toggles"@ != "ring"@,
        "meals"@ != "roku"@,
        "command"@ != "roku"@,
        "command"@ != "meals"@,
{
    reveal_strlit("ring");
    reveal_strlit("roku");
    reveal_strlit("meals");
    reveal_strlit("command");
    reveal_strlit("toggles");
    assert("ring"@[1] != "roku"@[1]);
    assert("ring"@.len() != "meals"@.len());
    assert("ring"@.len() != "command"@.len());
    assert("toggles"@.len() != "roku"@.len());
    assert("toggles"@.len() != "meals"@.len());
    assert("toggles"@[0] != "command"@[0]);
    assert("toggles"@.len() != "ring"@.len());
    assert("meals"@.len() != "roku"@.len());
    assert("command"@.len() != "roku"@.len());
    assert("command"@.len() != "meals"@.len());
}

/// A camera panel searches the whole camera list from its start: it shows
/// the camera at the first position, counting from 0, whose id in decimal is
/// the panel's camera id, and reports the camera missing only when no
/// position of the list holds such an id.
pub proof fn law_ring_panel_finds_first_camera(p: PanelView, camera_ids: Seq<i64>, c: PanelContent)
    requires
        p.component_type == "ring"@,
        panel_content_matches(p, camera_ids, c),
    ensures
        c is Camera || c is CameraNotFound,
        c matches PanelContent::Camera(i) ==> {
            &&& i < camera_ids.len()
            &&& crate::text::signed_decimal(camera_ids[i as int] as int) == wanted_camera(p)
            &&& forall|j: int|
                0 <= j < i ==> crate::text::signed_decimal(camera_ids[j] as int) != wanted_camera(p)
        },
        c is CameraNotFound <==> forall|j: int|
            0 <= j < camera_ids.len() ==> crate::text::signed_decimal(camera_ids[j] as int)
                != wanted_camera(p),
        camera_ids.len() > 0 && crate::text::signed_decimal(camera_ids[0] as int) == wanted_camera(p)
            ==> c == PanelContent::Camera(0),
{
    lemma_kind_names_distinct();
    if let PanelContent::Camera(i) = c {
        assert(0 <= i < camera_ids.len());
        assert(crate::text::signed_decimal(camera_ids[i as int] as int) == wanted_camera(p));
    }
}

/// Chooses what a panel shows. A camera panel shows the first camera whose
/// id, in decimal, equals the panel's camera id (the empty text when it has
/// none); a toggles panel shows its device list.
pub fn panel_content(panel: &PanelDataInner, camera_ids: &[i64]) -> (r: PanelContent)
    ensures
        panel_content_matches(panel@, camera_ids@, r),
{
    let t = panel.component_type.as_str();
    if str_equal(t, "roku") {
        PanelContent::RokuRemote
    } else if str_equal(t, "meals") {
        PanelContent::PlannedMeals
    } else if str_equal(t, "command") {
        PanelContent::CommandBox
    } else if str_equal(t, "ring") {
        let wanted: String = match &panel.camera_id {
            Some(c) => c.clone(),
            None => String::new(),
        };
        let mut j: usize = 0;
        while j < camera_ids.len()
            invariant
                j <= camera_ids.len(),
                wanted@ == wanted_camera(panel@),
                panel@.component_type == "ring"@,
                panel@.component_type != "roku"@,
                panel@.component_type != "meals"@,
                panel@.component_type != "command"@,
                forall|k: int|
                    0 <= k < j ==> crate::text::signed_decimal(camera_ids@[k] as int) != wanted@,
            decreases camera_ids.len() - j,
        {
            let rendered = i64_to_decimal(camera_ids[j]);
            if str_equal(rendered.as_str(), wanted.as_str()) {
                return PanelContent::Camera(j);
            }
            j = j + 1;
        }
        PanelContent::CameraNotFound
    } else if str_equal(t, "toggles") {
        match &panel.device_ids {
            Some(ids) => PanelContent::DeviceToggles(copy_ids(ids)),
            None => PanelContent::NoDevicesAssigned,
        }
    } else {
        PanelContent::BlankPanel
    }
}

/// Looking up a key in the map of entries with unique ids finds its entry.
proof fn lemma_entries_map_lookup(e: Seq<(Seq<char>, PanelView)>)
    requires
        unique_ids(e),
    ensures
        forall|k: Seq<char>|
            #[trigger] entries_map(e).contains_key(k) <==> exists|i: int|
                0 <= i < e.len() && e[i].0 == k,
        forall|i: int| 0 <= i < e.len() ==> #[trigger] entries_map(e)[e[i].0] == e[i].1,
    decreases e.len(),
{
    if e.len() > 0 {
        let p = e.drop_last();
        assert(unique_ids(p));
        lemma_entries_map_lookup(p);
        assert forall|k: Seq<char>|
            #[trigger] entries_map(e).contains_key(k) <==> exists|i: int|
                0 <= i < e.len() && e[i].0 == k by {
            assert(entries_map(e) == entries_map(p).insert(e.last().0, e.last().1));
            if entries_map(e).contains_key(k) && k != e.last().0 {
                assert(entries_map(p).contains_key(k));
                let i = choose|i: int| 0 <= i < p.len() && p[i].0 == k;
                assert(e[i].0 == k);
            }
            if entries_map(e).contains_key(k) && k == e.last().0 {
                assert(e[e.len() - 1].0 == k);
            }
            if exists|i: int| 0 <= i < e.len() && e[i].0 == k {
                let i = choose|i: int| 0 <= i < e.len() && e[i].0 == k;
                if i < e.len() - 1 {
                    assert(p[i].0 == k);
                    assert(entries_map(p).contains_key(k));
                }
            }
        }
        assert forall|i: int| 0 <= i < e.len() implies #[trigger] entries_map(e)[e[i].0]
            == e[i].1 by {
            assert(entries_map(e) == entries_map(p).insert(e.last().0, e.last().1));
            if i < e.len() - 1 {
                assert(p[i] == e[i]);
                assert(e[i].0 != e[e.len() - 1].0);
                assert(entries_map(p)[p[i].0] == p[i].1);
            }
        }
    }
}

/// Replacing the settings of an existing entry updates the map at its id.
proof fn lemma_entries_map_update(e: Seq<(Seq<char>, PanelView)>, i: int, v: PanelView)
    requires
        unique_ids(e),
        0 <= i < e.len(),
    ensures
        entries_map(e.update(i, (e[i].0, v))) == entries_map(e).insert(e[i].0, v),
    decreases e.len(),
{
    let e2 = e.update(i, (e[i].0, v));
    if i == e.len() - 1 {
        assert(e2.drop_last() =~= e.drop_last());
        assert(entries_map(e2) == entries_map(e.drop_last()).insert(e[i].0, v));
        assert(entries_map(e).insert(e[i].0, v) =~= entries_map(e.drop_last()).insert(e[i].0, v));
    } else {
        let p = e.drop_last();
        assert(unique_ids(p));
        lemma_entries_map_update(p, i, v);
        assert(e2.drop_last() =~= p.update(i, (p[i].0, v)));
        assert(e[i].0 != e.last().0);
        assert(entries_map(e2) =~= entries_map(e).insert(e[i].0, v));
    }
}

/// Appending an entry with a fresh id keeps the ids unique.
proof fn lemma_unique_push(e: Seq<(Seq<char>, PanelView)>, x: (Seq<char>, PanelView))
    requires
        unique_ids(e),
        forall|i: int| 0 <= i < e.len() ==> e[i].0 != x.0,
    ensures
        unique_ids(e.push(x)),
{
    let f = e.push(x);
    assert forall|i: int, j: int| 0 <= i < j < f.len() implies #[trigger] f[i].0 != #[trigger] f[j].0 by {
        if j < e.len() {
            assert(f[i] == e[i] && f[j] == e[j]);
        }
    }
}

/// A second click on the same device changes nothing: clicking is idempotent.
pub proof fn law_device_click_idempotent(panels: Map<Seq<char>, PanelView>, device_id: i64)
    ensures
        after_device_click(after_device_click(panels, device_id), device_id) == after_device_click(
            panels,
            device_id,
        ),
{
    let p1 = after_device_click(panels, device_id);
    assert(p1.contains_key(toggles_id()));
    let t = p1[toggles_id()];
    assert(t.device_ids matches Some(ids) && ids.contains(device_id)) by {
        if panels.contains_key(toggles_id()) {
            match panels[toggles_id()].device_ids {
                Some(ids) => {
                    if !ids.contains(device_id) {
                        assert(ids.push(device_id)[ids.len() as int] == device_id);
                    }
                },
                None => {
                    assert(seq![device_id][0] == device_id);
                },
            }
        } else {
            assert(seq![device_id][0] == device_id);
        }
    }
    assert(with_device(t, device_id) == t);
    assert(p1.insert(toggles_id(), t) =~= p1);
}

/// After a click on a device, the toggles panel exists and lists that device.
pub proof fn law_device_click_lists_device(panels: Map<Seq<char>, PanelView>, device_id: i64)
    ensures
        after_device_click(panels, device_id).contains_key(toggles_id()),
        after_device_click(panels, device_id)[toggles_id()].device_ids matches Some(ids)
            && ids.contains(device_id),
{
    if panels.contains_key(toggles_id()) {
        match panels[toggles_id()].device_ids {
            Some(ids) => {
                if !ids.contains(device_id) {
                    assert(ids.push(device_id)[ids.len() as int] == device_id);
                }
            },
            None => {
                assert(seq![device_id][0] == device_id);
            },
        }
    } else {
        assert(seq![device_id][0] == device_id);
    }
}

/// A click on a device changes no panel but the toggles panel, and keeps the
/// devices that panel listed, in their order, as the front of its new list.
pub proof fn law_device_click_changes_only_toggles(
    panels: Map<Seq<char>, PanelView>,
    device_id: i64,
    k: Seq<char>,
)
    ensures
        k != toggles_id() ==> (after_device_click(panels, device_id).contains_key(k)
            == panels.contains_key(k) && (panels.contains_key(k) ==> after_device_click(
            panels,
            device_id,
        )[k] == panels[k])),
        panels.contains_key(toggles_id()) ==> ({
            let before = panels[toggles_id()];
            let after = after_device_click(panels, device_id)[toggles_id()];
            &&& after.component_type == before.component_type
            &&& after.camera_id == before.camera_id
            &&& before.device_ids matches Some(old_ids) ==> (after.device_ids matches Some(new_ids)
                && new_ids.take(old_ids.len() as int) == old_ids)
        }),
{
    if panels.contains_key(toggles_id()) {
        match panels[toggles_id()].device_ids {
            Some(ids) => {
                if !ids.contains(device_id) {
                    assert(ids.push(device_id).take(ids.len() as int) =~= ids);
                } else {
                    assert(ids.take(ids.len() as int) =~= ids);
                }
            },
            None => {},
        }
    }
}

/// Facts about the panels listed in display order.
proof fn lemma_arranged(order: Seq<Seq<char>>, panels: Map<Seq<char>, PanelView>)
    requires
        no_duplicates(order),
    ensures
        ({
            let a = arranged(order, panels);
            &&& unique_ids(a)
            &&& forall|i: int|
                0 <= i < a.len() ==> {
                    &&& panels.contains_key(#[trigger] a[i].0)
                    &&& a[i].1 == panels[a[i].0]
                    &&& order.contains(a[i].0)
                }
            &&& forall|k: Seq<char>|
                panels.contains_key(k) && #[trigger] order.contains(k) ==> exists|i: int|
                    0 <= i < a.len() && a[i].0 == k
        }),
    decreases order.len(),
{
    if order.len() > 0 {
        let o = order.drop_last();
        assert(no_duplicates(o));
        lemma_arranged(o, panels);
        let rest = arranged(o, panels);
        let a = arranged(order, panels);
        let last = order.last();
        assert(!o.contains(last)) by {
            if o.contains(last) {
                let j = choose|j: int| 0 <= j < o.len() && o[j] == last;
                assert(order[j] == order[order.len() - 1]);
            }
        }
        assert forall|i: int| 0 <= i < rest.len() implies order.contains(#[trigger] rest[i].0) by {
            let j = choose|j: int| 0 <= j < o.len() && o[j] == rest[i].0;
            assert(order[j] == o[j]);
        }
        if panels.contains_key(last) {
            assert(a == rest.push((last, panels[last])));
            assert forall|i: int| 0 <= i < rest.len() implies #[trigger] rest[i].0 != last by {}
            lemma_unique_push(rest, (last, panels[last]));
            assert forall|i: int| 0 <= i < a.len() implies {
                &&& panels.contains_key(#[trigger] a[i].0)
                &&& a[i].1 == panels[a[i].0]
                &&& order.contains(a[i].0)
            } by {
                if i < rest.len() {
                    assert(a[i] == rest[i]);
                } else {
                    assert(order[order.len() - 1] == last);
                }
            }
            assert forall|k: Seq<char>| panels.contains_key(k) && #[trigger] order.contains(k) implies exists|i: int|
                0 <= i < a.len() && a[i].0 == k by {
                if k == last {
                    assert(a[rest.len() as int].0 == k);
                } else {
                    let j = choose|j: int| 0 <= j < order.len() && order[j] == k;
                    assert(o[j] == k);
                    assert(o.contains(k));
                    let i = choose|i: int| 0 <= i < rest.len() && rest[i].0 == k;
                    assert(a[i] == rest[i]);
                }
            }
        } else {
            assert(a == rest);
            assert forall|k: Seq<char>| panels.contains_key(k) && #[trigger] order.contains(k) implies exists|i: int|
                0 <= i < a.len() && a[i].0 == k by {
                let j = choose|j: int| 0 <= j < order.len() && order[j] == k;
                assert(j != order.len() - 1);
                assert(o[j] == k);
                assert(o.contains(k));
            }
        }
    }
}

/// When every panel is named in the display order and the order names no id
/// twice, the panels in display order list every panel exactly once, with its
/// settings, and nothing else.
pub proof fn law_sorted_panels_list_each_panel_once(
    order: Seq<Seq<char>>,
    panels: Map<Seq<char>, PanelView>,
)
    requires
        no_duplicates(order),
        forall|k: Seq<char>| #[trigger] panels.contains_key(k) ==> order.contains(k),
    ensures
        ({
            let a = arranged(order, panels);
            &&& unique_ids(a)
            &&& forall|i: int|
                0 <= i < a.len() ==> panels.contains_key(#[trigger] a[i].0) && a[i].1
                    == panels[a[i].0]
            &&& forall|k: Seq<char>|
                #[trigger] panels.contains_key(k) ==> exists|i: int| 0 <= i < a.len() && a[i].0 == k
        }),
{
    lemma_arranged(order, panels);
    let a = arranged(order, panels);
    assert forall|k: Seq<char>| #[trigger] panels.contains_key(k) implies exists|i: int|
        0 <= i < a.len() && a[i].0 == k by {
        assert(order.contains(k));
    }
}

/// The starting panels and what each shows, whatever the cameras: `roku1`
/// the Roku remote, `meals` the planned meals, `command` the command box,
/// `ring1` and `ring2` the first camera with id 375458730 and 141328255,
/// `toggles` the devices 85, 88, 89, 90 and `toggles2` the devices 95, 86,
/// 87, 97, 96, 84.
pub proof fn law_initial_panels_show(camera_ids: Seq<i64>, c: PanelContent)
    ensures
        initial_panels()["roku1"@].component_type == "roku"@,
        initial_panels()["meals"@].component_type == "meals"@,
        initial_panels()["command"@].component_type == "command"@,
        initial_panels()["ring1"@] == (PanelView {
            component_type: "ring"@,
            camera_id: Some("375458730"@),
            device_ids: None,
        }),
        initial_panels()["ring2"@] == (PanelView {
            component_type: "ring"@,
            camera_id: Some("141328255"@),
            device_ids: None,
        }),
        initial_panels()["toggles"@] == (PanelView {
            component_type: "toggles"@,
            camera_id: None,
            device_ids: Some(seq![85i64, 88, 89, 90]),
        }),
        initial_panels()["toggles2"@] == (PanelView {
            component_type: "toggles"@,
            camera_id: None,
            device_ids: Some(seq![95i64, 86, 87, 97, 96, 84]),
        }),
        panel_content_matches(initial_panels()["roku1"@], camera_ids, c) <==> c
            == PanelContent::RokuRemote,
        panel_content_matches(initial_panels()["meals"@], camera_ids, c) <==> c
            == PanelContent::PlannedMeals,
        panel_content_matches(initial_panels()["command"@], camera_ids, c) <==> c
            == PanelContent::CommandBox,
        panel_content_matches(initial_panels()["toggles"@], camera_ids, c) <==> (c matches PanelContent::DeviceToggles(v)
            && v@ == seq![85i64, 88, 89, 90]),
        panel_content_matches(initial_panels()["toggles2"@], camera_ids, c) <==> (c matches PanelContent::DeviceToggles(v)
            && v@ == seq![95i64, 86, 87, 97, 96, 84]),
        panel_content_matches(initial_panels()["ring1"@], camera_ids, c) ==> (c matches PanelContent::Camera(i)
            ==> camera_ids[i as int] == 375458730 && forall|j: int|
            0 <= j < i ==> camera_ids[j] != 375458730),
        panel_content_matches(initial_panels()["ring2"@], camera_ids, c) ==> (c matches PanelContent::Camera(i)
            ==> camera_ids[i as int] == 141328255 && forall|j: int|
            0 <= j < i ==> camera_ids[j] != 141328255),
{
    lemma_kind_names_distinct();
    lemma_initial_ids_distinct();
    reveal_strlit("375458730");
    reveal_strlit("141328255");
    reveal_with_fuel(crate::text::decimal, 10);
    assert(crate::text::signed_decimal(375458730) =~= "375458730"@);
    assert(crate::text::signed_decimal(141328255) =~= "141328255"@);
    if let PanelContent::Camera(i) = c {
        if panel_content_matches(initial_panels()["ring1"@], camera_ids, c) {
            law_camera_found_by_id(camera_ids, 375458730, i as int);
        }
        if panel_content_matches(initial_panels()["ring2"@], camera_ids, c) {
            law_camera_found_by_id(camera_ids, 141328255, i as int);
        }
    }
}

/// The panels after the devices of `clicks` were clicked, one after the
/// other, on the dashboard as it starts.
pub open spec fn panels_after_clicks(clicks: Seq<i64>) -> Map<Seq<char>, PanelView>
    decreases clicks.len(),
{
    if clicks.len() == 0 {
        initial_panels()
    } else {
        after_device_click(panels_after_clicks(clicks.drop_last()), clicks.last())
    }
}

/// The ids of the initial order are pairwise distinct.
proof fn lemma_initial_ids_distinct()
    ensures
        no_duplicates(initial_order()),
{
    reveal_strlit("roku1");
    reveal_strlit("meals");
    reveal_strlit("command");
    reveal_strlit("ring1");
    reveal_strlit("ring2");
    reveal_strlit("toggles");
    reveal_strlit("toggles2");
    assert("roku1"@ != "meals"@) by { assert("roku1"@[0] != "meals"@[0]); }
    assert("roku1"@ != "command"@) by { assert("roku1"@.len() != "command"@.len()); }
    assert("roku1"@ != "ring1"@) by { assert("roku1"@[1] != "ring1"@[1]); }
    assert("roku1"@ != "ring2"@) by { assert("roku1"@[1] != "ring2"@[1]); }
    assert("roku1"@ != "toggles"@) by { assert("roku1"@.len() != "toggles"@.len()); }
    assert("roku1"@ != "toggles2"@) by { assert("roku1"@.len() != "toggles2"@.len()); }
    assert("meals"@ != "command"@) by { assert("meals"@.len() != "command"@.len()); }
    assert("meals"@ != "ring1"@) by { assert("meals"@[0] != "ring1"@[0]); }
    assert("meals"@ != "ring2"@) by { assert("meals"@[0] != "ring2"@[0]); }
    assert("meals"@ != "toggles"@) by { assert("meals"@.len() != "toggles"@.len()); }
    assert("meals"@ != "toggles2"@) by { assert("meals"@.len() != "toggles2"@.len()); }
    assert("command"@ != "ring1"@) by { assert("command"@.len() != "ring1"@.len()); }
    assert("command"@ != "ring2"@) by { assert("command"@.len() != "ring2"@.len()); }
    assert("command"@ != "toggles"@) by { assert("command"@[0] != "toggles"@[0]); }
    assert("command"@ != "toggles2"@) by { assert("command"@.len() != "toggles2"@.len()); }
    assert("ring1"@ != "ring2"@) by { assert("ring1"@[4] != "ring2"@[4]); }
    assert("ring1"@ != "toggles"@) by { assert("ring1"@.len() != "toggles"@.len()); }
    assert("ring1"@ != "toggles2"@) by { assert("ring1"@.len() != "toggles2"@.len()); }
    assert("ring2"@ != "toggles"@) by { assert("ring2"@.len() != "toggles"@.len()); }
    assert("ring2"@ != "toggles2"@) by { assert("ring2"@.len() != "toggles2"@.len()); }
    assert("toggles"@ != "toggles2"@) by { assert("toggles"@.len() != "toggles2"@.len()); }
}

/// The initial panels are exactly those that the initial order names.
proof fn lemma_initial_keys()
    ensures
        forall|k: Seq<char>| #[trigger] initial_panels().contains_key(k) <==> initial_order().contains(k),
{
    let o = initial_order();
    assert forall|k: Seq<char>| #[trigger] initial_panels().contains_key(k) <==> o.contains(k) by {
        if initial_panels().contains_key(k) {
            if k == "ring2"@ { assert(o[0] == k); }
            if k == "roku1"@ { assert(o[1] == k); }
            if k == "meals"@ { assert(o[2] == k); }
            if k == "ring1"@ { assert(o[3] == k); }
            if k == "command"@ { assert(o[4] == k); }
            if k == "toggles"@ { assert(o[5] == k); }
            if k == "toggles2"@ { assert(o[6] == k); }
        }
        if o.contains(k) {
            let i = choose|i: int| 0 <= i < o.len() && o[i] == k;
            assert(0 <= i < 7);
        }
    }
}

/// Clicks add no panel and remove none.
proof fn lemma_clicks_keep_keys(clicks: Seq<i64>)
    ensures
        panels_after_clicks(clicks).dom() == initial_panels().dom(),
    decreases clicks.len(),
{
    if clicks.len() > 0 {
        lemma_clicks_keep_keys(clicks.drop_last());
        let before = panels_after_clicks(clicks.drop_last());
        assert(initial_panels().contains_key(toggles_id()));
        assert(before.contains_key(toggles_id()));
        assert(panels_after_clicks(clicks).dom() =~= before.dom());
    }
}

/// When the order names only panels that exist, the panels in display order
/// are the ids of the order, each with its settings.
proof fn lemma_arranged_all_present(order: Seq<Seq<char>>, panels: Map<Seq<char>, PanelView>)
    requires
        forall|i: int| 0 <= i < order.len() ==> panels.contains_key(#[trigger] order[i]),
    ensures
        arranged(order, panels) == order.map_values(|k: Seq<char>| (k, panels[k])),
    decreases order.len(),
{
    if order.len() > 0 {
        let o = order.drop_last();
        assert forall|i: int| 0 <= i < o.len() implies panels.contains_key(#[trigger] o[i]) by {
            assert(o[i] == order[i]);
        }
        lemma_arranged_all_present(o, panels);
        assert(panels.contains_key(order[order.len() - 1]));
        assert(order.map_values(|k: Seq<char>| (k, panels[k])) =~= o.map_values(
            |k: Seq<char>| (k, panels[k]),
        ).push((order.last(), panels[order.last()])));
    }
}

/// Whatever devices are clicked, one after the other, on the dashboard as it
/// starts: it keeps exactly the panels it started with, every panel is named
/// in the display order, which names each id once, and the panels in display
/// order are the ids of that order, each once and with its current settings.
pub proof fn law_clicks_keep_each_panel_listed_once(clicks: Seq<i64>)
    ensures
        panels_after_clicks(clicks).dom() == initial_panels().dom(),
        forall|k: Seq<char>|
            #[trigger] panels_after_clicks(clicks).contains_key(k) <==> initial_order().contains(k),
        no_duplicates(initial_order()),
        arranged(initial_order(), panels_after_clicks(clicks)) == initial_order().map_values(
            |k: Seq<char>| (k, panels_after_clicks(clicks)[k]),
        ),
{
    let p = panels_after_clicks(clicks);
    lemma_clicks_keep_keys(clicks);
    lemma_initial_keys();
    lemma_initial_ids_distinct();
    assert forall|k: Seq<char>| #[trigger] p.contains_key(k) <==> initial_order().contains(k) by {
        assert(p.contains_key(k) == initial_panels().contains_key(k));
    }
    assert forall|i: int| 0 <= i < initial_order().len() implies p.contains_key(
        #[trigger] initial_order()[i],
    ) by {
        assert(initial_order().contains(initial_order()[i]));
    }
    lemma_arranged_all_present(initial_order(), p);
}

/// The dashboard: its panels by id and the order in which panels are shown.
pub struct DashboardLayout {
    panels: Vec<(String, PanelDataInner)>,
    component_order: Vec<String>,
}

impl DashboardLayout {
    /// The (id, settings) entries, in storage order.
    pub closed spec fn entries(&self) -> Seq<(Seq<char>, PanelView)> {
        self.panels@.map_values(|e: (String, PanelDataInner)| entry_view(e))
    }

    /// The panels by id.
    pub closed spec fn panels(&self) -> Map<Seq<char>, PanelView> {
        entries_map(self.entries())
    }

    /// The ids in the order in which panels are shown.
    pub closed spec fn order(&self) -> Seq<Seq<char>> {
        self.component_order@.map_values(|s: String| s@)
    }

    /// A click on a device adds it to the toggles panel, unless listed there
    /// already; a missing toggles panel is created with just that device.
    pub fn handle_device_click(&mut self, device_id: i64)
        ensures
            final(self).panels() == after_device_click(old(self).panels(), device_id),
            final(self).order() == old(self).order(),
    {
        proof {
            use_type_invariant(&*self);
        }
        let mut panels: Vec<(String, PanelDataInner)> = Vec::new();
        std::mem::swap(&mut panels, &mut self.panels);
        let ghost e0 = panels@.map_values(|e: (String, PanelDataInner)| entry_view(e));
        proof {
            assert(e0 == old(self).entries());
            lemma_entries_map_lookup(e0);
            reveal_strlit("toggles");
        }
        match find_panel(&panels, "toggles") {
            Some(i) => {
                let (id, data) = panels.remove(i);
                let ghost old_view = data@;
                let new_ids: Option<Vec<i64>> = match data.device_ids {
                    Some(mut ids) => {
                        if !contains_id(&ids, device_id) {
                            ids.push(device_id);
                        }
                        Some(ids)
                    },
                    None => {
                        let v = vec![device_id];
                        assert(v@ =~= seq![device_id]);
                        Some(v)
                    },
                };
                assert(opt_ids_view(new_ids) == with_device(old_view, device_id).device_ids);
                let updated = PanelDataInner {
                    component_type: data.component_type,
                    camera_id: data.camera_id,
                    device_ids: new_ids,
                };
                proof {
                    assert(updated@ == with_device(old_view, device_id));
                    assert(e0[i as int].0 == toggles_id());
                    assert(entries_map(e0)[toggles_id()] == old_view);
                }
                panels.insert(i, (id, updated));
                proof {
                    let e1 = panels@.map_values(|e: (String, PanelDataInner)| entry_view(e));
                    assert(e1 =~= e0.update(i as int, (e0[i as int].0, updated@)));
                    lemma_entries_map_update(e0, i as int, updated@);
                    assert(unique_ids(e1)) by {
                        assert forall|a: int, b: int| 0 <= a < b < e1.len() implies #[trigger] e1[a].0
                            != #[trigger] e1[b].0 by {
                            assert(e1[a].0 == e0[a].0 && e1[b].0 == e0[b].0);
                        }
                    }
                    assert forall|k: int| 0 <= k < e1.len() implies old(self).order().contains(
                        #[trigger] e1[k].0,
                    ) by {
                        assert(e1[k].0 == e0[k].0);
                    }
                }
            },
            None => {
                let first = vec![device_id];
                assert(first@ =~= seq![device_id]);
                let fresh = PanelDataInner {
                    component_type: String::from_str("toggles"),
                    camera_id: None,
                    device_ids: Some(first),
                };
                proof {
                    assert(fresh@ == new_toggles_panel(device_id));
                    assert(!entries_map(e0).contains_key(toggles_id()));
                }
                panels.push((String::from_str("toggles"), fresh));
                proof {
                    let e1 = panels@.map_values(|e: (String, PanelDataInner)| entry_view(e));
                    assert(e1 =~= e0.push((toggles_id(), fresh@)));
                    assert(e1.drop_last() =~= e0);
                    lemma_unique_push(e0, (toggles_id(), fresh@));
                    assert forall|k: int| 0 <= k < e1.len() implies old(self).order().contains(
                        #[trigger] e1[k].0,
                    ) by {
                        if k < e0.len() {
                            assert(e1[k].0 == e0[k].0);
                        }
                    }
                }
            },
        }
        self.panels = panels;
    }

    /// The panels in display order: for each id of the order that names a
    /// panel, that panel with its settings.
    pub fn sorted_panels(&self) -> (r: Vec<(String, PanelDataInner)>)
        ensures
            r@.map_values(|e: (String, PanelDataInner)| entry_view(e)) == arranged(
                self.order(),
                self.panels(),
            ),
            unique_ids(r@.map_values(|e: (String, PanelDataInner)| entry_view(e))),
            forall|k: Seq<char>|
                #[trigger] self.panels().contains_key(k) ==> exists|i: int|
                    0 <= i < r.len() && r@[i].0@ == k,
    {
        proof {
            use_type_invariant(self);
            lemma_entries_map_lookup(self.entries());
            assert forall|k: Seq<char>| #[trigger] self.panels().contains_key(k) implies self.order().contains(k) by {
                let i = choose|i: int| 0 <= i < self.entries().len() && self.entries()[i].0 == k;
                assert(self.order().contains(self.entries()[i].0));
            }
            law_sorted_panels_list_each_panel_once(self.order(), self.panels());
        }
        let mut result: Vec<(String, PanelDataInner)> = Vec::new();
        let mut j: usize = 0;
        while j < self.component_order.len()
            invariant
                j <= self.component_order.len(),
                unique_ids(self.entries()),
                forall|k: Seq<char>|
                    #[trigger] self.panels().contains_key(k) <==> exists|i: int|
                        0 <= i < self.entries().len() && self.entries()[i].0 == k,
                forall|i: int|
                    0 <= i < self.entries().len() ==> #[trigger] self.panels()[self.entries()[i].0]
                        == self.entries()[i].1,
                result@.map_values(|e: (String, PanelDataInner)| entry_view(e)) == arranged(
                    self.order().take(j as int),
                    self.panels(),
                ),
            decreases self.component_order.len() - j,
        {
            let id = &self.component_order[j];
            let ghost before = result@.map_values(|e: (String, PanelDataInner)| entry_view(e));
            let ghost k = self.order()[j as int];
            proof {
                assert(self.order().take(j + 1).drop_last() =~= self.order().take(j as int));
                assert(self.order().take(j + 1).last() == k);
                assert(k == id@);
            }
            match find_panel(&self.panels, id.as_str()) {
                Some(i) => {
                    let copy = self.panels[i].1.copy_panel();
                    proof {
                        assert(self.entries()[i as int].0 == k);
                        assert(self.panels().contains_key(k));
                        assert(self.panels()[k] == copy@);
                    }
                    result.push((id.clone(), copy));
                    proof {
                        let after = result@.map_values(|e: (String, PanelDataInner)| entry_view(e));
                        assert(after =~= before.push((k, self.panels()[k])));
                    }
                },
                None => {
                    proof {
                        if self.panels().contains_key(k) {
                            let i = choose|i: int| 0 <= i < self.entries().len() && self.entries()[i].0 == k;
                            assert(self.panels@[i].0@ == k);
                        }
                    }
                },
            }
            j = j + 1;
        }
        assert(self.order().take(self.component_order.len() as int) =~= self.order());
        proof {
            let a = result@.map_values(|e: (String, PanelDataInner)| entry_view(e));
            assert forall|k: Seq<char>| #[trigger] self.panels().contains_key(k) implies exists|i: int|
                0 <= i < result.len() && result@[i].0@ == k by {
                let i = choose|i: int| 0 <= i < a.len() && a[i].0 == k;
                assert(a[i].0 == result@[i].0@);
            }
        }
        result
    }

    /// The ids in display order.
    pub fn component_order(&self) -> (r: &Vec<String>)
        ensures
            r@.map_values(|s: String| s@) == self.order(),
    {
        &self.component_order
    }

    /// The layout the dashboard starts with: seven panels and their order.
    pub fn initial() -> (r: Self)
        ensures
            r.panels() == initial_panels(),
            r.order() == initial_order(),
    {
        let mut panels: Vec<(String, PanelDataInner)> = Vec::new();
        panels.push((String::from_str("roku1"), make_panel("roku", None, None)));
        panels.push((String::from_str("meals"), make_panel("meals", None, None)));
        panels.push((String::from_str("command"), make_panel("command", None, None)));
        panels.push((String::from_str("ring1"), make_panel("ring", Some("375458730"), None)));
        panels.push((String::from_str("ring2"), make_panel("ring", Some("141328255"), None)));
        panels.push(
            (String::from_str("toggles"), make_panel("toggles", None, Some(vec![85, 88, 89, 90]))),
        );
        panels.push(
            (
                String::from_str("toggles2"),
                make_panel("toggles", None, Some(vec![95, 86, 87, 97, 96, 84])),
            ),
        );
        let mut order: Vec<String> = Vec::new();
        order.push(String::from_str("ring2"));
        order.push(String::from_str("roku1"));
        order.push(String::from_str("meals"));
        order.push(String::from_str("ring1"));
        order.push(String::from_str("command"));
        order.push(String::from_str("toggles"));
        order.push(String::from_str("toggles2"));
        proof {
            reveal_strlit("roku1");
            reveal_strlit("meals");
            reveal_strlit("command");
            reveal_strlit("ring1");
            reveal_strlit("ring2");
            reveal_strlit("toggles");
            reveal_strlit("toggles2");
            let e = panels@.map_values(|e: (String, PanelDataInner)| entry_view(e));
            let o = order@.map_values(|s: String| s@);
            assert(e[0].0 == "roku1"@);
            assert(e[1].0 == "meals"@);
            assert(e[2].0 == "command"@);
            assert(e[3].0 == "ring1"@);
            assert(e[4].0 == "ring2"@);
            assert(e[5].0 == "toggles"@);
            assert(e[6].0 == "toggles2"@);
            lemma_initial_ids_distinct();
            assert(o =~= initial_order());
            assert(unique_ids(e));
            assert(no_duplicates(o));
            assert(o[0] == "ring2"@ && o[1] == "roku1"@ && o[2] == "meals"@ && o[3] == "ring1"@);
            assert(o[4] == "command"@ && o[5] == "toggles"@ && o[6] == "toggles2"@);
            assert forall|i: int| 0 <= i < e.len() implies o.contains(#[trigger] e[i].0) by {
                if i == 0 { assert(o[1] == e[i].0); }
                if i == 1 { assert(o[2] == e[i].0); }
                if i == 2 { assert(o[4] == e[i].0); }
                if i == 3 { assert(o[3] == e[i].0); }
                if i == 4 { assert(o[0] == e[i].0); }
                if i == 5 { assert(o[5] == e[i].0); }
                if i == 6 { assert(o[6] == e[i].0); }
            }
            assert(o.contains(toggles_id())) by { assert(o[5] == toggles_id()); }
        }
        let r = DashboardLayout { panels, component_order: order };
        proof {
            let e = r.entries();
            assert(e.len() == 7);
            assert(e[0].0 == "roku1"@);
            assert(e[1].0 == "meals"@);
            assert(e[2].0 == "command"@);
            assert(e[3].0 == "ring1"@);
            assert(e[4].0 == "ring2"@);
            assert(e[5].0 == "toggles"@);
            assert(e[6].0 == "toggles2"@);
            reveal_with_fuel(entries_map, 8);
            assert(r.panels() =~= initial_panels());
            assert(r.order() =~= initial_order());
        }
        r
    }

    /// Panel ids are unique, the order lists each id once, every panel is
    /// listed in the order, and so is the toggles panel.
    #[verifier::type_invariant]
    closed spec fn well_formed(&self) -> bool {
        &&& unique_ids(self.entries())
        &&& no_duplicates(self.order())
        &&& forall|i: int| 0 <= i < self.entries().len() ==> self.order().contains(#[trigger] self.entries()[i].0)
        &&& self.order().contains(toggles_id())
    }
}

} // verus!
