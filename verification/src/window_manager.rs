//! The window manager's policy: which window is the primary one, what mode
//! each managed window is in, what resolution the screen has, and which
//! requests bring the server and the virtual windows in line after a change.
//!
//! The manager keeps the state and decides; it performs nothing itself. Each
//! operation returns the requests to perform, in order, as [`WmAction`]s: the
//! host sends those for X windows to the server and hands those for virtual
//! windows to the scripts' callbacks.

use vstd::prelude::*;
use vstd::string::*;
use crate::geometry::{
    AlignedGeometry, Alignment, CallbackId, Margin, MinGeometry, Mode, PrimaryDemotionAction,
    MAX_Z, MIN_Z,
};
use crate::screen::{
    is_vnc_output, resize_plan, resize_steps, InvalidResolution, ResizeStep, ScreenSizeRange,
};
use crate::search::{first_match, lemma_first_match_bounds, lemma_first_match_is};
use crate::text::{contains, has_occurrence, has_prefix, str_equals};

verus! {

/// The value of the property that marks a window as managed.
pub const MANAGED_HINT: &'static str = "MANAGED";

/// The name of the property that marks a window as managed.
pub const MANAGED_ATOM_NAME: &'static str = "_NEOPULT_MANAGED";

/// Identifier of a managed window: handed out in rising order, never twice.
pub type ManagedWid = usize;

/// The three script callbacks that realize a virtual window.
#[derive(Debug, PartialEq, Eq, Copy, Clone, Structural)]
pub struct VirtualWindowCallbacks {
    pub set_geometry_key: CallbackId,
    pub map_key: CallbackId,
    pub unmap_key: CallbackId,
}

/// What stands behind a managed window.
#[derive(Debug, Clone, PartialEq, Eq)]
pub enum WindowVariant {
    /// A window of the X server, by its identifier there.
    XWindow { window: u32 },
    /// A window that scripts draw themselves.
    VirtualWindow { name: String, callbacks: VirtualWindowCallbacks },
}

/// What a [`WindowVariant`] holds.
pub ghost enum VariantView {
    XWindow { window: u32 },
    VirtualWindow { name: Seq<char>, callbacks: VirtualWindowCallbacks },
}

impl View for WindowVariant {
    type V = VariantView;

    open spec fn view(&self) -> VariantView {
        match *self {
            WindowVariant::XWindow { window } => VariantView::XWindow { window },
            WindowVariant::VirtualWindow { name, callbacks } => VariantView::VirtualWindow {
                name: name@,
                callbacks,
            },
        }
    }
}

/// A window under the manager's control.
#[derive(Debug, Clone, PartialEq, Eq)]
pub struct ManagedWindow {
    id: ManagedWid,
    variant: WindowVariant,
    min_geometry: MinGeometry,
    mode: Mode,
    margin: Margin,
    demotion: PrimaryDemotionAction,
}

/// What a [`ManagedWindow`] holds.
pub ghost struct WindowView {
    pub id: ManagedWid,
    pub variant: VariantView,
    pub min_geometry: MinGeometry,
    pub mode: Mode,
    /// The margin that the window was last maximized with.
    pub margin: Margin,
    /// What becomes of the window when it loses primary status to another.
    pub demotion: PrimaryDemotionAction,
}

impl View for ManagedWindow {
    type V = WindowView;

    closed spec fn view(&self) -> WindowView {
        WindowView {
            id: self.id,
            variant: self.variant@,
            min_geometry: self.min_geometry,
            mode: self.mode,
            margin: self.margin,
            demotion: self.demotion,
        }
    }
}

/// Whom a request addresses: a window of the server, or a script callback.
#[derive(Debug, PartialEq, Eq, Copy, Clone, Structural)]
pub enum WindowTarget {
    X { window: u32 },
    Virtual { callback: CallbackId },
}

/// A request that the host performs on the manager's behalf.
#[derive(Debug, PartialEq, Eq, Copy, Clone, Structural)]
pub enum WmAction {
    /// Set the property that marks the window as managed.
    MarkManaged { window: u32 },
    /// Place the window. For a window of the server the placement is turned
    /// into absolute coordinates on a screen of the given size and the window
    /// is raised; for a virtual window its callback gets the offsets, the
    /// size, the alignment tag and `z`. A dynamic placement is asked of its
    /// callback first.
    Place {
        wid: ManagedWid,
        target: WindowTarget,
        placement: MinGeometry,
        z: u16,
        screen_width: u16,
        screen_height: u16,
    },
    /// Show the window.
    MapWindow { wid: ManagedWid, target: WindowTarget },
    /// Take the window off the screen.
    UnmapWindow { wid: ManagedWid, target: WindowTarget },
    /// Take one step of a change of resolution.
    Resize(ResizeStep),
}

/// Why the manager turned a request down.
#[derive(Debug, PartialEq, Eq, Copy, Clone, Structural)]
pub enum WmError {
    /// The output's name does not begin with `VNC`.
    NotVnc,
    /// No window is managed under this identifier.
    NotManaged { id: ManagedWid },
    /// The server does not allow this resolution.
    InvalidResolution(InvalidResolution),
    /// Every identifier has been handed out.
    IdsExhausted,
    /// The server did not say whether this window is managed.
    PropertyUnavailable { window: u32 },
}

/// What a [`WindowManager`] holds.
pub ghost struct WmView {
    pub screen_width: u16,
    pub screen_height: u16,
    pub range: ScreenSizeRange,
    /// The identifier that the next managed window gets.
    pub next_id: ManagedWid,
    /// The managed windows, in the order in which they were taken on.
    pub windows: Seq<WindowView>,
    pub primary: Option<ManagedWid>,
}

/// The test "has the identifier `id`" on windows.
pub open spec fn has_id(id: ManagedWid) -> spec_fn(WindowView) -> bool {
    |w: WindowView| w.id == id
}

/// The test "is in `Max` mode" on windows.
pub open spec fn is_max() -> spec_fn(WindowView) -> bool {
    |w: WindowView| w.mode is Max
}

/// The place of the window `id` among `windows`, and their number where it
/// is not among them.
pub open spec fn position_of(windows: Seq<WindowView>, id: ManagedWid) -> int {
    first_match(windows, has_id(id))
}

/// Whether the window `id` is among `windows`.
pub open spec fn is_managed(windows: Seq<WindowView>, id: ManagedWid) -> bool {
    position_of(windows, id) < windows.len()
}

/// The window that becomes primary when the primary window gives way: the
/// first in `Max` mode, in the order in which the windows were taken on.
pub open spec fn new_primary(windows: Seq<WindowView>) -> Option<ManagedWid> {
    let i = first_match(windows, is_max());
    if i < windows.len() {
        Some(windows[i].id)
    } else {
        None
    }
}

/// Whom a change of geometry of the window addresses.
pub open spec fn place_target(w: WindowView) -> WindowTarget {
    match w.variant {
        VariantView::XWindow { window } => WindowTarget::X { window },
        VariantView::VirtualWindow { callbacks, .. } => WindowTarget::Virtual {
            callback: callbacks.set_geometry_key,
        },
    }
}

/// Whom showing the window addresses.
pub open spec fn map_target(w: WindowView) -> WindowTarget {
    match w.variant {
        VariantView::XWindow { window } => WindowTarget::X { window },
        VariantView::VirtualWindow { callbacks, .. } => WindowTarget::Virtual {
            callback: callbacks.map_key,
        },
    }
}

/// Whom hiding the window addresses.
pub open spec fn unmap_target(w: WindowView) -> WindowTarget {
    match w.variant {
        VariantView::XWindow { window } => WindowTarget::X { window },
        VariantView::VirtualWindow { callbacks, .. } => WindowTarget::Virtual {
            callback: callbacks.unmap_key,
        },
    }
}

/// The request that puts a window at its minimum placement.
pub open spec fn min_place(w: WindowView, screen_width: u16, screen_height: u16) -> WmAction {
    WmAction::Place {
        wid: w.id,
        target: place_target(w),
        placement: w.min_geometry,
        z: MIN_Z,
        screen_width,
        screen_height,
    }
}

/// Where a primary window of the given size is put: at the top left corner
/// of the screen, and for a window of the server off that corner by the left
/// and the top margin. A virtual window has no margin.
pub open spec fn max_placement(w: WindowView, width: u16, height: u16) -> AlignedGeometry {
    match w.variant {
        VariantView::XWindow { .. } => AlignedGeometry {
            x_offset: w.margin.left,
            y_offset: w.margin.top,
            width,
            height,
            alignment: Alignment::TopLeft,
        },
        VariantView::VirtualWindow { .. } => AlignedGeometry {
            x_offset: 0,
            y_offset: 0,
            width,
            height,
            alignment: Alignment::TopLeft,
        },
    }
}

/// The requests that put every window in `Min` mode at its minimum placement
/// on a screen of the given size, in the order of the windows.
pub open spec fn min_placements(
    windows: Seq<WindowView>,
    screen_width: u16,
    screen_height: u16,
) -> Seq<WmAction>
    decreases windows.len(),
{
    if windows.len() == 0 {
        Seq::empty()
    } else {
        let head = min_placements(windows.drop_last(), screen_width, screen_height);
        if windows.last().mode == Mode::Min {
            head.push(min_place(windows.last(), screen_width, screen_height))
        } else {
            head
        }
    }
}

/// The steps of a change of resolution, as requests.
pub open spec fn resize_actions(
    current_width: u16,
    current_height: u16,
    width: u16,
    height: u16,
) -> Seq<WmAction> {
    resize_plan(current_width, current_height, width, height).map_values(
        |s: ResizeStep| WmAction::Resize(s),
    )
}

/// The size of the primary window, where there is one and it is in `Max`
/// mode.
pub open spec fn primary_size(v: WmView) -> Option<(u16, u16)> {
    match v.primary {
        Some(p) => if is_managed(v.windows, p) {
            match v.windows[position_of(v.windows, p)].mode {
                Mode::Max { width, height } => Some((width, height)),
                _ => None,
            }
        } else {
            None
        },
        None => None,
    }
}

/// The state after the windows were repositioned: the screen has the size of
/// the primary window, where there is one.
pub open spec fn repositioned(v: WmView) -> WmView {
    match primary_size(v) {
        Some((width, height)) => WmView { screen_width: width, screen_height: height, ..v },
        None => v,
    }
}

/// The requests that reposition the windows. The primary window, if there is
/// one, is put at the top left corner in its full size, with stacking level
/// `MAX_Z`, and the resolution is changed to its size. Then every window in
/// `Min` mode is put at its minimum placement on the screen as it then is.
pub open spec fn reposition_actions(v: WmView) -> Seq<WmAction> {
    match primary_size(v) {
        Some((width, height)) => {
            let w = v.windows[position_of(v.windows, v.primary->0)];
            seq![
                WmAction::Place {
                    wid: w.id,
                    target: place_target(w),
                    placement: MinGeometry::Fixed(max_placement(w, width, height)),
                    z: MAX_Z,
                    screen_width: v.screen_width,
                    screen_height: v.screen_height,
                },
            ] + resize_actions(v.screen_width, v.screen_height, width, height) + min_placements(
                v.windows,
                width,
                height,
            )
        },
        None => min_placements(v.windows, v.screen_width, v.screen_height),
    }
}

/// Whether the screen, as the manager knows it, has the size of the primary
/// window. It has after every operation that repositions the windows; it may
/// not have once the host reports another size, because the server refused a
/// change or changed by itself.
pub open spec fn screen_follows_primary(v: WmView) -> bool {
    v.primary is Some ==> primary_size(v) == Some((v.screen_width, v.screen_height))
}

/// The invariant of the manager. The identifiers of the windows rise with
/// the order in which they were taken on and lie below the next one to hand
/// out. Every window in `Max` mode has a size that the server allows. The
/// primary window, if there is one, is managed and in `Max` mode.
pub open spec fn wm_wf(v: WmView) -> bool {
    &&& forall|i: int, j: int|
        0 <= i < j < v.windows.len() ==> (#[trigger] v.windows[i]).id < (#[trigger] v.windows[j]).id
    &&& forall|i: int| 0 <= i < v.windows.len() ==> (#[trigger] v.windows[i]).id < v.next_id
    &&& forall|i: int|
        0 <= i < v.windows.len() ==> ((#[trigger] v.windows[i]).mode matches Mode::Max {
            width,
            height,
        } ==> v.range.allows(width, height))
    &&& v.primary is Some ==> primary_size(v) is Some
}

/// A window as it is right after it was taken on: in `Min` mode, without a
/// margin.
pub open spec fn fresh_window(
    id: ManagedWid,
    variant: VariantView,
    min_geometry: MinGeometry,
    demotion: PrimaryDemotionAction,
) -> WindowView {
    WindowView {
        id,
        variant,
        min_geometry,
        mode: Mode::Min,
        margin: Margin { top: 0, right: 0, bottom: 0, left: 0 },
        demotion,
    }
}

/// The state after a window was taken on under the next identifier.
pub open spec fn with_window(v: WmView, w: WindowView) -> WmView {
    WmView { windows: v.windows.push(w), next_id: (v.next_id + 1) as ManagedWid, ..v }
}

/// The windows after the primary window made way for the window `id`, and
/// the request that goes with it. A primary window other than `id` is put in
/// `Min` mode, or hidden and taken off the screen, as its own demotion action
/// says.
pub open spec fn demoted(v: WmView, id: ManagedWid) -> (Seq<WindowView>, Seq<WmAction>) {
    match v.primary {
        Some(p) => if p != id && is_managed(v.windows, p) {
            let q = position_of(v.windows, p);
            let w = v.windows[q];
            match w.demotion {
                PrimaryDemotionAction::Minimize => (
                    v.windows.update(q, WindowView { mode: Mode::Min, ..w }),
                    Seq::empty(),
                ),
                PrimaryDemotionAction::Hide => (
                    v.windows.update(q, WindowView { mode: Mode::Hidden, ..w }),
                    seq![WmAction::UnmapWindow { wid: p, target: unmap_target(w) }],
                ),
            }
        } else {
            (v.windows, Seq::empty())
        },
        None => (v.windows, Seq::empty()),
    }
}

/// The request that shows a window that was hidden, and nothing for a window
/// that was on the screen.
pub open spec fn shown_again(w: WindowView) -> Seq<WmAction> {
    if w.mode == Mode::Hidden {
        seq![WmAction::MapWindow { wid: w.id, target: map_target(w) }]
    } else {
        Seq::empty()
    }
}

/// Maximizing the managed window `id` at the given size: it is put in `Max`
/// mode and becomes the primary window, the primary window before it is
/// demoted, and the windows are repositioned. The requests show the window
/// if it was hidden, dismiss the demoted window, and reposition.
pub open spec fn max_step(v: WmView, id: ManagedWid, width: u16, height: u16, margin: Margin) -> (
    WmView,
    Seq<WmAction>,
) {
    let i = position_of(v.windows, id);
    let w = v.windows[i];
    let v1 = WmView {
        windows: demoted(v, id).0.update(
            i,
            WindowView { mode: Mode::Max { width, height }, margin, ..w },
        ),
        primary: Some(id),
        ..v
    };
    (repositioned(v1), shown_again(w) + demoted(v, id).1 + reposition_actions(v1))
}

/// The state and the requests after the primary window gave way in
/// `windows`: the first window in `Max` mode becomes primary, and the
/// windows are repositioned.
pub open spec fn primary_replaced(v: WmView, windows: Seq<WindowView>) -> (WmView, Seq<WmAction>) {
    let v1 = WmView { windows, primary: new_primary(windows), ..v };
    (repositioned(v1), reposition_actions(v1))
}

/// Minimizing the managed window `id`: it is put in `Min` mode; if it was
/// the primary window, another is chosen and the windows are repositioned;
/// then it is shown if it was hidden, and put at its minimum placement.
pub open spec fn min_step(v: WmView, id: ManagedWid) -> (WmView, Seq<WmAction>) {
    let i = position_of(v.windows, id);
    let w = v.windows[i];
    let windows = v.windows.update(i, WindowView { mode: Mode::Min, ..w });
    let (v1, first) = if v.primary == Some(id) {
        primary_replaced(v, windows)
    } else {
        (WmView { windows, ..v }, Seq::empty())
    };
    (v1, first + shown_again(w) + seq![min_place(w, v1.screen_width, v1.screen_height)])
}

/// Hiding the managed window `id`: nothing happens to a hidden window; a
/// window on the screen is put in `Hidden` mode and taken off the screen,
/// and if it was the primary window, another is chosen and the windows are
/// repositioned.
pub open spec fn hide_step(v: WmView, id: ManagedWid) -> (WmView, Seq<WmAction>) {
    let i = position_of(v.windows, id);
    let w = v.windows[i];
    let windows = v.windows.update(i, WindowView { mode: Mode::Hidden, ..w });
    let gone = seq![WmAction::UnmapWindow { wid: id, target: unmap_target(w) }];
    if w.mode == Mode::Hidden {
        (v, Seq::empty())
    } else if v.primary == Some(id) {
        (primary_replaced(v, windows).0, gone + primary_replaced(v, windows).1)
    } else {
        (WmView { windows, ..v }, gone)
    }
}

/// Releasing the managed window `id`: its record is discarded; if it was the
/// primary window, another is chosen and the windows are repositioned.
pub open spec fn release_step(v: WmView, id: ManagedWid) -> (WmView, Seq<WmAction>) {
    let i = position_of(v.windows, id);
    let windows = v.windows.remove(i);
    if v.primary == Some(id) {
        primary_replaced(v, windows)
    } else {
        (WmView { windows, ..v }, Seq::empty())
    }
}

/// Repositioning keeps the state well formed and gives the screen the size
/// of the primary window.
pub proof fn lemma_repositioned_wf(v: WmView)
    requires
        wm_wf(v),
    ensures
        wm_wf(repositioned(v)),
        screen_follows_primary(repositioned(v)),
        screen_follows_primary(v) ==> repositioned(v) == v,
{
}

/// Taking on a window in `Min` mode under the next identifier keeps the
/// state well formed.
pub proof fn lemma_with_window_wf(v: WmView, w: WindowView)
    requires
        wm_wf(v),
        w.id == v.next_id,
        v.next_id < usize::MAX,
        w.mode == Mode::Min,
    ensures
        wm_wf(with_window(v, w)),
        screen_follows_primary(v) ==> screen_follows_primary(with_window(v, w)),
{
    let after = with_window(v, w);
    assert forall|a: int, b: int| 0 <= a < b < after.windows.len() implies (
        #[trigger] after.windows[a]).id < (#[trigger] after.windows[b]).id by {
        if b < v.windows.len() {
            assert(v.windows[a].id < v.windows[b].id);
        } else {
            assert(v.windows[a].id < v.next_id);
        }
    }
    assert forall|k: int| 0 <= k < after.windows.len() implies (
        #[trigger] after.windows[k]).id < after.next_id by {
        if k < v.windows.len() {
            assert(v.windows[k].id < v.next_id);
        }
    }
    assert forall|k: int| 0 <= k < after.windows.len() implies ((
        #[trigger] after.windows[k]).mode matches Mode::Max { width: mw, height: mh }
        ==> after.range.allows(mw, mh)) by {
        if k < v.windows.len() {
            assert(v.windows[k].mode matches Mode::Max { width: mw, height: mh } ==> v.range.allows(
                mw,
                mh,
            ));
        }
    }
    if v.primary is Some {
        let p = v.primary->0;
        lemma_first_match_bounds(v.windows, has_id(p));
        let q = position_of(v.windows, p);
        assert forall|k: int| 0 <= k < q implies !has_id(p)(#[trigger] after.windows[k]) by {
            assert(after.windows[k] == v.windows[k]);
        }
        assert(after.windows[q] == v.windows[q]);
        lemma_first_match_is(after.windows, has_id(p), q);
    }
}

/// Windows with the same identifiers in the same places have every
/// identifier at the same place.
pub proof fn lemma_same_ids_same_positions(a: Seq<WindowView>, b: Seq<WindowView>, id: ManagedWid)
    requires
        a.len() == b.len(),
        forall|k: int| 0 <= k < a.len() ==> (#[trigger] a[k]).id == b[k].id,
    ensures
        position_of(a, id) == position_of(b, id),
{
    lemma_first_match_bounds(a, has_id(id));
    let i = position_of(a, id);
    assert forall|k: int| 0 <= k < i implies !has_id(id)(#[trigger] b[k]) by {
        assert(!has_id(id)(a[k]));
    }
    if i < a.len() {
        assert(has_id(id)(a[i]));
    }
    lemma_first_match_is(b, has_id(id), i);
}

/// Among windows whose identifiers rise, each window stands at the place of
/// its identifier.
pub proof fn lemma_position_of_own_id(windows: Seq<WindowView>, i: int)
    requires
        0 <= i < windows.len(),
        forall|a: int, b: int|
            0 <= a < b < windows.len() ==> (#[trigger] windows[a]).id < (#[trigger] windows[b]).id,
    ensures
        position_of(windows, windows[i].id) == i,
{
    assert forall|k: int| 0 <= k < i implies !has_id(windows[i].id)(#[trigger] windows[k]) by {
        assert(windows[k].id < windows[i].id);
    }
    lemma_first_match_is(windows, has_id(windows[i].id), i);
}

/// Choosing a new primary window among well-formed windows and
/// repositioning gives a well-formed state.
pub proof fn lemma_primary_replaced_wf(v: WmView, windows: Seq<WindowView>)
    requires
        wm_wf(WmView { windows, primary: None, ..v }),
    ensures
        wm_wf(primary_replaced(v, windows).0),
        screen_follows_primary(primary_replaced(v, windows).0),
        primary_replaced(v, windows).0.windows == windows,
        primary_replaced(v, windows).0.next_id == v.next_id,
        primary_replaced(v, windows).0.range == v.range,
{
    let v1 = WmView { windows, primary: new_primary(windows), ..v };
    lemma_first_match_bounds(windows, is_max());
    let i = first_match(windows, is_max());
    if i < windows.len() {
        lemma_position_of_own_id(windows, i);
        assert(is_max()(windows[i]));
    }
}

/// Maximizing a managed window at a size that the server allows keeps the
/// state well formed, makes the window the primary one and gives the screen
/// its size.
pub proof fn lemma_max_step_wf(v: WmView, id: ManagedWid, width: u16, height: u16, margin: Margin)
    requires
        wm_wf(v),
        is_managed(v.windows, id),
        v.range.allows(width, height),
    ensures
        wm_wf(max_step(v, id, width, height, margin).0),
        screen_follows_primary(max_step(v, id, width, height, margin).0),
        max_step(v, id, width, height, margin).0.primary == Some(id),
        max_step(v, id, width, height, margin).0.screen_width == width,
        max_step(v, id, width, height, margin).0.screen_height == height,
{
    let i = position_of(v.windows, id);
    lemma_first_match_bounds(v.windows, has_id(id));
    let w = v.windows[i];
    let ws0 = demoted(v, id).0;
    if v.primary is Some {
        lemma_first_match_bounds(v.windows, has_id(v.primary->0));
    }
    assert(ws0.len() == v.windows.len());
    assert forall|k: int| 0 <= k < ws0.len() implies (#[trigger] ws0[k]).id == v.windows[k].id by {}
    let ws1 = ws0.update(i, WindowView { mode: Mode::Max { width, height }, margin, ..w });
    let v1 = WmView { windows: ws1, primary: Some(id), ..v };
    assert forall|k: int| 0 <= k < ws1.len() implies (#[trigger] ws1[k]).id == v.windows[k].id by {
        assert(ws0[k].id == v.windows[k].id);
    }
    lemma_same_ids_same_positions(ws1, v.windows, id);
    assert(position_of(ws1, id) == i);
    assert(primary_size(v1) == Some((width, height)));
    let after = repositioned(v1);
    assert forall|a: int, b: int| 0 <= a < b < after.windows.len() implies (
        #[trigger] after.windows[a]).id < (#[trigger] after.windows[b]).id by {
        assert(v.windows[a].id < v.windows[b].id);
    }
    assert forall|k: int| 0 <= k < after.windows.len() implies (
        #[trigger] after.windows[k]).id < after.next_id by {
        assert(v.windows[k].id < v.next_id);
    }
    assert forall|k: int| 0 <= k < after.windows.len() implies ((
        #[trigger] after.windows[k]).mode matches Mode::Max { width: mw, height: mh }
        ==> after.range.allows(mw, mh)) by {
        if k != i {
            assert(v.windows[k].mode matches Mode::Max { width: mw, height: mh } ==> v.range.allows(
                mw,
                mh,
            ));
        }
    }
    assert(primary_size(after) == Some((width, height)));
}

/// Minimizing a managed window keeps the state well formed.
pub proof fn lemma_min_step_wf(v: WmView, id: ManagedWid)
    requires
        wm_wf(v),
        is_managed(v.windows, id),
    ensures
        wm_wf(min_step(v, id).0),
        screen_follows_primary(v) ==> screen_follows_primary(min_step(v, id).0),
{
    let i = position_of(v.windows, id);
    lemma_first_match_bounds(v.windows, has_id(id));
    let w = v.windows[i];
    let windows = v.windows.update(i, WindowView { mode: Mode::Min, ..w });
    let bare = WmView { windows, primary: None, ..v };
    assert forall|a: int, b: int| 0 <= a < b < windows.len() implies (#[trigger] windows[a]).id < (
        #[trigger] windows[b]).id by {
        assert(v.windows[a].id < v.windows[b].id);
    }
    assert forall|k: int| 0 <= k < windows.len() implies (#[trigger] windows[k]).id
        < v.next_id by {
        assert(v.windows[k].id < v.next_id);
    }
    assert forall|k: int| 0 <= k < windows.len() implies ((
        #[trigger] windows[k]).mode matches Mode::Max { width: mw, height: mh }
        ==> v.range.allows(mw, mh)) by {
        if k != i {
            assert(v.windows[k].mode matches Mode::Max { width: mw, height: mh } ==> v.range.allows(
                mw,
                mh,
            ));
        }
    }
    assert(wm_wf(bare));
    if v.primary == Some(id) {
        lemma_primary_replaced_wf(v, windows);
    } else if v.primary is Some {
        let p = v.primary->0;
        lemma_first_match_bounds(v.windows, has_id(p));
        lemma_same_ids_same_positions(windows, v.windows, p);
    }
}

/// Hiding a managed window keeps the state well formed.
pub proof fn lemma_hide_step_wf(v: WmView, id: ManagedWid)
    requires
        wm_wf(v),
        is_managed(v.windows, id),
    ensures
        wm_wf(hide_step(v, id).0),
        screen_follows_primary(v) ==> screen_follows_primary(hide_step(v, id).0),
{
    let i = position_of(v.windows, id);
    lemma_first_match_bounds(v.windows, has_id(id));
    let w = v.windows[i];
    let windows = v.windows.update(i, WindowView { mode: Mode::Hidden, ..w });
    let bare = WmView { windows, primary: None, ..v };
    assert forall|a: int, b: int| 0 <= a < b < windows.len() implies (#[trigger] windows[a]).id < (
        #[trigger] windows[b]).id by {
        assert(v.windows[a].id < v.windows[b].id);
    }
    assert forall|k: int| 0 <= k < windows.len() implies (#[trigger] windows[k]).id
        < v.next_id by {
        assert(v.windows[k].id < v.next_id);
    }
    assert forall|k: int| 0 <= k < windows.len() implies ((
        #[trigger] windows[k]).mode matches Mode::Max { width: mw, height: mh }
        ==> v.range.allows(mw, mh)) by {
        if k != i {
            assert(v.windows[k].mode matches Mode::Max { width: mw, height: mh } ==> v.range.allows(
                mw,
                mh,
            ));
        }
    }
    assert(wm_wf(bare));
    if w.mode == Mode::Hidden {
    } else if v.primary == Some(id) {
        lemma_primary_replaced_wf(v, windows);
    } else if v.primary is Some {
        let p = v.primary->0;
        lemma_first_match_bounds(v.windows, has_id(p));
        lemma_same_ids_same_positions(windows, v.windows, p);
    }
}

/// Releasing a managed window keeps the state well formed.
pub proof fn lemma_release_step_wf(v: WmView, id: ManagedWid)
    requires
        wm_wf(v),
        is_managed(v.windows, id),
    ensures
        wm_wf(release_step(v, id).0),
        screen_follows_primary(v) ==> screen_follows_primary(release_step(v, id).0),
{
    let i = position_of(v.windows, id);
    lemma_first_match_bounds(v.windows, has_id(id));
    let windows = v.windows.remove(i);
    let bare = WmView { windows, primary: None, ..v };
    assert forall|k: int| 0 <= k < windows.len() implies #[trigger] windows[k] == v.windows[if k
        < i {
        k
    } else {
        k + 1
    }] by {}
    assert forall|a: int, b: int| 0 <= a < b < windows.len() implies (#[trigger] windows[a]).id < (
        #[trigger] windows[b]).id by {
        let a0 = if a < i {
            a
        } else {
            a + 1
        };
        let b0 = if b < i {
            b
        } else {
            b + 1
        };
        assert(v.windows[a0].id < v.windows[b0].id);
    }
    assert forall|k: int| 0 <= k < windows.len() implies (#[trigger] windows[k]).id
        < v.next_id by {
        let k0 = if k < i {
            k
        } else {
            k + 1
        };
        assert(v.windows[k0].id < v.next_id);
    }
    assert forall|k: int| 0 <= k < windows.len() implies ((
        #[trigger] windows[k]).mode matches Mode::Max { width: mw, height: mh }
        ==> v.range.allows(mw, mh)) by {
        let k0 = if k < i {
            k
        } else {
            k + 1
        };
        assert(v.windows[k0].mode matches Mode::Max { width: mw, height: mh } ==> v.range.allows(
            mw,
            mh,
        ));
    }
    assert(wm_wf(bare));
    if v.primary == Some(id) {
        lemma_primary_replaced_wf(v, windows);
    } else if v.primary is Some {
        let p = v.primary->0;
        lemma_first_match_bounds(v.windows, has_id(p));
        let q = position_of(v.windows, p);
        let q1 = if q < i {
            q
        } else {
            q - 1
        };
        assert(windows[q1] == v.windows[q]);
        lemma_position_of_own_id(windows, q1);
    }
}

/// One call of a mode transition.
pub ghost enum WmCall {
    Max { id: ManagedWid, width: u16, height: u16, margin: Margin },
    Min { id: ManagedWid },
    Hide { id: ManagedWid },
    Unclaim { id: ManagedWid },
}

/// The state after one call: a call that is turned down leaves it as it is.
pub open spec fn after_call(v: WmView, call: WmCall) -> WmView {
    match call {
        WmCall::Max { id, width, height, margin } => if is_managed(v.windows, id)
            && v.range.allows(width, height) {
            max_step(v, id, width, height, margin).0
        } else {
            v
        },
        WmCall::Min { id } => if is_managed(v.windows, id) {
            min_step(v, id).0
        } else {
            v
        },
        WmCall::Hide { id } => if is_managed(v.windows, id) {
            hide_step(v, id).0
        } else {
            v
        },
        WmCall::Unclaim { id } => if is_managed(v.windows, id) {
            release_step(v, id).0
        } else {
            v
        },
    }
}

/// The state after a sequence of calls.
pub open spec fn after_calls(v: WmView, calls: Seq<WmCall>) -> WmView
    decreases calls.len(),
{
    if calls.len() == 0 {
        v
    } else {
        after_call(after_calls(v, calls.drop_last()), calls.last())
    }
}

/// After any sequence of calls the state is well formed: at most one window
/// is primary, and that window is managed and in `Max` mode. Where the
/// screen had the size of the primary window before the calls, it has after
/// them.
pub proof fn lemma_primary_after_calls(v: WmView, calls: Seq<WmCall>)
    requires
        wm_wf(v),
    ensures
        wm_wf(after_calls(v, calls)),
        after_calls(v, calls).primary matches Some(p) ==> {
            let after = after_calls(v, calls);
            &&& is_managed(after.windows, p)
            &&& after.windows[position_of(after.windows, p)].mode is Max
        },
        screen_follows_primary(v) ==> screen_follows_primary(after_calls(v, calls)),
        screen_follows_primary(v) ==> (after_calls(v, calls).primary matches Some(p) ==> {
            let after = after_calls(v, calls);
            after.windows[position_of(after.windows, p)].mode == Mode::Max {
                width: after.screen_width,
                height: after.screen_height,
            }
        }),
    decreases calls.len(),
{
    if calls.len() > 0 {
        lemma_primary_after_calls(v, calls.drop_last());
        let before = after_calls(v, calls.drop_last());
        match calls.last() {
            WmCall::Max { id, width, height, margin } => {
                if is_managed(before.windows, id) && before.range.allows(width, height) {
                    lemma_max_step_wf(before, id, width, height, margin);
                }
            },
            WmCall::Min { id } => {
                if is_managed(before.windows, id) {
                    lemma_min_step_wf(before, id);
                }
            },
            WmCall::Hide { id } => {
                if is_managed(before.windows, id) {
                    lemma_hide_step_wf(before, id);
                }
            },
            WmCall::Unclaim { id } => {
                if is_managed(before.windows, id) {
                    lemma_release_step_wf(before, id);
                }
            },
        }
    }
}

/// What the server says of one child of the root window.
#[derive(Debug, Clone, PartialEq, Eq)]
pub struct WindowProperties {
    pub window: u32,
    /// The window's class, where the server gave it.
    pub class: Option<String>,
    /// The value of the property that marks a managed window, where the
    /// server gave it; empty for a window without the property.
    pub managed_hint: Option<String>,
}

/// The window to claim for a class among the children of the root window, in
/// their order: the first whose class holds `class` and which is not marked
/// as managed. With `ignore_managed` the mark is not looked at. A child whose
/// class is not known is passed over; where the class fits and the mark is
/// not known, the search fails.
pub open spec fn window_to_claim(
    children: Seq<WindowProperties>,
    class: Seq<char>,
    ignore_managed: bool,
) -> Result<Option<u32>, WmError>
    decreases children.len(),
{
    if children.len() == 0 {
        Ok(None)
    } else {
        let c = children[0];
        let fits = match c.class {
            Some(name) => has_occurrence(name@, class),
            None => false,
        };
        if !fits {
            window_to_claim(children.drop_first(), class, ignore_managed)
        } else if ignore_managed {
            Ok(Some(c.window))
        } else {
            match c.managed_hint {
                None => Err(WmError::PropertyUnavailable { window: c.window }),
                Some(hint) => if hint@ != MANAGED_HINT@ {
                    Ok(Some(c.window))
                } else {
                    window_to_claim(children.drop_first(), class, ignore_managed)
                },
            }
        }
    }
}

impl ManagedWindow {
    /// The identifier of the window.
    pub fn id(&self) -> (r: ManagedWid)
        ensures
            r == self@.id,
    {
        self.id
    }

    /// The mode of the window.
    pub fn mode(&self) -> (r: Mode)
        ensures
            r == self@.mode,
    {
        self.mode
    }

    /// The minimum placement of the window.
    pub fn min_geometry(&self) -> (r: MinGeometry)
        ensures
            r == self@.min_geometry,
    {
        self.min_geometry
    }

    /// What stands behind the window.
    pub fn variant(&self) -> (r: &WindowVariant)
        ensures
            r@ == self@.variant,
    {
        &self.variant
    }

    /// Whom a change of geometry of the window addresses.
    fn place_target(&self) -> (r: WindowTarget)
        ensures
            r == place_target(self@),
    {
        match &self.variant {
            WindowVariant::XWindow { window } => WindowTarget::X { window: *window },
            WindowVariant::VirtualWindow { callbacks, .. } => WindowTarget::Virtual {
                callback: callbacks.set_geometry_key,
            },
        }
    }

    /// Whom showing the window addresses.
    fn map_target(&self) -> (r: WindowTarget)
        ensures
            r == map_target(self@),
    {
        match &self.variant {
            WindowVariant::XWindow { window } => WindowTarget::X { window: *window },
            WindowVariant::VirtualWindow { callbacks, .. } => WindowTarget::Virtual {
                callback: callbacks.map_key,
            },
        }
    }

    /// Whom hiding the window addresses.
    fn unmap_target(&self) -> (r: WindowTarget)
        ensures
            r == unmap_target(self@),
    {
        match &self.variant {
            WindowVariant::XWindow { window } => WindowTarget::X { window: *window },
            WindowVariant::VirtualWindow { callbacks, .. } => WindowTarget::Virtual {
                callback: callbacks.unmap_key,
            },
        }
    }

    /// Where the window is put as primary window of the given size.
    fn max_placement(&self, width: u16, height: u16) -> (r: AlignedGeometry)
        ensures
            r == max_placement(self@, width, height),
    {
        match &self.variant {
            WindowVariant::XWindow { .. } => AlignedGeometry {
                x_offset: self.margin.left,
                y_offset: self.margin.top,
                width,
                height,
                alignment: Alignment::TopLeft,
            },
            WindowVariant::VirtualWindow { .. } => AlignedGeometry::from_width_height(
                width,
                height,
            ),
        }
    }

    /// The request that puts the window at its minimum placement.
    fn min_place(&self, screen_width: u16, screen_height: u16) -> (r: WmAction)
        ensures
            r == min_place(self@, screen_width, screen_height),
    {
        WmAction::Place {
            wid: self.id,
            target: self.place_target(),
            placement: self.min_geometry,
            z: MIN_Z,
            screen_width,
            screen_height,
        }
    }
}

/// The window manager.
#[derive(Debug)]
pub struct WindowManager {
    screen_width: u16,
    screen_height: u16,
    screen_size_range: ScreenSizeRange,
    current_id: ManagedWid,
    managed_windows: Vec<ManagedWindow>,
    primary_window: Option<ManagedWid>,
}

impl View for WindowManager {
    type V = WmView;

    closed spec fn view(&self) -> WmView {
        WmView {
            screen_width: self.screen_width,
            screen_height: self.screen_height,
            range: self.screen_size_range,
            next_id: self.current_id,
            windows: self.managed_windows@.map_values(|w: ManagedWindow| w@),
            primary: self.primary_window,
        }
    }
}

impl WindowManager {
    /// Whether the manager's invariant holds.
    pub open spec fn wf(&self) -> bool {
        wm_wf(self@)
    }

    /// A manager for a screen of the given size on an output of the given
    /// name, with no window. Fails where the output is not that of a VNC
    /// server.
    pub fn init(
        screen_width: u16,
        screen_height: u16,
        screen_size_range: ScreenSizeRange,
        output_name: &str,
    ) -> (r: Result<WindowManager, WmError>)
        ensures
            match r {
                Ok(wm) => {
                    &&& has_prefix(output_name@, "VNC"@)
                    &&& wm.wf()
                    &&& wm@ == (WmView {
                        screen_width,
                        screen_height,
                        range: screen_size_range,
                        next_id: 0,
                        windows: Seq::empty(),
                        primary: None,
                    })
                },
                Err(e) => !has_prefix(output_name@, "VNC"@) && e == WmError::NotVnc,
            },
    {
        if !is_vnc_output(output_name) {
            return Err(WmError::NotVnc);
        }
        let wm = WindowManager {
            screen_width,
            screen_height,
            screen_size_range,
            current_id: 0,
            managed_windows: Vec::new(),
            primary_window: None,
        };
        assert(wm@.windows =~= Seq::<WindowView>::empty());
        Ok(wm)
    }

    /// The current resolution of the screen: width and height.
    pub fn screen_size(&self) -> (r: (u16, u16))
        ensures
            r == (self@.screen_width, self@.screen_height),
    {
        (self.screen_width, self.screen_height)
    }

    /// The primary window, if there is one.
    pub fn primary_window(&self) -> (r: Option<ManagedWid>)
        ensures
            r == self@.primary,
    {
        self.primary_window
    }

    /// Whether the window `id` is the primary window.
    pub fn is_primary_window(&self, id: ManagedWid) -> (r: bool)
        ensures
            r == (self@.primary == Some(id)),
    {
        match self.primary_window {
            Some(p) => p == id,
            None => false,
        }
    }

    /// The place of the window `id`.
    fn position(&self, id: ManagedWid) -> (r: Option<usize>)
        ensures
            self@.windows.len() == self.managed_windows.len(),
            match r {
                Some(i) => i == position_of(self@.windows, id) && i < self.managed_windows.len()
                    && self@.windows[i as int] == self.managed_windows@[i as int]@
                    && self.managed_windows@[i as int]@.id == id,
                None => !is_managed(self@.windows, id),
            },
    {
        let mut i: usize = 0;
        while i < self.managed_windows.len()
            invariant
                i <= self.managed_windows.len(),
                self@.windows.len() == self.managed_windows.len(),
                forall|k: int| 0 <= k < i ==> !has_id(id)(#[trigger] self@.windows[k]),
            decreases self.managed_windows.len() - i,
        {
            if self.managed_windows[i].id == id {
                proof {
                    assert(self@.windows[i as int] == self.managed_windows@[i as int]@);
                    lemma_first_match_is(self@.windows, has_id(id), i as int);
                }
                return Some(i);
            }
            assert(self@.windows[i as int] == self.managed_windows@[i as int]@);
            i += 1;
        }
        proof {
            lemma_first_match_is(self@.windows, has_id(id), i as int);
        }
        None
    }

    /// The managed window `id`.
    pub fn window(&self, id: ManagedWid) -> (r: Option<&ManagedWindow>)
        ensures
            match r {
                Some(w) => is_managed(self@.windows, id) && w@ == self@.windows[position_of(
                    self@.windows,
                    id,
                )],
                None => !is_managed(self@.windows, id),
            },
    {
        match self.position(id) {
            Some(i) => Some(&self.managed_windows[i]),
            None => None,
        }
    }

    /// The window to make primary when the primary window gives way.
    pub fn find_new_primary_window(&self) -> (r: Option<ManagedWid>)
        ensures
            r == new_primary(self@.windows),
    {
        let mut i: usize = 0;
        while i < self.managed_windows.len()
            invariant
                i <= self.managed_windows.len(),
                self@.windows.len() == self.managed_windows.len(),
                forall|k: int| 0 <= k < i ==> !is_max()(#[trigger] self@.windows[k]),
            decreases self.managed_windows.len() - i,
        {
            assert(self@.windows[i as int] == self.managed_windows@[i as int]@);
            match self.managed_windows[i].mode {
                Mode::Max { .. } => {
                    proof {
                        lemma_first_match_is(self@.windows, is_max(), i as int);
                    }
                    return Some(self.managed_windows[i].id);
                },
                _ => {},
            }
            i += 1;
        }
        proof {
            lemma_first_match_is(self@.windows, is_max(), i as int);
        }
        None
    }

    /// Adds to `out` the requests that put every window in `Min` mode at its
    /// minimum placement.
    fn push_min_placements(&self, out: &mut Vec<WmAction>)
        ensures
            final(out)@ == old(out)@ + min_placements(
                self@.windows,
                self@.screen_width,
                self@.screen_height,
            ),
    {
        let ghost before = out@;
        let ghost ws = self@.windows;
        let mut i: usize = 0;
        assert(ws.take(0) =~= Seq::<WindowView>::empty());
        assert(out@ =~= before + min_placements(ws.take(0), self.screen_width, self.screen_height));
        while i < self.managed_windows.len()
            invariant
                i <= self.managed_windows.len(),
                ws == self@.windows,
                ws.len() == self.managed_windows.len(),
                out@ == before + min_placements(
                    ws.take(i as int),
                    self.screen_width,
                    self.screen_height,
                ),
            decreases self.managed_windows.len() - i,
        {
            proof {
                assert(ws.take(i + 1).drop_last() =~= ws.take(i as int));
                assert(ws.take(i + 1).last() == self.managed_windows@[i as int]@);
            }
            match self.managed_windows[i].mode {
                Mode::Min => {
                    let action = self.managed_windows[i].min_place(
                        self.screen_width,
                        self.screen_height,
                    );
                    out.push(action);
                    assert(out@ =~= before + min_placements(
                        ws.take(i + 1),
                        self.screen_width,
                        self.screen_height,
                    ));
                },
                _ => {},
            }
            i += 1;
        }
        assert(ws.take(self.managed_windows.len() as int) =~= ws);
    }

    /// Repositions the windows and adds the requests to `out`.
    fn reposition_into(&mut self, out: &mut Vec<WmAction>)
        ensures
            final(self)@ == repositioned(old(self)@),
            final(out)@ == old(out)@ + reposition_actions(old(self)@),
    {
        let ghost v = self@;
        let ghost before = out@;
        let size: Option<(usize, u16, u16)> = match self.primary_window {
            Some(p) => match self.position(p) {
                Some(i) => match self.managed_windows[i].mode {
                    Mode::Max { width, height } => Some((i, width, height)),
                    _ => None,
                },
                None => None,
            },
            None => None,
        };
        match size {
            Some((i, width, height)) => {
                let w = &self.managed_windows[i];
                out.push(
                    WmAction::Place {
                        wid: w.id,
                        target: w.place_target(),
                        placement: MinGeometry::Fixed(w.max_placement(width, height)),
                        z: MAX_Z,
                        screen_width: self.screen_width,
                        screen_height: self.screen_height,
                    },
                );
                let steps = resize_steps(self.screen_width, self.screen_height, width, height);
                let mut k: usize = 0;
                let ghost placed = out@;
                let ghost wanted = resize_actions(v.screen_width, v.screen_height, width, height);
                assert(out@ =~= placed + wanted.take(0));
                while k < steps.len()
                    invariant
                        k <= steps.len(),
                        wanted.len() == steps.len(),
                        forall|n: int| 0 <= n < steps.len() ==> wanted[n] == WmAction::Resize(
                            steps@[n],
                        ),
                        out@ == placed + wanted.take(k as int),
                    decreases steps.len() - k,
                {
                    out.push(WmAction::Resize(steps[k]));
                    k += 1;
                    assert(out@ =~= placed + wanted.take(k as int));
                }
                assert(wanted.take(steps.len() as int) =~= wanted);
                self.screen_width = width;
                self.screen_height = height;
                assert(self@ == repositioned(v));
                self.push_min_placements(out);
                assert(out@ =~= before + reposition_actions(v));
            },
            None => {
                self.push_min_placements(out);
            },
        }
    }

    /// Puts every window where its mode says: the primary window over the
    /// whole screen, with the resolution set to its size, and each window in
    /// `Min` mode at its minimum placement. The change of resolution starts
    /// from the size that the manager knows; nothing is asked of the server
    /// where that is the primary window's size already.
    pub fn reposition_windows(&mut self) -> (actions: Vec<WmAction>)
        requires
            old(self).wf(),
        ensures
            final(self).wf(),
            screen_follows_primary(final(self)@),
            final(self)@ == repositioned(old(self)@),
            screen_follows_primary(old(self)@) ==> final(self)@ == old(self)@,
            actions@ == reposition_actions(old(self)@),
    {
        let mut out: Vec<WmAction> = Vec::new();
        proof {
            lemma_repositioned_wf(self@);
        }
        self.reposition_into(&mut out);
        assert(out@ =~= reposition_actions(old(self)@));
        out
    }

    /// Takes note of the size that the server says the screen has. The host
    /// reports it whenever a change of resolution did not go through as
    /// planned, so that the next change starts from the size that is, not
    /// from the size that was aimed at. Nothing else changes.
    pub fn screen_reported(&mut self, width: u16, height: u16)
        requires
            old(self).wf(),
        ensures
            final(self).wf(),
            final(self)@ == (WmView { screen_width: width, screen_height: height, ..old(self)@ }),
    {
        self.screen_width = width;
        self.screen_height = height;
    }

    /// Takes on a window of the X server. It gets the next identifier, is
    /// marked as managed, and is put in `Min` mode at its minimum placement.
    pub fn manage_x_window(&mut self, window: u32, min_geometry: MinGeometry) -> (r: Result<
        (ManagedWid, Vec<WmAction>),
        WmError,
    >)
        requires
            old(self).wf(),
        ensures
            final(self).wf(),
            screen_follows_primary(old(self)@) ==> screen_follows_primary(final(self)@),
            match r {
                Ok((id, actions)) => {
                    let w = fresh_window(
                        id,
                        VariantView::XWindow { window },
                        min_geometry,
                        PrimaryDemotionAction::Minimize,
                    );
                    &&& old(self)@.next_id < usize::MAX
                    &&& id == old(self)@.next_id
                    &&& final(self)@ == with_window(old(self)@, w)
                    &&& actions@ == seq![
                        WmAction::MarkManaged { window },
                        min_place(w, old(self)@.screen_width, old(self)@.screen_height),
                    ]
                },
                Err(e) => old(self)@.next_id == usize::MAX && e == WmError::IdsExhausted
                    && final(self)@ == old(self)@,
            },
    {
        if self.current_id == usize::MAX {
            return Err(WmError::IdsExhausted);
        }
        let id = self.current_id;
        let managed_window = ManagedWindow {
            id,
            variant: WindowVariant::XWindow { window },
            min_geometry,
            mode: Mode::Min,
            margin: Margin { top: 0, right: 0, bottom: 0, left: 0 },
            demotion: PrimaryDemotionAction::Minimize,
        };
        let mut actions: Vec<WmAction> = Vec::new();
        actions.push(WmAction::MarkManaged { window });
        actions.push(managed_window.min_place(self.screen_width, self.screen_height));
        let ghost v = self@;
        self.managed_windows.push(managed_window);
        self.current_id = id + 1;
        proof {
            assert(self@.windows =~= v.windows.push(managed_window@));
            lemma_with_window_wf(v, managed_window@);
        }
        Ok((id, actions))
    }

    /// Takes on a virtual window. It gets the next identifier and is put in
    /// `Min` mode at its minimum placement.
    pub fn manage_virtual_window(
        &mut self,
        name: String,
        callbacks: VirtualWindowCallbacks,
        min_geometry: MinGeometry,
        primary_demotion_action: PrimaryDemotionAction,
    ) -> (r: Result<(ManagedWid, Vec<WmAction>), WmError>)
        requires
            old(self).wf(),
        ensures
            final(self).wf(),
            screen_follows_primary(old(self)@) ==> screen_follows_primary(final(self)@),
            match r {
                Ok((id, actions)) => {
                    let w = fresh_window(
                        id,
                        VariantView::VirtualWindow { name: name@, callbacks },
                        min_geometry,
                        primary_demotion_action,
                    );
                    &&& old(self)@.next_id < usize::MAX
                    &&& id == old(self)@.next_id
                    &&& final(self)@ == with_window(old(self)@, w)
                    &&& actions@ == seq![
                        min_place(w, old(self)@.screen_width, old(self)@.screen_height),
                    ]
                },
                Err(e) => old(self)@.next_id == usize::MAX && e == WmError::IdsExhausted
                    && final(self)@ == old(self)@,
            },
    {
        if self.current_id == usize::MAX {
            return Err(WmError::IdsExhausted);
        }
        let id = self.current_id;
        let managed_window = ManagedWindow {
            id,
            variant: WindowVariant::VirtualWindow { name, callbacks },
            min_geometry,
            mode: Mode::Min,
            margin: Margin { top: 0, right: 0, bottom: 0, left: 0 },
            demotion: primary_demotion_action,
        };
        let mut actions: Vec<WmAction> = Vec::new();
        actions.push(managed_window.min_place(self.screen_width, self.screen_height));
        let ghost v = self@;
        self.managed_windows.push(managed_window);
        self.current_id = id + 1;
        proof {
            assert(self@.windows =~= v.windows.push(managed_window@));
            lemma_with_window_wf(v, managed_window@);
        }
        Ok((id, actions))
    }

    /// Maximizes a window: it becomes the primary window at the given size,
    /// the screen is given that size, and the window that was primary is
    /// demoted as its demotion action says. The margin is kept free around a
    /// window of the server. An unknown window and a size that the server
    /// does not allow are turned down, and nothing changes.
    pub fn max_window(&mut self, id: ManagedWid, size: (u16, u16), margin: Margin) -> (r: Result<
        Vec<WmAction>,
        WmError,
    >)
        requires
            old(self).wf(),
        ensures
            final(self).wf(),
            match r {
                Ok(actions) => {
                    &&& is_managed(old(self)@.windows, id)
                    &&& old(self)@.range.allows(size.0, size.1)
                    &&& final(self)@ == max_step(old(self)@, id, size.0, size.1, margin).0
                    &&& actions@ == max_step(old(self)@, id, size.0, size.1, margin).1
                    &&& final(self)@.primary == Some(id)
                    &&& final(self)@.screen_width == size.0
                    &&& final(self)@.screen_height == size.1
                    &&& screen_follows_primary(final(self)@)
                },
                Err(e) => {
                    &&& final(self)@ == old(self)@
                    &&& e == if !is_managed(old(self)@.windows, id) {
                        WmError::NotManaged { id }
                    } else {
                        WmError::InvalidResolution(
                            InvalidResolution {
                                width: size.0,
                                height: size.1,
                                range: old(self)@.range,
                            },
                        )
                    }
                    &&& !is_managed(old(self)@.windows, id) || !old(self)@.range.allows(
                        size.0,
                        size.1,
                    )
                },
            },
    {
        let ghost v = self@;
        let i = match self.position(id) {
            Some(i) => i,
            None => {
                return Err(WmError::NotManaged { id });
            },
        };
        let (width, height) = size;
        if !self.screen_size_range.contains(width, height) {
            return Err(
                WmError::InvalidResolution(
                    InvalidResolution { width, height, range: self.screen_size_range },
                ),
            );
        }
        let mut out: Vec<WmAction> = Vec::new();
        if self.managed_windows[i].mode == Mode::Hidden {
            out.push(WmAction::MapWindow { wid: id, target: self.managed_windows[i].map_target() });
        }
        assert(out@ =~= shown_again(v.windows[i as int]));
        if let Some(p) = self.primary_window {
            if p != id {
                if let Some(q) = self.position(p) {
                    match self.managed_windows[q].demotion {
                        PrimaryDemotionAction::Minimize => {
                            self.managed_windows[q].mode = Mode::Min;
                        },
                        PrimaryDemotionAction::Hide => {
                            out.push(
                                WmAction::UnmapWindow {
                                    wid: p,
                                    target: self.managed_windows[q].unmap_target(),
                                },
                            );
                            self.managed_windows[q].mode = Mode::Hidden;
                        },
                    }
                }
            }
        }
        proof {
            assert(self@.windows =~= demoted(v, id).0);
            assert(out@ =~= shown_again(v.windows[i as int]) + demoted(v, id).1);
        }
        self.managed_windows[i].mode = Mode::Max { width, height };
        self.managed_windows[i].margin = margin;
        self.primary_window = Some(id);
        proof {
            let w = v.windows[i as int];
            assert(self@.windows =~= demoted(v, id).0.update(
                i as int,
                WindowView { mode: Mode::Max { width, height }, margin, ..w },
            ));
            lemma_max_step_wf(v, id, width, height, margin);
        }
        self.reposition_into(&mut out);
        Ok(out)
    }

    /// Minimizes a window: it is put at its minimum placement, and shown if
    /// it was hidden. If it was the primary window, the first window in `Max`
    /// mode takes its place. An unknown window is turned down.
    pub fn min_window(&mut self, id: ManagedWid) -> (r: Result<Vec<WmAction>, WmError>)
        requires
            old(self).wf(),
        ensures
            final(self).wf(),
            screen_follows_primary(old(self)@) ==> screen_follows_primary(final(self)@),
            match r {
                Ok(actions) => {
                    &&& is_managed(old(self)@.windows, id)
                    &&& final(self)@ == min_step(old(self)@, id).0
                    &&& actions@ == min_step(old(self)@, id).1
                },
                Err(e) => {
                    &&& !is_managed(old(self)@.windows, id)
                    &&& final(self)@ == old(self)@
                    &&& e == (WmError::NotManaged { id })
                },
            },
    {
        let ghost v = self@;
        let i = match self.position(id) {
            Some(i) => i,
            None => {
                return Err(WmError::NotManaged { id });
            },
        };
        let was_hidden = self.managed_windows[i].mode == Mode::Hidden;
        self.managed_windows[i].mode = Mode::Min;
        let ghost w = v.windows[i as int];
        let ghost windows = v.windows.update(i as int, WindowView { mode: Mode::Min, ..w });
        assert(self@.windows =~= windows);
        let mut out: Vec<WmAction> = Vec::new();
        if self.is_primary_window(id) {
            self.primary_window = self.find_new_primary_window();
            self.reposition_into(&mut out);
            assert(out@ =~= primary_replaced(v, windows).1);
        }
        let ghost first = out@;
        if was_hidden {
            out.push(WmAction::MapWindow { wid: id, target: self.managed_windows[i].map_target() });
        }
        assert(self@.windows[i as int] == self.managed_windows@[i as int]@);
        out.push(self.managed_windows[i].min_place(self.screen_width, self.screen_height));
        proof {
            assert(out@ =~= first + shown_again(w) + seq![
                min_place(w, self@.screen_width, self@.screen_height),
            ]);
            lemma_min_step_wf(v, id);
        }
        Ok(out)
    }

    /// Hides a window: it is taken off the screen. If it was the primary
    /// window, the first window in `Max` mode takes its place. A window that
    /// is hidden already stays as it is. An unknown window is turned down.
    pub fn hide_window(&mut self, id: ManagedWid) -> (r: Result<Vec<WmAction>, WmError>)
        requires
            old(self).wf(),
        ensures
            final(self).wf(),
            screen_follows_primary(old(self)@) ==> screen_follows_primary(final(self)@),
            match r {
                Ok(actions) => {
                    &&& is_managed(old(self)@.windows, id)
                    &&& final(self)@ == hide_step(old(self)@, id).0
                    &&& actions@ == hide_step(old(self)@, id).1
                },
                Err(e) => {
                    &&& !is_managed(old(self)@.windows, id)
                    &&& final(self)@ == old(self)@
                    &&& e == (WmError::NotManaged { id })
                },
            },
    {
        let ghost v = self@;
        let i = match self.position(id) {
            Some(i) => i,
            None => {
                return Err(WmError::NotManaged { id });
            },
        };
        let mut out: Vec<WmAction> = Vec::new();
        if self.managed_windows[i].mode == Mode::Hidden {
            assert(out@ =~= hide_step(v, id).1);
            return Ok(out);
        }
        out.push(WmAction::UnmapWindow { wid: id, target: self.managed_windows[i].unmap_target() });
        self.managed_windows[i].mode = Mode::Hidden;
        let ghost w = v.windows[i as int];
        let ghost windows = v.windows.update(i as int, WindowView { mode: Mode::Hidden, ..w });
        assert(self@.windows =~= windows);
        if self.is_primary_window(id) {
            self.primary_window = self.find_new_primary_window();
            self.reposition_into(&mut out);
        }
        proof {
            assert(out@ =~= hide_step(v, id).1);
            lemma_hide_step_wf(v, id);
        }
        Ok(out)
    }

    /// Releases a window: the manager forgets it. If it was the primary
    /// window, the first window in `Max` mode takes its place. An unknown
    /// window is turned down.
    pub fn release_window(&mut self, id: ManagedWid) -> (r: Result<Vec<WmAction>, WmError>)
        requires
            old(self).wf(),
        ensures
            final(self).wf(),
            screen_follows_primary(old(self)@) ==> screen_follows_primary(final(self)@),
            match r {
                Ok(actions) => {
                    &&& is_managed(old(self)@.windows, id)
                    &&& final(self)@ == release_step(old(self)@, id).0
                    &&& actions@ == release_step(old(self)@, id).1
                },
                Err(e) => {
                    &&& !is_managed(old(self)@.windows, id)
                    &&& final(self)@ == old(self)@
                    &&& e == (WmError::NotManaged { id })
                },
            },
    {
        let ghost v = self@;
        let i = match self.position(id) {
            Some(i) => i,
            None => {
                return Err(WmError::NotManaged { id });
            },
        };
        let _ = self.managed_windows.remove(i);
        assert(self@.windows =~= v.windows.remove(i as int));
        let mut out: Vec<WmAction> = Vec::new();
        if self.is_primary_window(id) {
            self.primary_window = self.find_new_primary_window();
            self.reposition_into(&mut out);
        }
        proof {
            assert(out@ =~= release_step(v, id).1);
            lemma_release_step_wf(v, id);
        }
        Ok(out)
    }

    /// Picks the window to claim for a class among the children of the root
    /// window.
    pub fn get_window_by_class(
        children: &Vec<WindowProperties>,
        to_claim: &str,
        ignore_managed: bool,
    ) -> (r: Result<Option<u32>, WmError>)
        ensures
            r == window_to_claim(children@, to_claim@, ignore_managed),
    {
        let mut i: usize = 0;
        assert(children@.skip(0) =~= children@);
        while i < children.len()
            invariant
                i <= children.len(),
                window_to_claim(children@, to_claim@, ignore_managed) == window_to_claim(
                    children@.skip(i as int),
                    to_claim@,
                    ignore_managed,
                ),
            decreases children.len() - i,
        {
            let child = &children[i];
            proof {
                assert(children@.skip(i as int)[0] == children@[i as int]);
                assert(children@.skip(i as int).drop_first() =~= children@.skip(i + 1));
            }
            let fits = match &child.class {
                Some(name) => contains(name.as_str(), to_claim),
                None => false,
            };
            if fits {
                if ignore_managed {
                    return Ok(Some(child.window));
                }
                match &child.managed_hint {
                    None => {
                        return Err(WmError::PropertyUnavailable { window: child.window });
                    },
                    Some(hint) => {
                        if !str_equals(hint.as_str(), MANAGED_HINT) {
                            return Ok(Some(child.window));
                        }
                    },
                }
            }
            i += 1;
        }
        assert(children@.skip(children.len() as int) =~= Seq::<WindowProperties>::empty());
        Ok(None)
    }

    /// Whether a window is managed under `id`.
    pub fn ensure_managed(&self, id: ManagedWid) -> (r: Result<(), WmError>)
        ensures
            match r {
                Ok(_) => is_managed(self@.windows, id),
                Err(e) => !is_managed(self@.windows, id) && e == (WmError::NotManaged { id }),
            },
    {
        match self.position(id) {
            Some(_) => Ok(()),
            None => Err(WmError::NotManaged { id }),
        }
    }
}

} // verus!
