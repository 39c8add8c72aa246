//! What events and commands come to, in terms of what the reactor knows before and after and of what
//! it asks for.
use vstd::prelude::*;
use crate::actor::reactor::events::command::CommandTaken;
use crate::actor::reactor::events::drag::MouseUp;
use crate::actor::reactor::events::window::{FrameReading, MouseState, WindowInfo};
use crate::actor::reactor::managers::{
    Config, DragManager, DragState, KeyBinding, MissionControlState, WindowServerInfo,
    WorkspaceSwitchState,
};
use crate::actor::reactor::state::{Effect, ReactorModel, WmCmd};
use crate::layout_engine::{EngineModel, LayoutCommand, LayoutEvent};
use crate::model::geometry::Frame;
use crate::model::ids::{DisplayId, SpaceId, WindowId, WindowServerId};

verus! {

/// Two numbers are equal when their bits are, or when both are zero of either sign; what is no number
/// equals nothing. The bits of a number with a zero exponent and fraction are those of a zero.
pub proof fn numbers_are_equal_by_value(a: u64, b: u64)
    ensures
        crate::model::geometry::same_number(a, b) == crate::model::geometry::same_number(b, a),
        crate::model::geometry::same_number(a, b) ==> a == b || (a == 0 && b == 0x8000_0000_0000_0000)
            || (a == 0x8000_0000_0000_0000 && b == 0),
        a <= 0x7ff0_0000_0000_0000 ==> crate::model::geometry::same_number(a, a),
        0x8000_0000_0000_0000 <= a <= 0xfff0_0000_0000_0000 ==> crate::model::geometry::same_number(
            a,
            a,
        ),
        0x7ff0_0000_0000_0000 < a < 0x8000_0000_0000_0000 || a > 0xfff0_0000_0000_0000
            ==> !crate::model::geometry::same_number(a, b),
        crate::model::geometry::same_number(0, 0x8000_0000_0000_0000),
{
}

/// Frames have the same size exactly when they are equally wide and equally high, and are the same
/// when they also stand at the same place.
pub proof fn frames_are_compared_part_by_part(a: Frame, b: Frame)
    ensures
        a.same_size(b) <==> crate::model::geometry::same_number(a.width, b.width)
            && crate::model::geometry::same_number(a.height, b.height),
        a.same_frame(b) <==> crate::model::geometry::same_number(a.x, b.x)
            && crate::model::geometry::same_number(a.y, b.y)
            && crate::model::geometry::same_number(a.width, b.width)
            && crate::model::geometry::same_number(a.height, b.height),
{
}

/// When the layout is told of a resize, it is told of the window of the event, of the frame that was
/// on record and of the one that is on record now, which is that of the event, so that the two differ
/// in width or in height; and of the screens that show a space. The handler says that a window was
/// resized exactly when it tells the layout so, and then it asks for nothing else.
pub proof fn resize_is_told_with_both_frames(
    before: ReactorModel,
    after: ReactorModel,
    wid: WindowId,
    new_frame: Frame,
    last_seen: Option<u32>,
    requested: bool,
    mouse_state: Option<MouseState>,
    reading: FrameReading,
    resized: bool,
    effects: Seq<Effect>,
)
    requires
        crate::actor::reactor::events::window::takes_frame_change(
            before,
            after,
            wid,
            new_frame,
            last_seen,
            requested,
            mouse_state,
            reading,
            resized,
            effects,
        ),
    ensures
        resized <==> exists|i: int|
            0 <= i < effects.len() && (#[trigger] effects[i] matches Effect::Layout(
                LayoutEvent::WindowResized { .. },
            )),
        resized ==> effects.len() == 1,
        forall|i: int|
            0 <= i < effects.len() ==> (#[trigger] effects[i] matches Effect::Layout(
                LayoutEvent::WindowResized { wid: told, old_frame: from, new_frame: to, screens },
            ) ==> {
                &&& told == wid
                &&& before.windows.contains_key(wid)
                &&& from == before.windows[wid].frame_monotonic
                &&& after.windows.contains_key(wid)
                &&& to == after.windows[wid].frame_monotonic
                &&& to == new_frame
                &&& !(crate::model::geometry::same_number(from.width, to.width)
                    && crate::model::geometry::same_number(from.height, to.height))
                &&& screens@ == crate::actor::reactor::state::visible_screens(before.screens)
            }),
{
    let change = before.frame_change(wid, new_frame, last_seen, requested, mouse_state, reading);
    if change is Resized {
        assert(effects[0] matches Effect::Layout(LayoutEvent::WindowResized { .. }));
    }
}

/// A change of a frame counts for nothing, and nothing is asked for, when the window is not known,
/// while Mission Control is active, while the window is between screens, when the change was seen
/// before the last request for its frame was sent, and when it was asked for.
pub proof fn some_frame_changes_count_for_nothing(
    before: ReactorModel,
    after: ReactorModel,
    wid: WindowId,
    new_frame: Frame,
    last_seen: Option<u32>,
    requested: bool,
    mouse_state: Option<MouseState>,
    reading: FrameReading,
    resized: bool,
    effects: Seq<Effect>,
)
    requires
        crate::actor::reactor::events::window::takes_frame_change(
            before,
            after,
            wid,
            new_frame,
            last_seen,
            requested,
            mouse_state,
            reading,
            resized,
            effects,
        ),
        ({
            ||| !before.windows.contains_key(wid)
            ||| before.mission_control == MissionControlState::Active
            ||| before.windows[wid].window_server_id is Some && before.changing_screens.contains(
                before.windows[wid].window_server_id->0,
            )
            ||| requested
            ||| last_seen is Some && before.windows[wid].window_server_id is Some
                && before.transactions.contains_key(before.windows[wid].window_server_id->0)
                && before.transactions[before.windows[wid].window_server_id->0].txid != last_seen->0
            ||| last_seen is Some && last_seen->0 != 0 && (before.windows[wid].window_server_id is None
                || !before.transactions.contains_key(before.windows[wid].window_server_id->0))
        }),
    ensures
        after == before,
        effects.len() == 0,
        !resized,
{
}

/// A change that answers the last request for the window's frame asks for nothing and leaves the
/// workspaces alone. Where the request is on record, the answer counts when the frame is the one that
/// was asked for: it is put on record, unless it is the one on record already, and the request is
/// done with. Where no request is on record, a frame other than the one on record is put on record.
pub proof fn answered_request_is_done_with(
    before: ReactorModel,
    after: ReactorModel,
    wid: WindowId,
    new_frame: Frame,
    wsid: WindowServerId,
    seen: u32,
    mouse_state: Option<MouseState>,
    reading: FrameReading,
    resized: bool,
    effects: Seq<Effect>,
)
    requires
        before.windows.contains_key(wid),
        before.windows[wid].window_server_id == Some(wsid),
        before.mission_control != MissionControlState::Active,
        !before.changing_screens.contains(wsid),
        before.transactions.contains_key(wsid) ==> before.transactions[wsid].txid == seen,
        !before.transactions.contains_key(wsid) ==> seen == 0,
        crate::actor::reactor::events::window::takes_frame_change(
            before,
            after,
            wid,
            new_frame,
            Some(seen),
            false,
            mouse_state,
            reading,
            resized,
            effects,
        ),
    ensures
        effects.len() == 0,
        !resized,
        after == (ReactorModel {
            windows: after.windows,
            transactions: after.transactions,
            ..before
        }),
        after.windows.dom() == before.windows.dom(),
        forall|w: WindowId|
            w != wid && #[trigger] before.windows.contains_key(w) ==> after.windows[w]
                == before.windows[w],
        forall|x: WindowServerId|
            x != wsid ==> #[trigger] after.transactions.get(x) == before.transactions.get(x),
        before.transactions.contains_key(wsid) ==> {
            &&& after.windows[wid].frame_monotonic == if reading.is_as_requested
                && !reading.is_as_before {
                new_frame
            } else {
                before.windows[wid].frame_monotonic
            }
            &&& after.transactions.contains_key(wsid) <==> !reading.is_as_requested
            &&& !reading.is_as_requested ==> after.transactions[wsid] == before.transactions[wsid]
        },
        !before.transactions.contains_key(wsid) ==> {
            &&& after.windows[wid].frame_monotonic == if !reading.is_as_before {
                new_frame
            } else {
                before.windows[wid].frame_monotonic
            }
            &&& !after.transactions.contains_key(wsid)
        },
{
    assert(after.windows.dom() =~= before.windows.dom());
}

/// The user's doing: a change that no request announces and that nothing keeps from counting. The
/// frame is on record then, and nothing else of this window or of another has changed.
pub open spec fn is_the_users_doing(
    before: ReactorModel,
    wid: WindowId,
    last_seen: Option<u32>,
    requested: bool,
) -> bool {
    &&& before.windows.contains_key(wid)
    &&& before.mission_control != MissionControlState::Active
    &&& before.windows[wid].window_server_id is Some ==> !before.changing_screens.contains(
        before.windows[wid].window_server_id->0,
    )
    &&& last_seen is None
    &&& !requested
}

/// A frame that the user gives a window is put on record. Nothing else of this window or of another
/// changes, nor do requests, drags or switches; the workspaces change only when a window that is not
/// kept off the screen goes from one space to another while nothing is dragged.
pub proof fn frame_of_the_users_doing_is_recorded(
    before: ReactorModel,
    after: ReactorModel,
    wid: WindowId,
    new_frame: Frame,
    last_seen: Option<u32>,
    requested: bool,
    mouse_state: Option<MouseState>,
    reading: FrameReading,
    resized: bool,
    effects: Seq<Effect>,
)
    requires
        is_the_users_doing(before, wid, last_seen, requested),
        crate::actor::reactor::events::window::takes_frame_change(
            before,
            after,
            wid,
            new_frame,
            last_seen,
            requested,
            mouse_state,
            reading,
            resized,
            effects,
        ),
    ensures
        after.windows.dom() == before.windows.dom(),
        after.windows[wid].frame_monotonic == new_frame,
        after.windows[wid].window_server_id == before.windows[wid].window_server_id,
        after.windows[wid].is_minimized == before.windows[wid].is_minimized,
        after.windows[wid].is_ax_standard == before.windows[wid].is_ax_standard,
        after.windows[wid].is_ax_root == before.windows[wid].is_ax_root,
        after.windows[wid].is_manageable == before.windows[wid].is_manageable,
        forall|w: WindowId|
            w != wid && #[trigger] before.windows.contains_key(w) ==> after.windows[w]
                == before.windows[w],
        after == (ReactorModel { windows: after.windows, engine: after.engine, ..before }),
        after.engine == (EngineModel { workspaces: after.engine.workspaces, ..before.engine }),
        after.engine.workspaces != before.engine.workspaces ==> {
            &&& reading.new_space is Some
            &&& reading.old_space != reading.new_space
            &&& !before.engine.offscreen.contains_key(wid)
            &&& before.drag.drag_state == DragState::Inactive
            &&& mouse_state != Some(MouseState::Down)
        },
{
    assert(after.windows.dom() =~= before.windows.dom());
}

/// A frame that is the one on record asks for nothing.
pub proof fn same_frame_asks_for_nothing(
    before: ReactorModel,
    after: ReactorModel,
    wid: WindowId,
    new_frame: Frame,
    last_seen: Option<u32>,
    requested: bool,
    mouse_state: Option<MouseState>,
    reading: FrameReading,
    resized: bool,
    effects: Seq<Effect>,
)
    requires
        is_the_users_doing(before, wid, last_seen, requested),
        crate::model::geometry::same_number(before.windows[wid].frame_monotonic.x, new_frame.x),
        crate::model::geometry::same_number(before.windows[wid].frame_monotonic.y, new_frame.y),
        crate::model::geometry::same_number(
            before.windows[wid].frame_monotonic.width,
            new_frame.width,
        ),
        crate::model::geometry::same_number(
            before.windows[wid].frame_monotonic.height,
            new_frame.height,
        ),
        crate::actor::reactor::events::window::takes_frame_change(
            before,
            after,
            wid,
            new_frame,
            last_seen,
            requested,
            mouse_state,
            reading,
            resized,
            effects,
        ),
    ensures
        effects.len() == 0,
        !resized,
        after.engine == before.engine,
{
}

/// While a window is dragged, which is while the mouse button is down or a drag is under way, a new
/// frame begins the drag with the old frame, carries it on with the new one, and lets the window swap
/// with the one that it is over; a new size is marked in between. The layout is told of nothing.
pub proof fn drag_follows_the_frame(
    before: ReactorModel,
    after: ReactorModel,
    wid: WindowId,
    new_frame: Frame,
    last_seen: Option<u32>,
    requested: bool,
    mouse_state: Option<MouseState>,
    reading: FrameReading,
    resized: bool,
    effects: Seq<Effect>,
)
    requires
        is_the_users_doing(before, wid, last_seen, requested),
        mouse_state == Some(MouseState::Down) || before.drag.drag_state != DragState::Inactive,
        !before.windows[wid].frame_monotonic.same_frame(new_frame),
        crate::actor::reactor::events::window::takes_frame_change(
            before,
            after,
            wid,
            new_frame,
            last_seen,
            requested,
            mouse_state,
            reading,
            resized,
            effects,
        ),
    ensures
        !resized,
        after.engine == before.engine,
        effects[0] == Effect::EnsureActiveDrag(wid, before.windows[wid].frame_monotonic),
        effects[1] == Effect::UpdateActiveDrag(wid, new_frame),
        effects.last() == Effect::MaybeSwapOnDrag(wid, new_frame),
        before.windows[wid].frame_monotonic.same_size(new_frame) ==> effects.len() == 3,
        !before.windows[wid].frame_monotonic.same_size(new_frame) ==> effects.len() == 4
            && effects[2] == Effect::MarkDragDirty(wid),
{
}

/// Without a drag, a window that goes from one space to another, and is not kept off the screen, is
/// told to the layout as added to the new space, or as removed when it is on none, and the windows
/// are laid out anew. It is then in the workspace that the display of the new space shows; where no
/// display shows the space, or the display shows no workspace of its own, it stays where it is.
pub proof fn window_follows_the_space(
    before: ReactorModel,
    after: ReactorModel,
    wid: WindowId,
    new_frame: Frame,
    last_seen: Option<u32>,
    requested: bool,
    mouse_state: Option<MouseState>,
    reading: FrameReading,
    resized: bool,
    effects: Seq<Effect>,
    display: Option<DisplayId>,
)
    requires
        before.engine.workspaces.wf(),
        is_the_users_doing(before, wid, last_seen, requested),
        mouse_state != Some(MouseState::Down),
        before.drag.drag_state == DragState::Inactive,
        !before.windows[wid].frame_monotonic.same_frame(new_frame),
        reading.old_space != reading.new_space,
        !before.engine.offscreen.contains_key(wid),
        reading.new_space matches Some(space) ==> crate::actor::reactor::state::showing(
            before.screens,
            space,
            display,
        ),
        crate::actor::reactor::events::window::takes_frame_change(
            before,
            after,
            wid,
            new_frame,
            last_seen,
            requested,
            mouse_state,
            reading,
            resized,
            effects,
        ),
    ensures
        !resized,
        effects.len() == 2,
        effects[0] == Effect::Layout(
            match reading.new_space {
                Some(space) => LayoutEvent::WindowAdded(space, wid),
                None => LayoutEvent::WindowRemoved(wid),
            },
        ),
        effects[1] == (Effect::UpdateLayout { is_resize: false, is_workspace_switch: false }),
        reading.new_space is None || display is None || !before.engine.workspaces.active.contains_key(
            display->0,
        ) ==> after.engine == before.engine,
        reading.new_space is Some && display is Some && before.engine.workspaces.active.contains_key(
            display->0,
        ) ==> {
            let workspaces = after.engine.workspaces;
            let id = before.engine.workspaces.active[display->0].1;
            &&& workspaces.assigned.contains_key((display->0, wid))
            &&& workspaces.assigned[(display->0, wid)] == id
            &&& workspaces.workspaces[id].windows.contains(wid)
            &&& forall|d: DisplayId|
                d != display->0 ==> !#[trigger] workspaces.assigned.contains_key((d, wid))
            &&& forall|d: DisplayId, w: WindowId|
                w != wid ==> #[trigger] workspaces.assigned.get((d, w))
                    == before.engine.workspaces.assigned.get((d, w))
            &&& workspaces.active == before.engine.workspaces.active
        },
{
    if let Some(space) = reading.new_space {
        let shown = choose|shown: Option<DisplayId>| #[trigger]
            crate::actor::reactor::state::showing(before.screens, space, shown)
                && crate::actor::reactor::events::window::follows_display(
                before.engine.workspaces,
                after.engine.workspaces,
                shown,
                wid,
            );
        crate::actor::reactor::layout_laws::display_of_a_space_is_unique(
            before.screens,
            space,
            display,
            shown,
        );
        if display is Some && before.engine.workspaces.active.contains_key(display->0) {
            let id = before.engine.workspaces.active[display->0].1;
            assert(before.engine.workspaces.owns(display->0, id));
            crate::model::request_laws::move_changes_one_window(
                before.engine.workspaces,
                after.engine.workspaces,
                display->0,
                wid,
                id,
            );
        }
    }
}

/// Without a drag, a window that stays on its space, or is kept off the screen, asks for nothing but
/// to be told as resized, and that exactly when it stays on its space and has another size.
pub proof fn window_that_stays_is_told_as_resized(
    before: ReactorModel,
    after: ReactorModel,
    wid: WindowId,
    new_frame: Frame,
    last_seen: Option<u32>,
    requested: bool,
    mouse_state: Option<MouseState>,
    reading: FrameReading,
    resized: bool,
    effects: Seq<Effect>,
)
    requires
        is_the_users_doing(before, wid, last_seen, requested),
        mouse_state != Some(MouseState::Down),
        before.drag.drag_state == DragState::Inactive,
        !before.windows[wid].frame_monotonic.same_frame(new_frame),
        reading.old_space == reading.new_space || before.engine.offscreen.contains_key(wid),
        crate::actor::reactor::events::window::takes_frame_change(
            before,
            after,
            wid,
            new_frame,
            last_seen,
            requested,
            mouse_state,
            reading,
            resized,
            effects,
        ),
    ensures
        resized <==> reading.old_space == reading.new_space
            && !before.windows[wid].frame_monotonic.same_size(new_frame),
        effects.len() == if resized {
            1nat
        } else {
            0nat
        },
        after.engine == before.engine,
{
}

/// A window that is announced is known from then on as it was announced, and found under the number
/// that the window server gave it, which is no longer one that was merely observed. The request on
/// record for it keeps its number and asks for the frame that it has. What the window server says of
/// it is kept. No other window is concerned. The layout is told, and told only of this window, when
/// the window is to be managed and is on a space.
pub proof fn announced_window_is_known(
    before: ReactorModel,
    after: ReactorModel,
    wid: WindowId,
    window: WindowInfo,
    ws_info: Option<WindowServerInfo>,
    is_manageable: bool,
    space: Option<SpaceId>,
    effects: Seq<Effect>,
)
    requires
        crate::actor::reactor::events::window::announces_window(
            before,
            after,
            wid,
            window,
            ws_info,
            is_manageable,
            space,
            effects,
        ),
    ensures
        after.windows.dom() == before.windows.dom().insert(wid),
        after.windows[wid].frame_monotonic == window.frame,
        after.windows[wid].window_server_id == window.sys_id,
        after.windows[wid].is_minimized == window.is_minimized,
        after.windows[wid].is_ax_standard == window.is_ax_standard,
        after.windows[wid].is_ax_root == window.is_ax_root,
        after.windows[wid].is_manageable == is_manageable,
        forall|w: WindowId|
            w != wid && #[trigger] before.windows.contains_key(w) ==> after.windows[w]
                == before.windows[w],
        window.sys_id matches Some(wsid) ==> {
            &&& after.window_ids.get(wsid) == Some(wid)
            &&& after.transactions.contains_key(wsid)
            &&& after.transactions[wsid].target == window.frame
            &&& after.transactions[wsid].txid == if before.transactions.contains_key(wsid) {
                before.transactions[wsid].txid
            } else {
                0
            }
        },
        forall|x: WindowServerId|
            window.sys_id != Some(x) ==> {
                &&& #[trigger] after.window_ids.get(x) == before.window_ids.get(x)
                &&& after.transactions.get(x) == before.transactions.get(x)
            },
        ws_info matches Some(info) ==> after.server_info.get(info.id) == Some(info),
        forall|x: WindowServerId|
            !(ws_info is Some && ws_info->0.id == x) ==> #[trigger] after.server_info.get(x)
                == before.server_info.get(x),
        forall|x: WindowServerId| #[trigger]
            after.observed.contains(x) <==> before.observed.contains(x) && window.sys_id != Some(x)
                && !(ws_info is Some && ws_info->0.id == x),
        after == (ReactorModel {
            windows: after.windows,
            window_ids: after.window_ids,
            observed: after.observed,
            server_info: after.server_info,
            transactions: after.transactions,
            ..before
        }),
        effects.len() == if is_manageable && space is Some {
            1nat
        } else {
            0nat
        },
        is_manageable && space is Some ==> effects[0] == Effect::Layout(
            LayoutEvent::WindowAdded(space->0, wid),
        ),
{
    assert(after.windows.dom() =~= before.windows.dom().insert(wid));
}

/// A window that is gone is forgotten, with all that is on record under its number, and no other
/// window or number is concerned; the drags are left for later. The layout is told of the removal of
/// this window. Of a window that was not known nothing is taken note and nothing said.
pub proof fn forgotten_window_concerns_no_other(
    before: ReactorModel,
    after: ReactorModel,
    wid: WindowId,
    known: bool,
    effects: Seq<Effect>,
)
    requires
        crate::actor::reactor::events::window::forgets_window(before, after, wid, known, effects),
    ensures
        known <==> before.windows.contains_key(wid),
        !known ==> after == before && effects.len() == 0,
        known ==> {
            &&& effects.len() == 1
            &&& effects[0] == Effect::Layout(LayoutEvent::WindowRemoved(wid))
            &&& after.windows.dom() == before.windows.dom().remove(wid)
            &&& before.windows[wid].window_server_id matches Some(wsid) ==> {
                &&& !after.transactions.contains_key(wsid)
                &&& !after.window_ids.contains_key(wsid)
                &&& !after.server_info.contains_key(wsid)
                &&& !after.visible_windows.contains(wsid)
            }
        },
        forall|w: WindowId|
            w != wid && #[trigger] before.windows.contains_key(w) ==> after.windows.contains_key(w)
                && after.windows[w] == before.windows[w],
        forall|x: WindowServerId|
            !(before.windows.contains_key(wid) && before.windows[wid].window_server_id == Some(x))
                ==> {
                &&& #[trigger] after.transactions.get(x) == before.transactions.get(x)
                &&& after.window_ids.get(x) == before.window_ids.get(x)
                &&& after.server_info.get(x) == before.server_info.get(x)
                &&& after.visible_windows.contains(x) == before.visible_windows.contains(x)
            },
        after == (ReactorModel {
            windows: after.windows,
            window_ids: after.window_ids,
            visible_windows: after.visible_windows,
            server_info: after.server_info,
            transactions: after.transactions,
            ..before
        }),
{
    if known {
        assert(after.windows.dom() =~= before.windows.dom().remove(wid));
    }
}

/// A window that is gone takes no part in drags. A swap that it was to take part in is off; when it
/// was dragged, or dragged over, nothing is dragged over anything any longer, and when it was dragged
/// the drag is off as well; the layout leaves it alone no longer. A drag that it had no part in goes
/// on as it was.
pub proof fn gone_window_ends_its_drags(before: DragManager, wid: WindowId)
    ensures
        ({
            let after = before.without_window(wid);
            let dragged = before.drag_swap_manager.dragged == Some(wid);
            let target = before.drag_swap_manager.last_target == Some(wid);
            let swaps = match before.drag_state {
                DragState::PendingSwap { dragged: a, target: b } => a == wid || b == wid,
                _ => false,
            };
            &&& dragged || swaps ==> after.drag_state == DragState::Inactive
            &&& !dragged && !swaps ==> after.drag_state == before.drag_state
            &&& dragged || target ==> {
                &&& after.drag_swap_manager.dragged is None
                &&& after.drag_swap_manager.last_target is None
                &&& after.drag_swap_manager.origin_frame is None
            }
            &&& !dragged && !target ==> after.drag_swap_manager == before.drag_swap_manager
            &&& after.drag_swap_manager.config == before.drag_swap_manager.config
            &&& after.skip_layout_for_window == if before.skip_layout_for_window == Some(wid) {
                None
            } else {
                before.skip_layout_for_window
            }
        }),
{
}

/// A window that is minimized keeps its frame and number, is not managed and is not seen, and the
/// layout is told of its removal. No other window is concerned. Of a window that is not known, or is
/// minimized already, nothing is taken note.
pub proof fn minimized_window_is_put_aside(
    before: ReactorModel,
    after: ReactorModel,
    wid: WindowId,
    effects: Seq<Effect>,
)
    requires
        crate::actor::reactor::events::window::minimizes_window(before, after, wid, effects),
    ensures
        !before.windows.contains_key(wid) || before.windows[wid].is_minimized ==> after == before
            && effects.len() == 0,
        before.windows.contains_key(wid) && !before.windows[wid].is_minimized ==> {
            &&& effects.len() == 1
            &&& effects[0] == Effect::Layout(LayoutEvent::WindowRemoved(wid))
            &&& after.windows.dom() == before.windows.dom()
            &&& after.windows[wid].is_minimized
            &&& !after.windows[wid].is_manageable
            &&& after.windows[wid].frame_monotonic == before.windows[wid].frame_monotonic
            &&& after.windows[wid].window_server_id == before.windows[wid].window_server_id
            &&& after.windows[wid].is_ax_standard == before.windows[wid].is_ax_standard
            &&& after.windows[wid].is_ax_root == before.windows[wid].is_ax_root
            &&& forall|x: WindowServerId| #[trigger]
                after.visible_windows.contains(x) <==> before.visible_windows.contains(x)
                    && before.windows[wid].window_server_id != Some(x)
        },
        forall|w: WindowId|
            w != wid && #[trigger] before.windows.contains_key(w) ==> after.windows[w]
                == before.windows[w],
        after == (ReactorModel {
            windows: after.windows,
            visible_windows: after.visible_windows,
            ..before
        }),
{
    if before.windows.contains_key(wid) {
        assert(after.windows.dom() =~= before.windows.dom());
    }
}

/// A minimized window that is brought back is no longer minimized and is managed or not as is said;
/// the layout is told when it is managed and on a space. No other window is concerned. Of a window
/// that is not known, or is not minimized, nothing is taken note.
pub proof fn restored_window_is_back(
    before: ReactorModel,
    after: ReactorModel,
    wid: WindowId,
    is_manageable: bool,
    space: Option<SpaceId>,
    effects: Seq<Effect>,
)
    requires
        crate::actor::reactor::events::window::restores_window(
            before,
            after,
            wid,
            is_manageable,
            space,
            effects,
        ),
    ensures
        !before.windows.contains_key(wid) || !before.windows[wid].is_minimized ==> after == before
            && effects.len() == 0,
        before.windows.contains_key(wid) && before.windows[wid].is_minimized ==> {
            &&& after.windows.dom() == before.windows.dom()
            &&& !after.windows[wid].is_minimized
            &&& after.windows[wid].is_manageable == is_manageable
            &&& after.windows[wid].frame_monotonic == before.windows[wid].frame_monotonic
            &&& after.windows[wid].window_server_id == before.windows[wid].window_server_id
            &&& after.windows[wid].is_ax_standard == before.windows[wid].is_ax_standard
            &&& after.windows[wid].is_ax_root == before.windows[wid].is_ax_root
            &&& effects.len() == if is_manageable && space is Some {
                1nat
            } else {
                0nat
            }
            &&& is_manageable && space is Some ==> effects[0] == Effect::Layout(
                LayoutEvent::WindowAdded(space->0, wid),
            )
        },
        forall|w: WindowId|
            w != wid && #[trigger] before.windows.contains_key(w) ==> after.windows[w]
                == before.windows[w],
        after == (ReactorModel { windows: after.windows, ..before }),
{
    if before.windows.contains_key(wid) {
        assert(after.windows.dom() =~= before.windows.dom());
    }
}

/// Letting the mouse button go ends every drag. Windows that were to swap, and are both known, change
/// places, on the space of the dragged one, or else of the frame that it came from, or else on the
/// first that is shown; the windows are then to be laid out anew. The layout leaves the dragged window
/// alone, also when the swap is off because one of the two is gone. Nothing else changes.
pub proof fn drop_swaps_the_windows(
    before: ReactorModel,
    after: ReactorModel,
    dragged_space: Option<SpaceId>,
    origin_space: Option<SpaceId>,
    up: MouseUp,
)
    requires
        crate::actor::reactor::events::drag::lets_go(
            before,
            after,
            dragged_space,
            origin_space,
            up,
        ),
    ensures
        after.drag.drag_state == DragState::Inactive,
        after.drag.drag_swap_manager == before.drag.drag_swap_manager,
        after == (ReactorModel { drag: after.drag, ..before }),
        up.need_layout_refresh <==> up.effects@.len() > 0,
        !(before.drag.drag_state is PendingSwap) ==> {
            &&& up.effects@.len() == 0
            &&& after.drag.skip_layout_for_window == before.drag.skip_layout_for_window
        },
        before.drag.drag_state matches DragState::PendingSwap { dragged: a, target: b } ==> {
            &&& after.drag.skip_layout_for_window == Some(a)
            &&& !(before.windows.contains_key(a) && before.windows.contains_key(b))
                ==> up.effects@.len() == 0
            &&& before.windows.contains_key(a) && before.windows.contains_key(b) ==> {
                &&& up.effects@.len() == 2
                &&& up.effects@[1] == Effect::HandleLayoutResponse
                &&& up.effects@[0] matches Effect::SwapWindows {
                    space,
                    visible_screens,
                    dragged,
                    target,
                }
                &&& dragged == a
                &&& target == b
                &&& visible_screens@ == crate::actor::reactor::state::visible_screens(before.screens)
                &&& dragged_space is Some ==> space == dragged_space
                &&& dragged_space is None && before.drag.drag_swap_manager.origin_frame is Some
                    && origin_space is Some ==> space == origin_space
                &&& dragged_space is None && (before.drag.drag_swap_manager.origin_frame is None
                    || origin_space is None) ==> space
                    == crate::actor::reactor::state::first_visible(before.screens)
            }
        },
{
}

/// When a drag has been brought to its end, nothing is dragged over anything, and no drag state or
/// setting changes on that account. The windows are laid out anew, without resizing and without a
/// switch, exactly when one of the two reasons is there.
pub proof fn ended_drag_comes_to_rest(
    before: ReactorModel,
    after: ReactorModel,
    need_layout_refresh: bool,
    finalize_needs_layout: bool,
    effect: Option<Effect>,
)
    requires
        crate::actor::reactor::events::drag::settles_drag(
            before,
            after,
            need_layout_refresh,
            finalize_needs_layout,
            effect,
        ),
    ensures
        after.drag.drag_swap_manager.dragged is None,
        after.drag.drag_swap_manager.last_target is None,
        after.drag.drag_swap_manager.origin_frame is None,
        after.drag.drag_swap_manager.config == before.drag.drag_swap_manager.config,
        after.drag.drag_state == before.drag.drag_state,
        after.drag.skip_layout_for_window == before.drag.skip_layout_for_window,
        after == (ReactorModel { drag: after.drag, ..before }),
        effect is Some <==> need_layout_refresh || finalize_needs_layout,
        effect matches Some(asked) ==> asked == (Effect::UpdateLayout {
            is_resize: false,
            is_workspace_switch: false,
        }),
{
}

/// Commands that have a display show another workspace, be it the next, the previous, a given one or
/// the last one, are handed on with their space to be followed as commands about workspaces, count as
/// switches, and get the next generation. Moving a window to a workspace and creating one are handed
/// on the same way without being switches. Without a space such commands are handed on to nobody.
/// Any other command goes to the layout as it is, with the space and the spaces that are shown. Only
/// moving a window counts as a change of a window's workspace.
pub proof fn commands_are_handed_on(
    before: ReactorModel,
    after: ReactorModel,
    cmd: LayoutCommand,
    visible: Seq<SpaceId>,
    space: Option<SpaceId>,
    taken: CommandTaken,
)
    requires
        crate::actor::reactor::events::command::takes_up_command(
            before,
            after,
            cmd,
            visible,
            space,
            taken,
        ),
    ensures
        match cmd {
            LayoutCommand::NextWorkspace(_)
            | LayoutCommand::PrevWorkspace(_)
            | LayoutCommand::SwitchToWorkspace(_)
            | LayoutCommand::SwitchToLastWorkspace => {
                &&& taken.is_workspace_switch
                &&& taken.handed_on == match space {
                    Some(s) => Some(Effect::WorkspaceCommand(s, cmd)),
                    None => None,
                }
                &&& after.switching.workspace_switch_generation == if before.switching.workspace_switch_generation
                    == u64::MAX {
                    0int
                } else {
                    before.switching.workspace_switch_generation + 1
                }
                &&& after.switching.active_workspace_switch == Some(
                    after.switching.workspace_switch_generation,
                )
            },
            LayoutCommand::MoveWindowToWorkspace(_) | LayoutCommand::CreateWorkspace => {
                &&& !taken.is_workspace_switch
                &&& taken.handed_on == match space {
                    Some(s) => Some(Effect::WorkspaceCommand(s, cmd)),
                    None => None,
                }
                &&& after == before
            },
            LayoutCommand::SwapWindows(..) | LayoutCommand::Within(_) => {
                &&& !taken.is_workspace_switch
                &&& after == before
                &&& taken.handed_on matches Some(
                    Effect::EngineCommand { space: told, visible_spaces, command },
                )
                &&& told == space
                &&& visible_spaces@ == visible
                &&& command == cmd
            },
        },
        taken.is_window_workspace_change <==> (cmd matches LayoutCommand::MoveWindowToWorkspace(_)),
        after.switching.workspace_switch_state == before.switching.workspace_switch_state,
        after.switching.pending_workspace_mouse_warp
            == before.switching.pending_workspace_mouse_warp,
        after.switching.visible_apps_per_display == before.switching.visible_apps_per_display,
        after == (ReactorModel { switching: after.switching, ..before }),
{
}

/// The floating positions are stored before a command is taken up exactly when it has a display show
/// another workspace, and for the space that it is for.
pub proof fn switch_stores_positions_first(cmd: LayoutCommand, space: Option<SpaceId>)
    ensures
        crate::actor::reactor::events::command::stored_first(cmd, space) == match cmd {
            LayoutCommand::NextWorkspace(_)
            | LayoutCommand::PrevWorkspace(_)
            | LayoutCommand::SwitchToWorkspace(_)
            | LayoutCommand::SwitchToLastWorkspace => match space {
                Some(s) => Some(Effect::StoreFloatingPositions(s)),
                None => None,
            },
            _ => None,
        },
{
}

/// A command that has been followed leaves a switch under way exactly when it was one. The answer is
/// acted on last, and applications are shown and hidden just before that exactly when a workspace was
/// switched or a window moved to another.
pub proof fn answer_is_acted_on_last(
    before: ReactorModel,
    after: ReactorModel,
    is_workspace_switch: bool,
    is_window_workspace_change: bool,
    effects: Seq<Effect>,
)
    requires
        crate::actor::reactor::events::command::finishes_command(
            before,
            after,
            is_workspace_switch,
            is_window_workspace_change,
            effects,
        ),
    ensures
        after.switching.workspace_switch_state == WorkspaceSwitchState::Active
            <==> is_workspace_switch,
        after.switching.workspace_switch_generation
            == before.switching.workspace_switch_generation,
        after.switching.active_workspace_switch == before.switching.active_workspace_switch,
        after.switching.pending_workspace_mouse_warp
            == before.switching.pending_workspace_mouse_warp,
        after.switching.visible_apps_per_display == before.switching.visible_apps_per_display,
        after == (ReactorModel { switching: after.switching, ..before }),
        effects.last() == Effect::HandleLayoutResponse,
        is_workspace_switch || is_window_workspace_change ==> effects.len() == 2 && effects[0]
            == Effect::UpdateAppVisibility,
        !(is_workspace_switch || is_window_workspace_change) ==> effects.len() == 1,
{
}

/// New settings reach the drags and nothing else of them. The stack line is told exactly when there is
/// one, and before the windows are laid out anew, as for a switch. The window manager is told at the
/// end, exactly when there is one and the keys are others: more or fewer, or one that is another key or
/// does something else.
pub proof fn settings_are_passed_on(reactor: ReactorModel, old_keys: Seq<KeyBinding>)
    ensures
        ({
            let after = reactor.with_snapping();
            &&& after.drag.drag_swap_manager.config == reactor.config.window_snapping
            &&& after.drag.drag_swap_manager.dragged == reactor.drag.drag_swap_manager.dragged
            &&& after.drag.drag_swap_manager.last_target
                == reactor.drag.drag_swap_manager.last_target
            &&& after.drag.drag_swap_manager.origin_frame
                == reactor.drag.drag_swap_manager.origin_frame
            &&& after.drag.drag_state == reactor.drag.drag_state
            &&& after.drag.skip_layout_for_window == reactor.drag.skip_layout_for_window
            &&& after == (ReactorModel { drag: after.drag, ..reactor })
        }),
        ({
            let told = reactor.told_config();
            &&& told.last() == (Effect::UpdateLayout { is_resize: false, is_workspace_switch: true })
            &&& reactor.channels.stack_line_tx is Some ==> told.len() == 2 && told[0]
                == Effect::ConfigToStackLine
            &&& reactor.channels.stack_line_tx is None ==> told.len() == 1
        }),
        reactor.told_keys(old_keys) is Some <==> {
            let keys = reactor.config.keys@;
            &&& reactor.channels.wm_sender is Some
            &&& {
                ||| keys.len() != old_keys.len()
                ||| exists|i: int|
                    0 <= i < keys.len() && i < old_keys.len() && ((#[trigger] keys[i]).hotkey@
                        != old_keys[i].hotkey@ || keys[i].command@ != old_keys[i].command@)
            }
        },
        reactor.told_keys(old_keys) matches Some(told) ==> told == Effect::ConfigToWm,
{
    let keys = reactor.config.keys@;
    let a = crate::actor::reactor::events::command::bindings(old_keys);
    let b = crate::actor::reactor::events::command::bindings(keys);
    assert(a.len() == old_keys.len());
    assert(b.len() == keys.len());
    if keys.len() == old_keys.len() {
        if forall|i: int|
            0 <= i < keys.len() ==> (#[trigger] keys[i]).hotkey@ == old_keys[i].hotkey@
                && keys[i].command@ == old_keys[i].command@ {
            assert(a =~= b);
        } else {
            let i = choose|i: int|
                0 <= i < keys.len() && !((#[trigger] keys[i]).hotkey@ == old_keys[i].hotkey@
                    && keys[i].command@ == old_keys[i].command@);
            assert(a[i] != b[i]);
        }
    }
}

/// A window that is known gets the focus from its application: the request raises no other window,
/// names this one, moves no mouse, and has the handle of the application that owns it if that is known.
/// Before that the layout is told, when the window is on a space. Of a window that is not known the
/// window server is asked, by process and number, when its number is given; otherwise nothing happens.
pub proof fn focus_goes_through_the_owner(
    before: ReactorModel,
    wid: WindowId,
    wsid: Option<WindowServerId>,
    space: Option<SpaceId>,
    effects: Seq<Effect>,
)
    requires
        crate::actor::reactor::events::command::focus_effects(before, wid, wsid, space, effects),
    ensures
        before.windows.contains_key(wid) ==> {
            &&& effects.len() == if space is Some {
                2nat
            } else {
                1nat
            }
            &&& space is Some ==> effects[0] == Effect::Layout(
                LayoutEvent::WindowFocused(space->0, wid),
            )
            &&& effects.last() matches Effect::Raise(request)
            &&& request.raise_windows@.len() == 0
            &&& request.focus_window matches Some(focused)
            &&& focused.0 == wid
            &&& focused.1 is None
            &&& before.apps.contains_key(wid.pid) ==> request.app_handles@.len() == 1
                && request.app_handles@[0] == (wid.pid, before.apps[wid.pid].handle)
            &&& !before.apps.contains_key(wid.pid) ==> request.app_handles@.len() == 0
        },
        !before.windows.contains_key(wid) ==> {
            &&& wsid is Some ==> effects.len() == 1 && effects[0] == Effect::MakeKeyWindow(
                wid.pid,
                wsid->0,
            )
            &&& wsid is None ==> effects.len() == 0
        },
{
}

/// New settings take the place of the old ones, whose keys are told, and the layout is to follow them.
/// Nothing else changes.
pub proof fn settings_are_replaced(
    before: ReactorModel,
    after: ReactorModel,
    config: Config,
    old_keys: Vec<KeyBinding>,
    effect: Effect,
)
    requires
        crate::actor::reactor::events::command::takes_config(
            before,
            after,
            config,
            old_keys,
            effect,
        ),
    ensures
        after.config.keys == config.keys,
        after.config.window_snapping == config.window_snapping,
        after.config.stack_line_enabled == config.stack_line_enabled,
        after == (ReactorModel { config: after.config, ..before }),
        old_keys@ == before.config.keys@,
        effect is ApplyLayoutSettings,
{
}

/// A layout tree is printed for each space that is shown, in the order of the screens.
pub proof fn shown_spaces_are_printed(reactor: ReactorModel) -> (at: Seq<int>)
    ensures
        reactor.debug_effects().len() == at.len(),
        forall|i: int, j: int| 0 <= i < j < at.len() ==> (#[trigger] at[i]) < (#[trigger] at[j]),
        forall|i: int|
            0 <= i < at.len() ==> {
                &&& 0 <= #[trigger] at[i] < reactor.screens.len()
                &&& reactor.screens[at[i]].space is Some
                &&& reactor.debug_effects()[i] == Effect::DebugTree(
                    reactor.screens[at[i]].space->0,
                )
            },
        forall|k: int|
            0 <= k < reactor.screens.len() && (#[trigger] reactor.screens[k]).space is Some
                ==> at.contains(k),
{
    crate::actor::reactor::layout_laws::shown_spaces_go_by_screen(reactor.screens)
}

/// Mission Control is asked of the window manager, as commanded, exactly when there is one. It is
/// dismissed by asking for it once more, or, without a window manager, by no longer counting it as
/// active.
pub proof fn mission_control_is_asked_of_the_window_manager(reactor: ReactorModel, cmd: WmCmd)
    ensures
        reactor.asked_of_wm(cmd) is Some <==> reactor.channels.wm_sender is Some,
        reactor.asked_of_wm(cmd) matches Some(effect) ==> effect == Effect::Wm(cmd),
        reactor.asked_of_wm(WmCmd::ShowMissionControlAll) matches Some(effect) ==> effect
            == reactor.asked_to_dismiss(),
        reactor.channels.wm_sender is None ==> reactor.asked_to_dismiss()
            == Effect::SetMissionControlActive(false),
{
}

} // verus!
