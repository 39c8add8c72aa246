//! Events of windows.
use vstd::prelude::*;
use crate::actor::reactor::managers::{
    DragManager, DragState, MissionControlState, TransactionRecord, WindowServerInfo, WindowState,
};
use crate::actor::reactor::state::{Effect, Reactor, ReactorModel};
use crate::layout_engine::{EngineModel, LayoutEvent};
use crate::model::geometry::Frame;
use crate::model::ids::{DisplayId, SpaceId, WindowId, WindowServerId};
use crate::model::manager_model::ManagerModel;

verus! {

/// A window as its application announces it.
#[derive(Debug, Clone, Copy, PartialEq, Eq, Structural)]
pub struct WindowInfo {
    pub frame: Frame,
    pub sys_id: Option<WindowServerId>,
    pub is_minimized: bool,
    pub is_ax_standard: bool,
    pub is_ax_root: bool,
}

#[derive(Debug, Clone, Copy, PartialEq, Eq, Structural)]
pub enum MouseState {
    Down,
    Up,
}

/// What geometry says of a change of a window's frame.
#[derive(Debug, Clone, Copy, PartialEq, Eq, Structural)]
pub struct FrameReading {
    /// The space that the old frame is mostly on.
    pub old_space: Option<SpaceId>,
    /// The space that the new frame is mostly on.
    pub new_space: Option<SpaceId>,
    /// The new frame is, up to rounding, the one that is on record.
    pub is_as_before: bool,
    /// The new frame is, up to rounding, the one that was last asked for.
    pub is_as_requested: bool,
}

/// What a change of a window's frame comes to.
pub enum FrameChange {
    /// It is not taken into account.
    Ignored,
    /// It answers a request: the frame is put on record if `recorded`, and the request is done
    /// with if `settled`.
    Answered { recorded: bool, settled: bool },
    /// The frame is the one on record.
    Unchanged,
    /// The window is being dragged.
    Dragged { resized: bool },
    /// The window was moved from one space to another, or off all of them.
    Moved,
    /// The window has another size.
    Resized,
    /// The window was moved within its space, or is kept off the screen.
    Shifted,
}

impl WindowInfo {
    /// What is known of the window from then on.
    pub open spec fn state(self, is_manageable: bool) -> WindowState {
        WindowState {
            frame_monotonic: self.frame,
            window_server_id: self.sys_id,
            is_minimized: self.is_minimized,
            is_ax_standard: self.is_ax_standard,
            is_ax_root: self.is_ax_root,
            is_manageable,
        }
    }
}

/// What the layout is told of a window that it has to manage.
pub open spec fn added_effects(is_manageable: bool, space: Option<SpaceId>, wid: WindowId) -> Seq<
    Effect,
> {
    match space {
        Some(s) if is_manageable => seq![Effect::Layout(LayoutEvent::WindowAdded(s, wid))],
        _ => Seq::empty(),
    }
}

impl DragManager {
    /// The manager once a window is gone: it takes no further part in any drag.
    pub open spec fn without_window(self, wid: WindowId) -> Self {
        let swap_is_off = match self.drag_state {
            DragState::PendingSwap { dragged, target } => dragged == wid || target == wid,
            _ => false,
        };
        let was_dragged = self.drag_swap_manager.dragged == Some(wid);
        let was_target = self.drag_swap_manager.last_target == Some(wid);
        let rest = if was_dragged || was_target {
            self.at_rest()
        } else {
            self
        };
        DragManager {
            drag_state: if swap_is_off || was_dragged {
                DragState::Inactive
            } else {
                self.drag_state
            },
            skip_layout_for_window: if self.skip_layout_for_window == Some(wid) {
                None
            } else {
                self.skip_layout_for_window
            },
            ..rest
        }
    }

    /// Something is being dragged.
    pub open spec fn is_dragging(self) -> bool {
        self.drag_state is Active || self.drag_state is PendingSwap
    }
}

impl ReactorModel {
    /// The reactor once a window has been announced.
    pub open spec fn with_created(
        self,
        wid: WindowId,
        window: WindowInfo,
        ws_info: Option<WindowServerInfo>,
        is_manageable: bool,
    ) -> Self {
        ReactorModel {
            windows: self.windows.insert(wid, window.state(is_manageable)),
            window_ids: match window.sys_id {
                Some(wsid) => self.window_ids.insert(wsid, wid),
                None => self.window_ids,
            },
            observed: self.observed.difference(
                Set::new(
                    |x: WindowServerId|
                        window.sys_id == Some(x) || (ws_info is Some && ws_info->0.id == x),
                ),
            ),
            server_info: match ws_info {
                Some(info) => self.server_info.insert(info.id, info),
                None => self.server_info,
            },
            transactions: match window.sys_id {
                Some(wsid) => self.transactions.insert(
                    wsid,
                    TransactionRecord {
                        txid: crate::actor::reactor::managers::last_sent(self.transactions, wsid),
                        target: window.frame,
                    },
                ),
                None => self.transactions,
            },
            ..self
        }
    }

    /// The reactor once it has forgotten a window that it knew.
    pub open spec fn with_forgotten(self, wid: WindowId) -> Self {
        let gone = ReactorModel { windows: self.windows.remove(wid), ..self };
        match self.windows[wid].window_server_id {
            Some(wsid) => ReactorModel {
                transactions: self.transactions.remove(wsid),
                window_ids: self.window_ids.remove(wsid),
                server_info: self.server_info.remove(wsid),
                visible_windows: self.visible_windows.remove(wsid),
                ..gone
            },
            None => gone,
        }
    }

    /// The reactor once no drag has a part for the window.
    pub open spec fn with_drag_cleared(self, wid: WindowId) -> Self {
        ReactorModel { drag: self.drag.without_window(wid), ..self }
    }

    /// The reactor once a window that it knew is gone.
    pub open spec fn with_destroyed(self, wid: WindowId) -> Self {
        self.with_forgotten(wid).with_drag_cleared(wid)
    }

    /// The window is known and minimized, or known and not.
    pub open spec fn knows(self, wid: WindowId, minimized: bool) -> bool {
        self.windows.contains_key(wid) && self.windows[wid].is_minimized == minimized
    }

    /// The reactor once a window has been minimized.
    pub open spec fn with_minimized(self, wid: WindowId) -> Self {
        let window = self.windows[wid];
        ReactorModel {
            windows: self.windows.insert(
                wid,
                WindowState { is_minimized: true, is_manageable: false, ..window },
            ),
            visible_windows: match window.window_server_id {
                Some(wsid) => self.visible_windows.remove(wsid),
                None => self.visible_windows,
            },
            ..self
        }
    }

    /// The reactor once a window has been brought back.
    pub open spec fn with_restored(self, wid: WindowId, is_manageable: bool) -> Self {
        ReactorModel {
            windows: self.windows.insert(
                wid,
                WindowState { is_minimized: false, is_manageable, ..self.windows[wid] },
            ),
            ..self
        }
    }

    /// The number of the last request that was sent for the window.
    pub open spec fn last_request(self, wid: WindowId) -> u32 {
        match self.windows[wid].window_server_id {
            Some(wsid) => crate::actor::reactor::managers::last_sent(self.transactions, wsid),
            None => 0,
        }
    }

    /// The window is between screens.
    pub open spec fn is_changing_screens(self, wid: WindowId) -> bool {
        self.windows[wid].window_server_id matches Some(wsid) && self.changing_screens.contains(
            wsid,
        )
    }

    /// What a change of a window's frame comes to.
    pub open spec fn frame_change(
        self,
        wid: WindowId,
        new_frame: Frame,
        last_seen: Option<u32>,
        requested: bool,
        mouse_state: Option<MouseState>,
        reading: FrameReading,
    ) -> FrameChange {
        let window = self.windows[wid];
        let awaited = window.window_server_id is Some && self.transactions.contains_key(
            window.window_server_id->0,
        );
        if !self.windows.contains_key(wid) || self.mission_control is Active
            || self.is_changing_screens(wid) {
            FrameChange::Ignored
        } else if (last_seen is Some && last_seen->0 != self.last_request(wid)) || requested {
            FrameChange::Ignored
        } else if last_seen is Some {
            FrameChange::Answered {
                recorded: !reading.is_as_before && (!awaited || reading.is_as_requested),
                settled: if awaited {
                    reading.is_as_requested
                } else {
                    !reading.is_as_before
                },
            }
        } else if window.frame_monotonic.same_frame(new_frame) {
            FrameChange::Unchanged
        } else if mouse_state == Some(MouseState::Down) || self.drag.is_dragging() {
            FrameChange::Dragged { resized: !window.frame_monotonic.same_size(new_frame) }
        } else if reading.old_space != reading.new_space {
            if self.engine.offscreen.contains_key(wid) {
                FrameChange::Shifted
            } else {
                FrameChange::Moved
            }
        } else if !window.frame_monotonic.same_size(new_frame) {
            FrameChange::Resized
        } else {
            FrameChange::Shifted
        }
    }

    /// The reactor with another frame on record for a window.
    pub open spec fn with_frame(self, wid: WindowId, frame: Frame) -> Self {
        ReactorModel {
            windows: self.windows.insert(
                wid,
                WindowState { frame_monotonic: frame, ..self.windows[wid] },
            ),
            ..self
        }
    }

    /// The reactor with no request on record for a window.
    pub open spec fn without_request(self, wid: WindowId) -> Self {
        ReactorModel {
            transactions: match self.windows[wid].window_server_id {
                Some(wsid) => self.transactions.remove(wsid),
                None => self.transactions,
            },
            ..self
        }
    }

    /// What the reactor knows after a change of a window's frame, but for the workspaces.
    pub open spec fn after_frame_change(
        self,
        wid: WindowId,
        new_frame: Frame,
        change: FrameChange,
    ) -> Self {
        match change {
            FrameChange::Ignored => self,
            FrameChange::Answered { recorded, settled } => {
                let noted = if recorded {
                    self.with_frame(wid, new_frame)
                } else {
                    self
                };
                if settled {
                    noted.without_request(wid)
                } else {
                    noted
                }
            },
            _ => self.with_frame(wid, new_frame),
        }
    }
}

/// A window that was moved to a space is in the workspace shown there; where that is not to be
/// told, the window stays where it is.
pub open spec fn follows_display(
    before: ManagerModel,
    after: ManagerModel,
    display: Option<DisplayId>,
    wid: WindowId,
) -> bool {
    match display {
        Some(d) => match before.active_on(d) {
            Some(id) if before.owns(d, id) => before.assigns(after, d, wid, id),
            _ => after == before,
        },
        None => after == before,
    }
}

/// What is asked for after a change of a window's frame.
pub open spec fn frame_effects(
    before: ReactorModel,
    wid: WindowId,
    new_frame: Frame,
    change: FrameChange,
    new_space: Option<SpaceId>,
    effects: Seq<Effect>,
) -> bool {
    let old_frame = before.windows[wid].frame_monotonic;
    match change {
        FrameChange::Dragged { resized } => {
            let begun = seq![
                Effect::EnsureActiveDrag(wid, old_frame),
                Effect::UpdateActiveDrag(wid, new_frame),
            ];
            effects =~= if resized {
                begun + seq![Effect::MarkDragDirty(wid), Effect::MaybeSwapOnDrag(wid, new_frame)]
            } else {
                begun + seq![Effect::MaybeSwapOnDrag(wid, new_frame)]
            }
        },
        FrameChange::Moved => {
            effects =~= seq![
                Effect::Layout(
                    match new_space {
                        Some(space) => LayoutEvent::WindowAdded(space, wid),
                        None => LayoutEvent::WindowRemoved(wid),
                    },
                ),
                Effect::UpdateLayout { is_resize: false, is_workspace_switch: false },
            ]
        },
        FrameChange::Resized => {
            &&& effects.len() == 1
            &&& effects[0] matches Effect::Layout(
                LayoutEvent::WindowResized { wid: told, old_frame: from, new_frame: to, screens },
            )
            &&& told == wid
            &&& from == old_frame
            &&& to == new_frame
            &&& screens@ == crate::actor::reactor::state::visible_screens(before.screens)
        },
        _ => effects.len() == 0,
    }
}

/// A change of a window's frame is taken into account: what it comes to, what the reactor knows
/// then and what is asked for.
pub open spec fn takes_frame_change(
    before: ReactorModel,
    after: ReactorModel,
    wid: WindowId,
    new_frame: Frame,
    last_seen: Option<u32>,
    requested: bool,
    mouse_state: Option<MouseState>,
    reading: FrameReading,
    resized: bool,
    effects: Seq<Effect>,
) -> bool {
    let change = before.frame_change(wid, new_frame, last_seen, requested, mouse_state, reading);
    &&& resized == (change is Resized)
    &&& frame_effects(before, wid, new_frame, change, reading.new_space, effects)
    &&& after == (ReactorModel {
        engine: EngineModel { workspaces: after.engine.workspaces, ..before.engine },
        ..before.after_frame_change(wid, new_frame, change)
    })
    &&& if change is Moved && reading.new_space is Some {
        exists|display: Option<DisplayId>| #[trigger]
            crate::actor::reactor::state::showing(before.screens, reading.new_space->0, display)
                && follows_display(
                before.engine.workspaces,
                after.engine.workspaces,
                display,
                wid,
            )
    } else {
        after.engine.workspaces == before.engine.workspaces
    }
}

/// A window is announced.
pub open spec fn announces_window(
    before: ReactorModel,
    after: ReactorModel,
    wid: WindowId,
    window: WindowInfo,
    ws_info: Option<WindowServerInfo>,
    is_manageable: bool,
    space: Option<SpaceId>,
    effects: Seq<Effect>,
) -> bool {
    &&& after == before.with_created(wid, window, ws_info, is_manageable)
    &&& effects =~= added_effects(is_manageable, space, wid)
}

/// A window is gone; of one that was not known nothing is taken note.
pub open spec fn forgets_window(
    before: ReactorModel,
    after: ReactorModel,
    wid: WindowId,
    known: bool,
    effects: Seq<Effect>,
) -> bool {
    &&& known == before.windows.contains_key(wid)
    &&& after == if known {
        before.with_forgotten(wid)
    } else {
        before
    }
    &&& effects =~= if known {
        seq![Effect::Layout(LayoutEvent::WindowRemoved(wid))]
    } else {
        Seq::empty()
    }
}

/// A window is minimized, unless it is not known or minimized already.
pub open spec fn minimizes_window(
    before: ReactorModel,
    after: ReactorModel,
    wid: WindowId,
    effects: Seq<Effect>,
) -> bool {
    &&& after == if before.knows(wid, false) {
        before.with_minimized(wid)
    } else {
        before
    }
    &&& effects =~= if before.knows(wid, false) {
        seq![Effect::Layout(LayoutEvent::WindowRemoved(wid))]
    } else {
        Seq::empty()
    }
}

/// A window is brought back, unless it is not known or not minimized.
pub open spec fn restores_window(
    before: ReactorModel,
    after: ReactorModel,
    wid: WindowId,
    is_manageable: bool,
    space: Option<SpaceId>,
    effects: Seq<Effect>,
) -> bool {
    &&& after == if before.knows(wid, true) {
        before.with_restored(wid, is_manageable)
    } else {
        before
    }
    &&& effects =~= if before.knows(wid, true) {
        added_effects(is_manageable, space, wid)
    } else {
        Seq::empty()
    }
}

/// Handles the events of windows.
pub struct WindowEventHandler;

impl WindowEventHandler {
    /// A window was announced. Whether it is to be managed, judged with what the window server
    /// says of it, and the space that it is mostly on are handed in.
    pub fn handle_window_created(
        reactor: &mut Reactor,
        wid: WindowId,
        window: WindowInfo,
        ws_info: Option<WindowServerInfo>,
        _mouse_state: MouseState,
        is_manageable: bool,
        space: Option<SpaceId>,
    ) -> (effects: Vec<Effect>)
        ensures
            announces_window(
                old(reactor)@,
                final(reactor)@,
                wid,
                window,
                ws_info,
                is_manageable,
                space,
                effects@,
            ),
    {
        if let Some(wsid) = window.sys_id {
            reactor.window_manager.window_ids.insert(wsid, wid);
            reactor.window_manager.observed_window_server_ids.remove(&wsid);
        }
        if let Some(info) = ws_info {
            reactor.window_manager.observed_window_server_ids.remove(&info.id);
            reactor.window_server_info_manager.window_server_info.insert(info.id, info);
        }
        let state = WindowState {
            frame_monotonic: window.frame,
            window_server_id: window.sys_id,
            is_minimized: window.is_minimized,
            is_ax_standard: window.is_ax_standard,
            is_ax_root: window.is_ax_root,
            is_manageable,
        };
        if let Some(wsid) = window.sys_id {
            let txid = reactor.transaction_manager.get_last_sent_txid(wsid);
            reactor.transaction_manager.store_txid(wsid, txid, state.frame_monotonic);
        }
        reactor.window_manager.windows.insert(wid, state);
        let effects = Self::added(is_manageable, space, wid);
        assert(reactor@.observed =~= old(reactor)@.with_created(
            wid,
            window,
            ws_info,
            is_manageable,
        ).observed);
        effects
    }

    fn added(is_manageable: bool, space: Option<SpaceId>, wid: WindowId) -> (effects: Vec<Effect>)
        ensures
            effects@ == added_effects(is_manageable, space, wid),
    {
        let mut effects: Vec<Effect> = Vec::new();
        if is_manageable {
            if let Some(s) = space {
                effects.push(Effect::Layout(LayoutEvent::WindowAdded(s, wid)));
            }
        }
        assert(effects@ =~= added_effects(is_manageable, space, wid));
        effects
    }

    /// A window is gone. Says whether it was known. Where it was, the layout is told of the
    /// removal, and then the drags are settled.
    pub fn handle_window_destroyed(reactor: &mut Reactor, wid: WindowId) -> (r: (bool, Vec<Effect>))
        ensures
            forgets_window(old(reactor)@, final(reactor)@, wid, r.0, r.1@),
    {
        let mut effects: Vec<Effect> = Vec::new();
        let window = match reactor.window_manager.windows.get(&wid) {
            Some(window) => *window,
            None => {
                return (false, effects);
            },
        };
        if let Some(wsid) = window.window_server_id {
            reactor.transaction_manager.remove_for_window(wsid);
            reactor.window_manager.window_ids.remove(&wsid);
            reactor.window_server_info_manager.window_server_info.remove(&wsid);
            reactor.window_manager.visible_windows.remove(&wsid);
        }
        reactor.window_manager.windows.remove(&wid);
        effects.push(Effect::Layout(LayoutEvent::WindowRemoved(wid)));
        assert(reactor@ =~= old(reactor)@.with_forgotten(wid));
        (true, effects)
    }

    /// The layout has been told that a window is gone: no drag has a part for it any longer.
    pub fn settle_window_destroyed(reactor: &mut Reactor, wid: WindowId)
        ensures
            final(reactor)@ == old(reactor)@.with_drag_cleared(wid),
    {
        if let DragState::PendingSwap { dragged, target } = reactor.drag_manager.drag_state {
            if dragged == wid || target == wid {
                reactor.drag_manager.drag_state = DragState::Inactive;
            }
        }
        let dragged_window = reactor.drag_manager.dragged();
        let last_target = reactor.drag_manager.last_target();
        if dragged_window == Some(wid) || last_target == Some(wid) {
            reactor.drag_manager.reset();
            if dragged_window == Some(wid) {
                reactor.drag_manager.drag_state = DragState::Inactive;
            }
        }
        if reactor.drag_manager.skip_layout_for_window == Some(wid) {
            reactor.drag_manager.skip_layout_for_window = None;
        }
        assert(reactor@ =~= old(reactor)@.with_drag_cleared(wid));
    }

    /// A window was minimized.
    pub fn handle_window_minimized(reactor: &mut Reactor, wid: WindowId) -> (effects: Vec<Effect>)
        ensures
            minimizes_window(old(reactor)@, final(reactor)@, wid, effects@),
    {
        let mut effects: Vec<Effect> = Vec::new();
        let mut window = match reactor.window_manager.windows.get(&wid) {
            Some(window) => *window,
            None => {
                return effects;
            },
        };
        if window.is_minimized {
            return effects;
        }
        window.is_minimized = true;
        window.is_manageable = false;
        if let Some(wsid) = window.window_server_id {
            reactor.window_manager.visible_windows.remove(&wsid);
        }
        reactor.window_manager.windows.insert(wid, window);
        effects.push(Effect::Layout(LayoutEvent::WindowRemoved(wid)));
        effects
    }

    /// A minimized window was brought back. Whether it is to be managed and the space that it is
    /// mostly on are handed in.
    pub fn handle_window_deminiaturized(
        reactor: &mut Reactor,
        wid: WindowId,
        is_manageable: bool,
        space: Option<SpaceId>,
    ) -> (effects: Vec<Effect>)
        ensures
            restores_window(
                old(reactor)@,
                final(reactor)@,
                wid,
                is_manageable,
                space,
                effects@,
            ),
    {
        let mut window = match reactor.window_manager.windows.get(&wid) {
            Some(window) => *window,
            None => {
                return Vec::new();
            },
        };
        if !window.is_minimized {
            return Vec::new();
        }
        window.is_minimized = false;
        window.is_manageable = is_manageable;
        reactor.window_manager.windows.insert(wid, window);
        Self::added(is_manageable, space, wid)
    }

    /// The frame of a window has changed. Says whether the window was resized.
    ///
    /// A change that is older than the last request for the window's frame, or that the request
    /// itself announces, is ignored. What geometry says of the frames is handed in.
    pub fn handle_window_frame_changed(
        reactor: &mut Reactor,
        wid: WindowId,
        new_frame: Frame,
        last_seen: Option<u32>,
        requested: bool,
        mouse_state: Option<MouseState>,
        reading: FrameReading,
    ) -> (r: (bool, Vec<Effect>))
        ensures
            takes_frame_change(
                old(reactor)@,
                final(reactor)@,
                wid,
                new_frame,
                last_seen,
                requested,
                mouse_state,
                reading,
                r.0,
                r.1@,
            ),
    {
        let ghost before = reactor@;
        let ghost change = before.frame_change(
            wid,
            new_frame,
            last_seen,
            requested,
            mouse_state,
            reading,
        );
        let mut effects: Vec<Effect> = Vec::new();
        let mut window = match reactor.window_manager.windows.get(&wid) {
            Some(window) => *window,
            None => {
                return (false, effects);
            },
        };
        let old_frame = window.frame_monotonic;
        if reactor.mission_control_manager.mission_control_state == MissionControlState::Active {
            return (false, effects);
        }
        let mut last_sent: u32 = 0;
        let mut awaited = false;
        if let Some(wsid) = window.window_server_id {
            if reactor.space_manager.changing_screens.contains(&wsid) {
                return (false, effects);
            }
            last_sent = reactor.transaction_manager.get_last_sent_txid(wsid);
            awaited = reactor.transaction_manager.get_target_frame(wsid).is_some();
        }
        if let Some(seen) = last_seen {
            if seen != last_sent {
                return (false, effects);
            }
        }
        if requested {
            return (false, effects);
        }
        if last_seen.is_some() {
            let recorded = !reading.is_as_before && (!awaited || reading.is_as_requested);
            let settled = if awaited {
                reading.is_as_requested
            } else {
                !reading.is_as_before
            };
            if recorded {
                window.frame_monotonic = new_frame;
                reactor.window_manager.windows.insert(wid, window);
            }
            if settled {
                if let Some(wsid) = window.window_server_id {
                    reactor.transaction_manager.remove_for_window(wsid);
                }
            }
            assert(reactor@ =~= before.after_frame_change(wid, new_frame, change));
            return (false, effects);
        }
        window.frame_monotonic = new_frame;
        reactor.window_manager.windows.insert(wid, window);
        assert(reactor@ =~= before.with_frame(wid, new_frame));
        if old_frame.equals(&new_frame) {
            return (false, effects);
        }
        let is_dragging = match reactor.drag_manager.drag_state {
            DragState::Inactive => false,
            _ => true,
        };
        let resized = !old_frame.size_equals(&new_frame);
        if mouse_state == Some(MouseState::Down) || is_dragging {
            effects.push(Effect::EnsureActiveDrag(wid, old_frame));
            effects.push(Effect::UpdateActiveDrag(wid, new_frame));
            if resized {
                effects.push(Effect::MarkDragDirty(wid));
            }
            effects.push(Effect::MaybeSwapOnDrag(wid, new_frame));
            assert(frame_effects(before, wid, new_frame, change, reading.new_space, effects@));
            return (false, effects);
        }
        if reading.old_space != reading.new_space {
            if reactor.layout_manager.layout_engine.is_window_offscreen(wid) {
                return (false, effects);
            }
            match reading.new_space {
                Some(space) => {
                    let display = reactor.display_for_space(space);
                    assert(crate::actor::reactor::state::showing(before.screens, space, display));
                    if let Some(d) = display {
                        if let Some(id) = reactor.layout_manager.layout_engine.active_workspace(d) {
                            let manager =
                                reactor.layout_manager.layout_engine.virtual_workspace_manager_mut();
                            let _ = manager.assign_window_to_workspace(d, wid, id);
                        }
                    }
                    effects.push(Effect::Layout(LayoutEvent::WindowAdded(space, wid)));
                },
                None => {
                    effects.push(Effect::Layout(LayoutEvent::WindowRemoved(wid)));
                },
            }
            effects.push(Effect::UpdateLayout { is_resize: false, is_workspace_switch: false });
            assert(frame_effects(before, wid, new_frame, change, reading.new_space, effects@));
            return (false, effects);
        }
        if resized {
            let screens = reactor.shown_screens();
            effects.push(
                Effect::Layout(LayoutEvent::WindowResized { wid, old_frame, new_frame, screens }),
            );
            return (true, effects);
        }
        (false, effects)
    }

    /// The mouse is over a window. Whether that raises the window is handed in.
    pub fn handle_mouse_moved_over_window(
        reactor: &Reactor,
        wsid: WindowServerId,
        should_raise: bool,
    ) -> (effect: Option<Effect>)
        ensures
            effect == if reactor@.window_ids.contains_key(wsid) && should_raise {
                Some(Effect::RaiseWindow(reactor@.window_ids[wsid]))
            } else {
                None
            },
    {
        match reactor.window_manager.window_ids.get(&wsid) {
            Some(wid) => if should_raise {
                Some(Effect::RaiseWindow(*wid))
            } else {
                None
            },
            None => None,
        }
    }
}

/// Of a window that is gone the reactor knows nothing more, no drag has a part for it, and a
/// second notice of its end or a change of its frame is ignored.
pub proof fn destroyed_window_leaves_no_trace(
    before: ReactorModel,
    wid: WindowId,
    new_frame: Frame,
    last_seen: Option<u32>,
    requested: bool,
    mouse_state: Option<MouseState>,
    reading: FrameReading,
)
    ensures
        ({
            let after = before.with_destroyed(wid);
            &&& !after.windows.contains_key(wid)
            &&& (before.windows[wid].window_server_id matches Some(wsid) ==> {
                &&& !after.window_ids.contains_key(wsid)
                &&& !after.server_info.contains_key(wsid)
                &&& !after.visible_windows.contains(wsid)
                &&& !after.transactions.contains_key(wsid)
            })
            &&& after.drag.drag_swap_manager.dragged != Some(wid)
            &&& after.drag.drag_swap_manager.last_target != Some(wid)
            &&& after.drag.skip_layout_for_window != Some(wid)
            &&& (after.drag.drag_state matches DragState::PendingSwap { dragged, target } ==> dragged
                != wid && target != wid)
            &&& after.frame_change(wid, new_frame, last_seen, requested, mouse_state, reading)
                is Ignored
        }),
{
}

/// A window that is minimized and brought back is known as before, but for whether it is managed
/// and seen.
pub proof fn restoring_undoes_minimizing(before: ReactorModel, wid: WindowId)
    requires
        before.knows(wid, false),
    ensures
        ({
            let away = before.with_minimized(wid);
            &&& away.knows(wid, true)
            &&& !away.windows[wid].is_manageable
            &&& away.with_restored(wid, before.windows[wid].is_manageable).windows
                == before.windows
        }),
{
    let back = before.with_minimized(wid).with_restored(wid, before.windows[wid].is_manageable);
    assert(back.windows =~= before.windows);
}

/// A change that was seen before the last request for the window's frame was sent leaves all as
/// it is.
pub proof fn outdated_frame_changes_nothing(
    before: ReactorModel,
    wid: WindowId,
    new_frame: Frame,
    seen: u32,
    requested: bool,
    mouse_state: Option<MouseState>,
    reading: FrameReading,
)
    requires
        before.windows.contains_key(wid),
        seen != before.last_request(wid),
    ensures
        ({
            let change = before.frame_change(
                wid,
                new_frame,
                Some(seen),
                requested,
                mouse_state,
                reading,
            );
            &&& change is Ignored
            &&& before.after_frame_change(wid, new_frame, change) == before
        }),
{
}

/// A window that is moved to a space is found in the workspace that the display shows there, and
/// the workspaces stay consistent.
pub proof fn moved_window_joins_the_shown_workspace(
    before: ManagerModel,
    after: ManagerModel,
    display: DisplayId,
    wid: WindowId,
)
    requires
        before.wf(),
        before.active.contains_key(display),
        follows_display(before, after, Some(display), wid),
    ensures
        after.wf(),
        after.assigned.get((display, wid)) == before.active_on(display),
        forall|d: DisplayId| #[trigger] after.assigned.contains_key((d, wid)) ==> d == display,
{
    let id = before.active[display].1;
    crate::model::laws::assignment_keeps_consistency(before, after, display, wid, id);
    crate::model::laws::assigned_window_is_found(before, after, display, wid, id);
}

} // verus!
