//! Drags.
use vstd::prelude::*;
use crate::actor::reactor::managers::{DragManager, DragState};
use crate::actor::reactor::state::{Effect, Reactor, ReactorModel};
use crate::model::ids::{SpaceId, WindowId};

verus! {

/// What a drag that ends asks for at first.
#[derive(Debug)]
pub struct MouseUp {
    pub effects: Vec<Effect>,
    /// Two windows changed places, so the windows have to be laid out anew.
    pub need_layout_refresh: bool,
}

impl ReactorModel {
    /// The windows that are to change places when the mouse button is let go.
    pub open spec fn pending_swap(self) -> Option<(WindowId, WindowId)> {
        match self.drag.drag_state {
            DragState::PendingSwap { dragged, target } => Some((dragged, target)),
            _ => None,
        }
    }

    /// Two windows are to change places and both are known.
    pub open spec fn swap_is_possible(self) -> bool {
        self.pending_swap() matches Some((dragged, target)) && self.windows.contains_key(dragged)
            && self.windows.contains_key(target)
    }

    /// The reactor once the mouse button has been let go: no drag is under way, and the layout is
    /// to leave a window alone that was to change places.
    pub open spec fn with_mouse_up(self) -> Self {
        ReactorModel {
            drag: DragManager {
                drag_state: DragState::Inactive,
                skip_layout_for_window: match self.pending_swap() {
                    Some((dragged, _)) => Some(dragged),
                    None => self.drag.skip_layout_for_window,
                },
                ..self.drag
            },
            ..self
        }
    }

    /// The space that windows change places on: the one that the dragged window is mostly on, or
    /// else the one that it came from, or else the first that is shown.
    pub open spec fn swap_space(
        self,
        dragged_space: Option<SpaceId>,
        origin_space: Option<SpaceId>,
    ) -> Option<SpaceId> {
        if dragged_space is Some {
            dragged_space
        } else if self.drag.drag_swap_manager.origin_frame is Some && origin_space is Some {
            origin_space
        } else {
            crate::actor::reactor::state::first_visible(self.screens)
        }
    }
}

/// What the end of a drag asks for at first.
pub open spec fn swap_effects(
    before: ReactorModel,
    dragged_space: Option<SpaceId>,
    origin_space: Option<SpaceId>,
    effects: Seq<Effect>,
) -> bool {
    if before.swap_is_possible() {
        &&& effects.len() == 2
        &&& effects[1] == Effect::HandleLayoutResponse
        &&& effects[0] matches Effect::SwapWindows { space, visible_screens, dragged, target }
        &&& space == before.swap_space(dragged_space, origin_space)
        &&& visible_screens@ == crate::actor::reactor::state::visible_screens(before.screens)
        &&& Some((dragged, target)) == before.pending_swap()
    } else {
        effects.len() == 0
    }
}

/// The mouse button is let go.
pub open spec fn lets_go(
    before: ReactorModel,
    after: ReactorModel,
    dragged_space: Option<SpaceId>,
    origin_space: Option<SpaceId>,
    up: MouseUp,
) -> bool {
    &&& after == before.with_mouse_up()
    &&& up.need_layout_refresh == before.swap_is_possible()
    &&& swap_effects(before, dragged_space, origin_space, up.effects@)
}

/// Nothing is dragged over anything any longer, and the windows are laid out anew where something
/// asks for it.
pub open spec fn settles_drag(
    before: ReactorModel,
    after: ReactorModel,
    need_layout_refresh: bool,
    finalize_needs_layout: bool,
    effect: Option<Effect>,
) -> bool {
    &&& after == (ReactorModel { drag: before.drag.at_rest(), ..before })
    &&& effect == if need_layout_refresh || finalize_needs_layout {
        Some(Effect::UpdateLayout { is_resize: false, is_workspace_switch: false })
    } else {
        None
    }
}

/// Handles drags.
pub struct DragEventHandler;

impl DragEventHandler {
    /// The mouse button was let go. The spaces that the frame of the dragged window and the frame
    /// that it came from are mostly on are handed in. What is asked for comes before the drag is
    /// brought to its end.
    pub fn handle_mouse_up(
        reactor: &mut Reactor,
        dragged_space: Option<SpaceId>,
        origin_space: Option<SpaceId>,
    ) -> (r: MouseUp)
        ensures
            lets_go(old(reactor)@, final(reactor)@, dragged_space, origin_space, r),
    {
        let mut effects: Vec<Effect> = Vec::new();
        let state = reactor.drag_manager.drag_state;
        reactor.drag_manager.drag_state = DragState::Inactive;
        if let DragState::PendingSwap { dragged, target } = state {
            reactor.drag_manager.skip_layout_for_window = Some(dragged);
            if reactor.window_manager.windows.contains_key(&dragged)
                && reactor.window_manager.windows.contains_key(&target) {
                let visible_screens = reactor.shown_screens();
                let space = if dragged_space.is_some() {
                    dragged_space
                } else if reactor.drag_manager.origin_frame().is_some() && origin_space.is_some() {
                    origin_space
                } else {
                    let shown = reactor.shown_spaces();
                    if shown.len() > 0 {
                        Some(shown[0])
                    } else {
                        None
                    }
                };
                effects.push(Effect::SwapWindows { space, visible_screens, dragged, target });
                effects.push(Effect::HandleLayoutResponse);
                return MouseUp { effects, need_layout_refresh: true };
            }
        }
        MouseUp { effects, need_layout_refresh: false }
    }

    /// The drag has been brought to its end, which may ask for the windows to be laid out anew.
    pub fn settle_mouse_up(
        reactor: &mut Reactor,
        need_layout_refresh: bool,
        finalize_needs_layout: bool,
    ) -> (effect: Option<Effect>)
        ensures
            settles_drag(
                old(reactor)@,
                final(reactor)@,
                need_layout_refresh,
                finalize_needs_layout,
                effect,
            ),
    {
        reactor.drag_manager.reset();
        if need_layout_refresh || finalize_needs_layout {
            Some(Effect::UpdateLayout { is_resize: false, is_workspace_switch: false })
        } else {
            None
        }
    }

    /// The windows have been laid out: no window is to be left alone any longer.
    pub fn finish_mouse_up(reactor: &mut Reactor)
        ensures
            final(reactor)@ == old(reactor)@.with_none_skipped(),
    {
        reactor.drag_manager.skip_layout_for_window = None;
    }
}

/// A drag that ends asks for one change of places: letting the mouse button go again asks for
/// none.
pub proof fn windows_change_places_once(before: ReactorModel)
    ensures
        before.with_mouse_up().pending_swap() is None,
        !before.with_mouse_up().swap_is_possible(),
        before.with_mouse_up().with_mouse_up() == before.with_mouse_up(),
{
}

} // verus!
