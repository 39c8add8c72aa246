//! What it takes to show and hide overlays, and what is remembered of it.
use vstd::prelude::*;
use crate::model::geometry::Frame;
use crate::model::ids::WindowId;
use crate::ui::workspace_overlay::{OverlayError, OverlayModel, OverlayOperation, OverlayWindow};

verus! {

/// Showing an overlay takes operations exactly when it is not shown. Whatever is made or shaped gets
/// the frame of the screen, and the last operation draws in that frame. An overlay is made, as the
/// first operation, exactly when the display has none; it is then made opaque, with full alpha and on
/// the level of ordinary windows, before it is drawn. Otherwise the overlay of this very display is
/// shaped and drawn. None is ordered among the windows yet.
pub proof fn showing_makes_or_redraws_the_overlay(
    model: OverlayModel,
    display: usize,
    screen: Frame,
)
    ensures
        ({
            let operations = model.show_operations(display, screen);
            let is_shown = model.shown.contains_key(display) && model.shown[display];
            &&& operations.len() == 0 <==> is_shown
            &&& forall|i: int|
                0 <= i < operations.len() ==> match #[trigger] operations[i] {
                    OverlayOperation::Create(frame) => i == 0 && frame == screen
                        && !model.overlays.contains_key(display),
                    OverlayOperation::SetOpaque => !model.overlays.contains_key(display),
                    OverlayOperation::SetAlpha(bits) => bits == 0x3ff0_0000_0000_0000u64
                        && !model.overlays.contains_key(display),
                    OverlayOperation::SetLevel(level) => level == 0 && !model.overlays.contains_key(
                        display,
                    ),
                    OverlayOperation::SetShape(overlay, frame) => frame == screen
                        && model.overlays.contains_key(display) && overlay
                        == model.overlays[display],
                    OverlayOperation::Draw(overlay, frame) => {
                        &&& i == operations.len() - 1
                        &&& frame == screen
                        &&& overlay == if model.overlays.contains_key(display) {
                            Some(model.overlays[display])
                        } else {
                            None
                        }
                    },
                    _ => false,
                }
            &&& !is_shown ==> operations.last() is Draw
            &&& !is_shown && !model.overlays.contains_key(display) ==> {
                &&& operations[0] is Create
                &&& operations.contains(OverlayOperation::SetOpaque)
                &&& operations.contains(OverlayOperation::SetAlpha(0x3ff0_0000_0000_0000u64))
                &&& operations.contains(OverlayOperation::SetLevel(0i32))
            }
            &&& !is_shown && model.overlays.contains_key(display) ==> operations.contains(
                OverlayOperation::SetShape(model.overlays[display], screen),
            )
        }),
{
    let operations = model.show_operations(display, screen);
    if !(model.shown.contains_key(display) && model.shown[display]) {
        if model.overlays.contains_key(display) {
            assert(operations[0] == OverlayOperation::SetShape(model.overlays[display], screen));
        } else {
            assert(operations[1] == OverlayOperation::SetOpaque);
            assert(operations[2] == OverlayOperation::SetAlpha(0x3ff0_0000_0000_0000u64));
            assert(operations[3] == OverlayOperation::SetLevel(0i32));
        }
    }
}

/// Hiding an overlay takes the overlay of this very display out of the order, exactly when it is
/// shown and there is one, and nothing else.
pub proof fn hiding_takes_the_overlay_out(model: OverlayModel, display: usize)
    ensures
        ({
            let operations = model.hide_operations(display);
            let is_there = model.shown.contains_key(display) && model.shown[display]
                && model.overlays.contains_key(display);
            &&& operations.len() == if is_there {
                1nat
            } else {
                0nat
            }
            &&& is_there ==> operations[0] == OverlayOperation::OrderOut(model.overlays[display])
        }),
{
}

/// Once the overlay of a display has been shown, it counts as shown. The display keeps the overlay
/// that it had, or has the one that was made. Other displays and the windows that were raised are not
/// concerned.
pub proof fn shown_overlay_is_remembered(model: OverlayModel, display: usize, made: OverlayWindow)
    requires
        model.shown.contains_key(display) && model.shown[display] ==> model.overlays.contains_key(
            display,
        ),
    ensures
        ({
            let after = model.with_shown(display, made);
            &&& after.shown.get(display) == Some(true)
            &&& after.overlays.get(display) == if model.overlays.contains_key(display) {
                Some(model.overlays[display])
            } else {
                Some(made)
            }
            &&& forall|d: usize|
                d != display ==> #[trigger] after.shown.get(d) == model.shown.get(d)
            &&& forall|d: usize|
                d != display ==> #[trigger] after.overlays.get(d) == model.overlays.get(d)
            &&& after.last_raised == model.last_raised
        }),
{
}

/// Once the overlay of a display has been hidden, it does not count as shown, and the display keeps
/// it. Other displays and the windows that were raised are not concerned.
pub proof fn hidden_overlay_is_kept(model: OverlayModel, display: usize)
    ensures
        ({
            let after = model.with_hidden(display);
            &&& after.shown.get(display) != Some(true)
            &&& after.overlays == model.overlays
            &&& forall|d: usize|
                d != display ==> #[trigger] after.shown.get(d) == model.shown.get(d)
            &&& after.last_raised == model.last_raised
        }),
{
}

/// A new manager has no overlay, counts none as shown and has raised no windows. Removing all
/// overlays leaves none, and none counted as shown, while the windows that were raised are remembered.
pub proof fn removal_leaves_no_overlay(model: OverlayModel)
    ensures
        OverlayModel::empty().overlays.dom() == Set::<usize>::empty(),
        OverlayModel::empty().shown.dom() == Set::<usize>::empty(),
        OverlayModel::empty().last_raised.dom() == Set::<usize>::empty(),
        model.cleared().overlays.dom() == Set::<usize>::empty(),
        model.cleared().shown.dom() == Set::<usize>::empty(),
        model.cleared().last_raised == model.last_raised,
{
}

/// Windows are to be raised exactly when they are others than those that were last raised on the
/// display, where having raised none counts as having raised no windows. If they are, they are
/// remembered, for this display alone; otherwise nothing changes. What is known of overlays is not
/// concerned.
pub proof fn windows_are_raised_when_they_are_others(
    before: OverlayModel,
    after: OverlayModel,
    display: usize,
    windows: Seq<WindowId>,
    result: bool,
)
    requires
        before.last_raised.contains_key(display) ==> crate::common::collections::ranked(
            before.last_raised[display],
        ),
        before.raises(after, display, windows, result),
    ensures
        result <==> windows.to_multiset() != if before.last_raised.contains_key(display) {
            before.last_raised[display].to_multiset()
        } else {
            Seq::<WindowId>::empty().to_multiset()
        },
        !result ==> after == before,
        result ==> {
            &&& after.last_raised.contains_key(display)
            &&& after.last_raised[display].to_multiset() == windows.to_multiset()
            &&& crate::common::collections::ranked(after.last_raised[display])
        },
        after.overlays == before.overlays,
        after.shown == before.shown,
        forall|d: usize|
            d != display ==> #[trigger] after.last_raised.get(d) == before.last_raised.get(d),
{
    let sorted = choose|sorted: Seq<WindowId>| #[trigger]
        before.raises_in_order(after, display, windows, result, sorted);
    if before.last_raised.contains_key(display) {
        let last = before.last_raised[display];
        if sorted.to_multiset() == last.to_multiset() {
            crate::common::collections::rank_order_is_unique(sorted, last);
        }
    } else {
        sorted.to_multiset_ensures();
        Seq::<WindowId>::empty().to_multiset_ensures();
        if sorted.len() == 0 {
            assert(sorted =~= Seq::<WindowId>::empty());
        } else {
            assert(sorted.to_multiset().len() == sorted.len());
            assert(Seq::<WindowId>::empty().to_multiset().len() == 0);
        }
    }
}

/// Windows rank by process, and within a process by number; of two windows one ranks before the
/// other.
pub proof fn windows_rank_by_process_then_number(a: WindowId, b: WindowId)
    ensures
        crate::common::collections::Ranked::rank(a) < crate::common::collections::Ranked::rank(b)
            <==> a.pid < b.pid || (a.pid == b.pid && a.idx < b.idx),
{
}

/// Once an overlay has been hidden, no windows are the ones that were last raised on its display;
/// those of other displays are remembered.
pub proof fn raised_windows_are_forgotten_for_one_display(model: OverlayModel, display: usize)
    ensures
        ({
            let after = model.without_raised(display);
            &&& after.last_raised.contains_key(display) ==> after.last_raised[display].len() == 0
            &&& after.last_raised.dom() == model.last_raised.dom()
            &&& forall|d: usize|
                d != display ==> #[trigger] after.last_raised.get(d) == model.last_raised.get(d)
            &&& after.overlays == model.overlays
            &&& after.shown == model.shown
        }),
{
    assert(model.without_raised(display).last_raised.dom() =~= model.last_raised.dom());
}

/// The overlay of a display is ordered against the given window, and only when the display has one.
pub proof fn overlay_is_ordered_against_a_window(model: OverlayModel, display: usize, window: u32)
    ensures
        model.order_below(display, window) is Some <==> model.overlays.contains_key(display),
        model.order_above(display, window) is Some <==> model.overlays.contains_key(display),
        model.order_below(display, window) matches Some(operation) ==> operation
            == OverlayOperation::OrderBelow(model.overlays[display], window),
        model.order_above(display, window) matches Some(operation) ==> operation
            == OverlayOperation::OrderAbove(model.overlays[display], window),
{
}

/// An overlay comes up exactly when it was not shown and has been shown without an error, and an error
/// is passed on and changes nothing. Showing it once more does not have it come up again.
pub proof fn overlay_comes_up_once(
    before: OverlayModel,
    between: OverlayModel,
    after: OverlayModel,
    display: usize,
    first: Result<OverlayWindow, OverlayError>,
    second: Result<OverlayWindow, OverlayError>,
    came_up: Result<bool, OverlayError>,
    came_up_again: Result<bool, OverlayError>,
)
    requires
        before.records_shown(between, display, first, came_up),
        between.records_shown(after, display, second, came_up_again),
    ensures
        came_up is Ok <==> first is Ok,
        first is Err ==> between == before && came_up->Err_0 == first->Err_0,
        first is Ok ==> between.shown.get(display) == Some(true),
        first is Ok ==> (came_up->Ok_0 <==> before.shown.get(display) != Some(true)),
        first is Ok && second is Ok ==> !came_up_again->Ok_0 && after == between,
{
}

/// An overlay goes exactly when it was shown and has been hidden without an error, and an error is
/// passed on and changes nothing. After that it can come up again.
pub proof fn overlay_goes_when_it_was_shown(
    before: OverlayModel,
    between: OverlayModel,
    after: OverlayModel,
    display: usize,
    hiding: Result<(), OverlayError>,
    showing: Result<OverlayWindow, OverlayError>,
    went: Result<bool, OverlayError>,
    came_up: Result<bool, OverlayError>,
)
    requires
        before.records_hidden(between, display, hiding, went),
        between.records_shown(after, display, showing, came_up),
    ensures
        went is Ok <==> hiding is Ok,
        hiding is Err ==> between == before && went->Err_0 == hiding->Err_0,
        hiding is Ok ==> between.shown.get(display) != Some(true),
        hiding is Ok ==> (went->Ok_0 <==> before.shown.get(display) == Some(true)),
        hiding is Ok && showing is Ok ==> came_up->Ok_0,
        between.overlays == before.overlays,
        between.last_raised == before.last_raised,
{
}

} // verus!
