//! The fullscreen overlays that hide the windows of inactive workspaces.
use std::collections::HashMap;
use vstd::prelude::*;
use crate::common::collections::{sort_ranked, Key};
use crate::model::geometry::Frame;
use crate::model::ids::WindowId;

verus! {

/// The number that the window server gave to an overlay.
#[derive(Debug, Clone, Copy, PartialEq, Eq, Structural)]
pub struct OverlayWindow {
    pub id: u32,
}

/// Why the window server refused an operation on an overlay: its error code.
#[derive(Debug, Clone, Copy, PartialEq, Eq, Structural)]
pub struct OverlayError {
    pub code: i32,
}

/// The bits of the floating-point number one.
pub const OPAQUE_ALPHA: u64 = 0x3ff0_0000_0000_0000;

/// The level of ordinary windows. An overlay stays on it, so that it can be ordered below the
/// windows that are to be seen.
pub const NORMAL_WINDOW_LEVEL: i32 = 0;

/// An operation on the overlay of a display. They are done in order; the first that fails ends
/// the request.
#[derive(Debug, Clone, Copy, PartialEq, Eq, Structural)]
pub enum OverlayOperation {
    /// Makes a new overlay of that shape. The operations after it are on that overlay.
    Create(Frame),
    SetOpaque,
    SetAlpha(u64),
    SetLevel(i32),
    SetShape(OverlayWindow, Frame),
    /// Draws the background of the overlay that was made, or of the one given.
    Draw(Option<OverlayWindow>, Frame),
    OrderOut(OverlayWindow),
    OrderBelow(OverlayWindow, u32),
    OrderAbove(OverlayWindow, u32),
}

/// Keeps an overlay for each display that needed one.
pub struct WorkspaceOverlayManager {
    overlays: HashMap<usize, OverlayWindow>,
    overlay_shown: HashMap<usize, bool>,
    last_raised_windows: HashMap<usize, Vec<WindowId>>,
}

/// What is known of the overlays.
#[verifier::ext_equal]
pub struct OverlayModel {
    pub overlays: Map<usize, OverlayWindow>,
    pub shown: Map<usize, bool>,
    /// The windows that were last raised on each display, in the order of their ranks.
    pub last_raised: Map<usize, Seq<WindowId>>,
}

impl OverlayModel {
    /// No overlay has been made and no window raised.
    pub open spec fn empty() -> Self {
        OverlayModel { overlays: Map::empty(), shown: Map::empty(), last_raised: Map::empty() }
    }

    /// All overlays are gone, so none is shown.
    pub open spec fn cleared(self) -> Self {
        OverlayModel { overlays: Map::empty(), shown: Map::empty(), ..self }
    }

    /// A display that counts as one whose overlay is shown has an overlay.
    pub open spec fn shown_overlays_exist(self) -> bool {
        forall|d: usize| #[trigger] self.is_shown(d) ==> self.overlays.contains_key(d)
    }

    pub open spec fn is_shown(self, display: usize) -> bool {
        self.shown.contains_key(display) && self.shown[display]
    }

    /// The windows, given in the order of their ranks, differ from those that were last raised.
    pub open spec fn differs(self, display: usize, sorted: Seq<WindowId>) -> bool {
        if self.last_raised.contains_key(display) {
            self.last_raised[display] != sorted
        } else {
            sorted.len() > 0
        }
    }

    /// The windows that are raised are `windows` from now on; `sorted` is what they are in the
    /// order of their ranks.
    pub open spec fn raises_in_order(
        self,
        after: Self,
        display: usize,
        windows: Seq<WindowId>,
        result: bool,
        sorted: Seq<WindowId>,
    ) -> bool {
        &&& crate::common::collections::ranked(sorted)
        &&& sorted.to_multiset() == windows.to_multiset()
        &&& result == self.differs(display, sorted)
        &&& after == if result {
            OverlayModel { last_raised: self.last_raised.insert(display, sorted), ..self }
        } else {
            self
        }
    }

    /// The windows that are raised are `windows` from now on.
    pub open spec fn raises(
        self,
        after: Self,
        display: usize,
        windows: Seq<WindowId>,
        result: bool,
    ) -> bool {
        exists|sorted: Seq<WindowId>| #[trigger]
            self.raises_in_order(after, display, windows, result, sorted)
    }

    /// No windows are the ones that were last raised on the display.
    pub open spec fn without_raised(self, display: usize) -> Self {
        if self.last_raised.contains_key(display) {
            OverlayModel {
                last_raised: self.last_raised.insert(display, Seq::empty()),
                ..self
            }
        } else {
            self
        }
    }

    /// What it takes to show the overlay of a display.
    pub open spec fn show_operations(self, display: usize, screen: Frame) -> Seq<OverlayOperation> {
        if self.is_shown(display) {
            Seq::empty()
        } else if self.overlays.contains_key(display) {
            seq![
                OverlayOperation::SetShape(self.overlays[display], screen),
                OverlayOperation::Draw(Some(self.overlays[display]), screen),
            ]
        } else {
            seq![
                OverlayOperation::Create(screen),
                OverlayOperation::SetOpaque,
                OverlayOperation::SetAlpha(OPAQUE_ALPHA),
                OverlayOperation::SetLevel(NORMAL_WINDOW_LEVEL),
                OverlayOperation::Draw(None, screen),
            ]
        }
    }

    /// What it takes to hide the overlay of a display.
    pub open spec fn hide_operations(self, display: usize) -> Seq<OverlayOperation> {
        if self.is_shown(display) && self.overlays.contains_key(display) {
            seq![OverlayOperation::OrderOut(self.overlays[display])]
        } else {
            Seq::empty()
        }
    }

    /// The overlay of a display is shown; it is `made` when it had none.
    pub open spec fn with_shown(self, display: usize, made: OverlayWindow) -> Self {
        if self.is_shown(display) {
            self
        } else {
            OverlayModel {
                overlays: if self.overlays.contains_key(display) {
                    self.overlays
                } else {
                    self.overlays.insert(display, made)
                },
                shown: self.shown.insert(display, true),
                ..self
            }
        }
    }

    /// What it takes to order the overlay of a display below a window.
    pub open spec fn order_below(self, display: usize, window: u32) -> Option<OverlayOperation> {
        match self.overlays.get(display) {
            Some(overlay) => Some(OverlayOperation::OrderBelow(overlay, window)),
            None => None,
        }
    }

    /// What it takes to order the overlay of a display above a window.
    pub open spec fn order_above(self, display: usize, window: u32) -> Option<OverlayOperation> {
        match self.overlays.get(display) {
            Some(overlay) => Some(OverlayOperation::OrderAbove(overlay, window)),
            None => None,
        }
    }

    /// The operations that show the overlay of a display have been done, or one has failed. Tells
    /// whether the overlay has come up.
    pub open spec fn records_shown(
        self,
        after: Self,
        display: usize,
        outcome: Result<OverlayWindow, OverlayError>,
        came_up: Result<bool, OverlayError>,
    ) -> bool {
        match outcome {
            Ok(made) => after == self.with_shown(display, made) && came_up == Ok::<
                bool,
                OverlayError,
            >(!self.is_shown(display)),
            Err(e) => after == self && came_up == Err::<bool, OverlayError>(e),
        }
    }

    /// The operations that hide the overlay of a display have been done, or one has failed. Tells
    /// whether the overlay has gone.
    pub open spec fn records_hidden(
        self,
        after: Self,
        display: usize,
        outcome: Result<(), OverlayError>,
        went: Result<bool, OverlayError>,
    ) -> bool {
        match outcome {
            Ok(()) => after == self.with_hidden(display) && went == Ok::<bool, OverlayError>(
                self.is_shown(display),
            ),
            Err(e) => after == self && went == Err::<bool, OverlayError>(e),
        }
    }

    /// The overlay of a display is hidden.
    pub open spec fn with_hidden(self, display: usize) -> Self {
        if self.is_shown(display) {
            OverlayModel { shown: self.shown.insert(display, false), ..self }
        } else {
            self
        }
    }
}

impl View for WorkspaceOverlayManager {
    type V = OverlayModel;

    closed spec fn view(&self) -> OverlayModel {
        OverlayModel {
            overlays: self.overlays@,
            shown: self.overlay_shown@,
            last_raised: self.last_raised_windows@.map_values(|v: Vec<WindowId>| v@),
        }
    }
}

/// Whether two lists of windows are the same.
fn same_windows(a: &Vec<WindowId>, b: &Vec<WindowId>) -> (r: bool)
    ensures
        r == (a@ == b@),
{
    if a.len() != b.len() {
        return false;
    }
    let mut i: usize = 0;
    while i < a.len()
        invariant
            i <= a@.len(),
            a@.len() == b@.len(),
            a@.take(i as int) == b@.take(i as int),
        decreases a@.len() - i,
    {
        if !a[i].same(&b[i]) {
            assert(a@[i as int] != b@[i as int]);
            return false;
        }
        i += 1;
        assert(a@.take(i as int) =~= b@.take(i as int)) by {
            assert(a@.take(i as int) =~= a@.take(i - 1).push(a@[i - 1]));
            assert(b@.take(i as int) =~= b@.take(i - 1).push(b@[i - 1]));
        }
    }
    assert(a@.take(a@.len() as int) =~= a@);
    assert(b@.take(b@.len() as int) =~= b@);
    true
}

impl WorkspaceOverlayManager {
    pub fn new() -> (r: Self)
        ensures
            r@ == OverlayModel::empty(),
    {
        let r = WorkspaceOverlayManager {
            overlays: HashMap::new(),
            overlay_shown: HashMap::new(),
            last_raised_windows: HashMap::new(),
        };
        assert(r@.last_raised =~= Map::<usize, Seq<WindowId>>::empty());
        r
    }

    /// Whether the windows differ from those that were last raised on the display. If they do,
    /// they are the ones that were last raised from now on.
    pub fn should_raise_windows(&mut self, display_id: usize, windows: Vec<WindowId>) -> (r: bool)
        ensures
            old(self)@.raises(final(self)@, display_id, windows@, r),
    {
        let sorted = sort_ranked(windows);
        let ghost order = sorted@;
        let needs_raise = match self.last_raised_windows.get(&display_id) {
            None => sorted.len() > 0,
            Some(last) => !same_windows(last, &sorted),
        };
        assert(needs_raise == old(self)@.differs(display_id, order));
        if needs_raise {
            self.last_raised_windows.insert(display_id, sorted);
            assert(self@.last_raised =~= old(self)@.last_raised.insert(display_id, order));
        }
        assert(old(self)@.raises_in_order(self@, display_id, windows@, needs_raise, order));
        needs_raise
    }

    /// What it takes to order the overlay of a display behind a window; nothing where there is
    /// no overlay.
    pub fn order_overlay_behind(&self, display_id: usize, window_id: u32) -> (r: Option<
        OverlayOperation,
    >)
        ensures
            r == self@.order_below(display_id, window_id),
    {
        match self.overlays.get(&display_id) {
            Some(overlay) => Some(OverlayOperation::OrderBelow(*overlay, window_id)),
            None => None,
        }
    }

    /// What it takes to order the overlay of a display above a window, to hide it; nothing where
    /// there is no overlay.
    pub fn order_overlay_above(&self, display_id: usize, window_id: u32) -> (r: Option<
        OverlayOperation,
    >)
        ensures
            r == self@.order_above(display_id, window_id),
    {
        match self.overlays.get(&display_id) {
            Some(overlay) => Some(OverlayOperation::OrderAbove(*overlay, window_id)),
            None => None,
        }
    }

    fn is_overlay_shown(&self, display_id: usize) -> (r: bool)
        ensures
            r == self@.is_shown(display_id),
    {
        match self.overlay_shown.get(&display_id) {
            Some(shown) => *shown,
            None => false,
        }
    }

    /// What it takes to show the overlay of a display; nothing when it is shown. It is not
    /// ordered among the windows yet.
    pub fn show_overlay(&self, display_id: usize, screen: Frame) -> (r: Vec<OverlayOperation>)
        ensures
            r@ == self@.show_operations(display_id, screen),
    {
        let mut operations: Vec<OverlayOperation> = Vec::new();
        if self.is_overlay_shown(display_id) {
            assert(operations@ =~= self@.show_operations(display_id, screen));
            return operations;
        }
        match self.overlays.get(&display_id) {
            Some(overlay) => {
                operations.push(OverlayOperation::SetShape(*overlay, screen));
                operations.push(OverlayOperation::Draw(Some(*overlay), screen));
            },
            None => {
                operations.push(OverlayOperation::Create(screen));
                operations.push(OverlayOperation::SetOpaque);
                operations.push(OverlayOperation::SetAlpha(OPAQUE_ALPHA));
                operations.push(OverlayOperation::SetLevel(NORMAL_WINDOW_LEVEL));
                operations.push(OverlayOperation::Draw(None, screen));
            },
        }
        assert(operations@ =~= self@.show_operations(display_id, screen));
        operations
    }

    /// Records what came of the operations that show the overlay of a display: the overlay that
    /// is shown, or the error of the operation that failed. Says whether the overlay was hidden
    /// before.
    pub fn record_overlay_shown(
        &mut self,
        display_id: usize,
        outcome: Result<OverlayWindow, OverlayError>,
    ) -> (r: Result<bool, OverlayError>)
        ensures
            old(self)@.records_shown(final(self)@, display_id, outcome, r),
    {
        match outcome {
            Err(e) => Err(e),
            Ok(made) => {
                if self.is_overlay_shown(display_id) {
                    return Ok(false);
                }
                if !self.overlays.contains_key(&display_id) {
                    self.overlays.insert(display_id, made);
                }
                self.overlay_shown.insert(display_id, true);
                Ok(true)
            },
        }
    }

    /// What it takes to hide the overlay of a display; nothing when it is hidden.
    pub fn hide_overlay(&self, display_id: usize) -> (r: Vec<OverlayOperation>)
        ensures
            r@ == self@.hide_operations(display_id),
    {
        let mut operations: Vec<OverlayOperation> = Vec::new();
        if self.is_overlay_shown(display_id) {
            if let Some(overlay) = self.overlays.get(&display_id) {
                operations.push(OverlayOperation::OrderOut(*overlay));
            }
        }
        assert(operations@ =~= self@.hide_operations(display_id));
        operations
    }

    /// Records what came of the operations that hide the overlay of a display. Says whether it
    /// was shown before.
    pub fn record_overlay_hidden(&mut self, display_id: usize, outcome: Result<(), OverlayError>) -> (r:
        Result<bool, OverlayError>)
        ensures
            old(self)@.records_hidden(final(self)@, display_id, outcome, r),
    {
        match outcome {
            Err(e) => Err(e),
            Ok(()) => {
                if !self.is_overlay_shown(display_id) {
                    return Ok(false);
                }
                self.overlay_shown.insert(display_id, false);
                Ok(true)
            },
        }
    }

    /// Removes all overlays. Afterwards no display counts as one whose overlay is shown.
    pub fn clear_all(&mut self)
        ensures
            final(self)@ == old(self)@.cleared(),
    {
        self.overlays.clear();
        self.overlay_shown.clear();
    }
}

/// Windows that have been raised need no raising again, in whatever order they come.
pub proof fn raised_windows_are_not_raised_again(
    before: OverlayModel,
    between: OverlayModel,
    after: OverlayModel,
    display: usize,
    windows: Seq<WindowId>,
    again: Seq<WindowId>,
    first: bool,
    second: bool,
)
    requires
        again.to_multiset() == windows.to_multiset(),
        before.raises(between, display, windows, first),
        between.raises(after, display, again, second),
    ensures
        !second,
        after == between,
{
    let a = choose|sorted: Seq<WindowId>| #[trigger]
        before.raises_in_order(between, display, windows, first, sorted);
    let b = choose|sorted: Seq<WindowId>| #[trigger]
        between.raises_in_order(after, display, again, second, sorted);
    crate::common::collections::rank_order_is_unique(a, b);
}

/// Windows are raised exactly when they are not the ones that were last raised: another set of
/// windows is.
pub proof fn other_windows_are_raised(
    before: OverlayModel,
    between: OverlayModel,
    after: OverlayModel,
    display: usize,
    windows: Seq<WindowId>,
    others: Seq<WindowId>,
    first: bool,
    second: bool,
)
    requires
        others.to_multiset() != windows.to_multiset(),
        before.raises(between, display, windows, first),
        windows.len() > 0,
        between.raises(after, display, others, second),
    ensures
        second,
{
    let a = choose|sorted: Seq<WindowId>| #[trigger]
        before.raises_in_order(between, display, windows, first, sorted);
    windows.to_multiset_ensures();
    a.to_multiset_ensures();
    assert(a.len() == windows.len());
    assert(between.last_raised.contains_key(display));
    assert(between.last_raised[display] == a);
}

/// An overlay that is shown takes nothing to show again, and one that is hidden nothing to hide.
pub proof fn shown_and_hidden_overlays_stay(
    before: OverlayModel,
    display: usize,
    made: OverlayWindow,
    screen: Frame,
)
    ensures
        before.with_shown(display, made).is_shown(display),
        before.with_shown(display, made).show_operations(display, screen).len() == 0,
        !before.with_hidden(display).is_shown(display),
        before.with_hidden(display).hide_operations(display).len() == 0,
        before.with_shown(display, made).with_shown(display, made) == before.with_shown(
            display,
            made,
        ),
        before.with_hidden(display).with_hidden(display) == before.with_hidden(display),
{
}

/// An overlay that was hidden is brought back by giving it its shape and drawing it: none is made
/// a second time.
pub proof fn overlay_is_made_once(
    before: OverlayModel,
    display: usize,
    made: OverlayWindow,
    screen: Frame,
)
    requires
        !before.is_shown(display),
        !before.overlays.contains_key(display),
    ensures
        before.with_shown(display, made).with_hidden(display).show_operations(display, screen)
            == seq![
            OverlayOperation::SetShape(made, screen),
            OverlayOperation::Draw(Some(made), screen),
        ],
{
}

/// When no windows are to be raised, none are the ones that were last raised.
pub proof fn raising_none_forgets_the_raised(
    before: OverlayModel,
    after: OverlayModel,
    display: usize,
    result: bool,
)
    requires
        before.raises(after, display, Seq::empty(), result),
    ensures
        after == before.without_raised(display),
{
    let sorted = choose|sorted: Seq<WindowId>| #[trigger]
        before.raises_in_order(after, display, Seq::empty(), result, sorted);
    sorted.to_multiset_ensures();
    Seq::<WindowId>::empty().to_multiset_ensures();
    assert(sorted =~= Seq::<WindowId>::empty());
    assert(after.last_raised =~= before.without_raised(display).last_raised);
}

/// In every state a display that counts as one whose overlay is shown has an overlay: so it is of
/// a new manager, and showing, hiding, raising windows and removing all overlays keep it so.
pub proof fn shown_displays_have_overlays(
    before: OverlayModel,
    raised: OverlayModel,
    display: usize,
    made: OverlayWindow,
    windows: Seq<WindowId>,
    result: bool,
)
    requires
        before.shown_overlays_exist(),
        before.raises(raised, display, windows, result),
    ensures
        OverlayModel::empty().shown_overlays_exist(),
        before.with_shown(display, made).shown_overlays_exist(),
        before.with_hidden(display).shown_overlays_exist(),
        before.without_raised(display).shown_overlays_exist(),
        raised.shown_overlays_exist(),
        before.cleared().shown_overlays_exist(),
{
    let shown = before.with_shown(display, made);
    assert forall|d: usize| #[trigger] shown.is_shown(d) implies shown.overlays.contains_key(d) by {
        assert(d == display || before.is_shown(d));
    }
    let hidden = before.with_hidden(display);
    assert forall|d: usize| #[trigger] hidden.is_shown(d) implies hidden.overlays.contains_key(
        d,
    ) by {
        assert(before.is_shown(d));
    }
    assert forall|d: usize| #[trigger] raised.is_shown(d) implies raised.overlays.contains_key(
        d,
    ) by {
        assert(before.is_shown(d));
    }
    let forgot = before.without_raised(display);
    assert forall|d: usize| #[trigger] forgot.is_shown(d) implies forgot.overlays.contains_key(
        d,
    ) by {
        assert(before.is_shown(d));
    }
}

/// Once all overlays have been removed, showing one makes it anew, and the display has it again.
pub proof fn removed_overlays_are_made_again(
    before: OverlayModel,
    display: usize,
    made: OverlayWindow,
    screen: Frame,
)
    ensures
        !before.cleared().is_shown(display),
        before.cleared().show_operations(display, screen) == OverlayModel::empty().show_operations(
            display,
            screen,
        ),
        before.cleared().with_shown(display, made).is_shown(display),
        before.cleared().with_shown(display, made).overlays.get(display) == Some(made),
{
}

} // verus!
