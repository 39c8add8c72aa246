//! Commands.
use vstd::prelude::*;
use crate::actor::reactor::managers::{
    AppThreadHandle, Config, DragManager, DragSwapManager, KeyBinding, WorkspaceSwitchManager,
    WorkspaceSwitchState,
};
use crate::actor::reactor::state::{
    Effect, MetricsCommand, RaiseRequest, Reactor, ReactorModel, WmCmd,
};
use crate::common::text::same_text;
use crate::layout_engine::{LayoutCommand, LayoutEvent};
use crate::model::ids::{pid_t, SpaceId, WindowId, WindowServerId};

verus! {

/// What is noted and asked for when a command comes in.
#[derive(Debug)]
pub struct CommandIntake {
    pub visible_spaces: Vec<SpaceId>,
    /// Done before the command is taken up.
    pub store: Option<Effect>,
}

/// What became of a command that was taken up.
#[derive(Debug)]
pub struct CommandTaken {
    /// Whom the command is handed on to. Nobody, when it is about workspaces and there is no
    /// space.
    pub handed_on: Option<Effect>,
    pub is_workspace_switch: bool,
    pub is_window_workspace_change: bool,
}

impl WorkspaceSwitchManager {
    /// The manager once a command has been taken up: a switch of workspaces gets the next
    /// generation number, after the last of which comes the first.
    pub open spec fn taking_up(self, command: LayoutCommand) -> Self {
        if command.switches_workspace() {
            let generation = self.workspace_switch_generation.wrapping_add(1);
            WorkspaceSwitchManager {
                workspace_switch_generation: generation,
                active_workspace_switch: Some(generation),
                ..self
            }
        } else {
            self
        }
    }

    /// The manager once a command has been followed: a switch is under way or not.
    pub open spec fn following(self, is_workspace_switch: bool) -> Self {
        WorkspaceSwitchManager {
            workspace_switch_state: if is_workspace_switch {
                WorkspaceSwitchState::Active
            } else {
                WorkspaceSwitchState::Inactive
            },
            ..self
        }
    }

    /// The manager once a command has been taken up and followed.
    pub open spec fn after_command(self, command: LayoutCommand) -> Self {
        self.taking_up(command).following(command.switches_workspace())
    }
}

/// What a command asks for before it is taken up: a switch of workspaces stores where the
/// floating windows are.
pub open spec fn stored_first(command: LayoutCommand, space: Option<SpaceId>) -> Option<Effect> {
    match space {
        Some(s) if command.switches_workspace() => Some(Effect::StoreFloatingPositions(s)),
        _ => None,
    }
}

/// Whom a command is handed on to; a command about workspaces is lost when there is no space.
pub open spec fn hands_on(
    command: LayoutCommand,
    space: Option<SpaceId>,
    visible: Seq<SpaceId>,
    effect: Option<Effect>,
) -> bool {
    if command.is_about_workspaces() {
        effect == match space {
            Some(s) => Some(Effect::WorkspaceCommand(s, command)),
            None => None,
        }
    } else {
        &&& effect matches Some(
            Effect::EngineCommand { space: told, visible_spaces, command: passed },
        )
        &&& told == space
        &&& visible_spaces@ == visible
        &&& passed == command
    }
}

/// What follows a command: applications are shown and hidden before the answer is acted on, so
/// that windows are there when they get the focus.
pub open spec fn followed_by(is_workspace_switch: bool, is_window_workspace_change: bool) -> Seq<
    Effect,
> {
    if is_workspace_switch || is_window_workspace_change {
        seq![Effect::UpdateAppVisibility, Effect::HandleLayoutResponse]
    } else {
        seq![Effect::HandleLayoutResponse]
    }
}

/// A command for the layout is taken up.
pub open spec fn takes_up_command(
    before: ReactorModel,
    after: ReactorModel,
    cmd: LayoutCommand,
    visible: Seq<SpaceId>,
    space: Option<SpaceId>,
    taken: CommandTaken,
) -> bool {
    &&& after == (ReactorModel { switching: before.switching.taking_up(cmd), ..before })
    &&& hands_on(cmd, space, visible, taken.handed_on)
    &&& taken.is_workspace_switch == cmd.switches_workspace()
    &&& taken.is_window_workspace_change == (cmd is MoveWindowToWorkspace)
}

/// A command for the layout that has been followed is finished.
pub open spec fn finishes_command(
    before: ReactorModel,
    after: ReactorModel,
    is_workspace_switch: bool,
    is_window_workspace_change: bool,
    effects: Seq<Effect>,
) -> bool {
    &&& after == (ReactorModel {
        switching: before.switching.following(is_workspace_switch),
        ..before
    })
    &&& effects =~= followed_by(is_workspace_switch, is_window_workspace_change)
}

/// Keys and what they do, as text.
pub open spec fn bindings(keys: Seq<KeyBinding>) -> Seq<(Seq<char>, Seq<char>)> {
    keys.map_values(|k: KeyBinding| (k.hotkey@, k.command@))
}

/// The settings have changed: the keys from before are told, and the layout is to follow.
pub open spec fn takes_config(
    before: ReactorModel,
    after: ReactorModel,
    config: Config,
    old_keys: Vec<KeyBinding>,
    effect: Effect,
) -> bool {
    &&& after == (ReactorModel { config, ..before })
    &&& old_keys == before.config.keys
    &&& effect == Effect::ApplyLayoutSettings
}

impl ReactorModel {
    /// What is asked for to print the layout trees of the spaces that are shown.
    pub open spec fn debug_effects(self) -> Seq<Effect> {
        crate::actor::reactor::state::visible_spaces(self.screens).map_values(
            |s: SpaceId| Effect::DebugTree(s),
        )
    }

    /// What is asked of the window manager, if there is one.
    pub open spec fn asked_of_wm(self, cmd: WmCmd) -> Option<Effect> {
        if self.channels.wm_sender is Some {
            Some(Effect::Wm(cmd))
        } else {
            None
        }
    }

    /// What is asked for to dismiss Mission Control.
    pub open spec fn asked_to_dismiss(self) -> Effect {
        if self.channels.wm_sender is Some {
            Effect::Wm(WmCmd::ShowMissionControlAll)
        } else {
            Effect::SetMissionControlActive(false)
        }
    }

    /// The reactor once the drags follow its settings.
    pub open spec fn with_snapping(self) -> Self {
        ReactorModel {
            drag: DragManager {
                drag_swap_manager: DragSwapManager {
                    config: self.config.window_snapping,
                    ..self.drag.drag_swap_manager
                },
                ..self.drag
            },
            ..self
        }
    }

    /// What the reactor's settings ask for once the layout follows them.
    pub open spec fn told_config(self) -> Seq<Effect> {
        let laid_out = Effect::UpdateLayout { is_resize: false, is_workspace_switch: true };
        if self.channels.stack_line_tx is Some {
            seq![Effect::ConfigToStackLine, laid_out]
        } else {
            seq![laid_out]
        }
    }

    /// What the reactor's settings ask for at the end: the window manager is told only of other
    /// keys.
    pub open spec fn told_keys(self, old_keys: Seq<KeyBinding>) -> Option<Effect> {
        if bindings(old_keys) != bindings(self.config.keys@) && self.channels.wm_sender is Some {
            Some(Effect::ConfigToWm)
        } else {
            None
        }
    }

    /// The handle of the application that owns the window.
    pub open spec fn handles_for(self, wid: WindowId) -> Seq<(pid_t, AppThreadHandle)> {
        if self.apps.contains_key(wid.pid) {
            seq![(wid.pid, self.apps[wid.pid].handle)]
        } else {
            Seq::empty()
        }
    }
}

/// Gives the focus to a window and raises nothing else.
pub open spec fn focuses(
    request: RaiseRequest,
    wid: WindowId,
    handles: Seq<(pid_t, AppThreadHandle)>,
) -> bool {
    &&& request.raise_windows@.len() == 0
    &&& request.focus_window == Some((wid, None::<crate::actor::reactor::state::ScreenPoint>))
    &&& request.app_handles@ == handles
}

/// What it takes to give a window the focus. A window that the reactor knows is made known to the
/// layout, where it is on a space, and raised by its application; of another the window server is
/// asked, where its number is known.
pub open spec fn focus_effects(
    before: ReactorModel,
    wid: WindowId,
    wsid: Option<WindowServerId>,
    space: Option<SpaceId>,
    effects: Seq<Effect>,
) -> bool {
    if before.windows.contains_key(wid) {
        &&& effects.len() == if space is Some {
            2nat
        } else {
            1nat
        }
        &&& (space matches Some(s) ==> effects[0] == Effect::Layout(
            LayoutEvent::WindowFocused(s, wid),
        ))
        &&& effects.last() matches Effect::Raise(request)
        &&& focuses(request, wid, before.handles_for(wid))
    } else {
        match wsid {
            Some(id) => effects =~= seq![Effect::MakeKeyWindow(wid.pid, id)],
            None => effects.len() == 0,
        }
    }
}

/// Whether the keys do the same.
fn same_bindings(a: &Vec<KeyBinding>, b: &Vec<KeyBinding>) -> (r: bool)
    ensures
        r == (bindings(a@) == bindings(b@)),
{
    assert(bindings(a@).len() == a@.len());
    assert(bindings(b@).len() == b@.len());
    if a.len() != b.len() {
        return false;
    }
    let mut i: usize = 0;
    while i < a.len()
        invariant
            i <= a@.len(),
            a@.len() == b@.len(),
            forall|j: int| 0 <= j < i ==> #[trigger] bindings(a@)[j] == bindings(b@)[j],
        decreases a@.len() - i,
    {
        if !same_text(a[i].hotkey.as_str(), b[i].hotkey.as_str()) || !same_text(
            a[i].command.as_str(),
            b[i].command.as_str(),
        ) {
            assert(bindings(a@)[i as int] != bindings(b@)[i as int]);
            return false;
        }
        i += 1;
    }
    assert(bindings(a@) =~= bindings(b@));
    true
}

/// Handles commands.
pub struct CommandEventHandler;

impl CommandEventHandler {
    /// A command for the layout has come in. What is asked for is done before the command is taken
    /// up. The space that commands about workspaces are for is handed in.
    pub fn prepare_command_layout(
        reactor: &Reactor,
        cmd: &LayoutCommand,
        command_space: Option<SpaceId>,
    ) -> (r: CommandIntake)
        ensures
            r.visible_spaces@ == crate::actor::reactor::state::visible_spaces(reactor@.screens),
            r.store == stored_first(*cmd, command_space),
    {
        let visible_spaces = reactor.shown_spaces();
        let store = match command_space {
            Some(space) if cmd.is_workspace_switch() => Some(Effect::StoreFloatingPositions(space)),
            _ => None,
        };
        CommandIntake { visible_spaces, store }
    }

    /// Takes up a command for the layout. What it is handed on to is done before the command is
    /// finished. The space that commands about workspaces are for is handed in, and so are the
    /// spaces that were shown when the command came in.
    pub fn handle_command_layout(
        reactor: &mut Reactor,
        cmd: LayoutCommand,
        visible_spaces: Vec<SpaceId>,
        command_space: Option<SpaceId>,
    ) -> (r: CommandTaken)
        ensures
            takes_up_command(
                old(reactor)@,
                final(reactor)@,
                cmd,
                visible_spaces@,
                command_space,
                r,
            ),
    {
        let is_workspace_switch = cmd.is_workspace_switch();
        let is_window_workspace_change = cmd.is_window_workspace_change();
        if is_workspace_switch {
            let generation =
                reactor.workspace_switch_manager.workspace_switch_generation.wrapping_add(1);
            reactor.workspace_switch_manager.workspace_switch_generation = generation;
            reactor.workspace_switch_manager.active_workspace_switch = Some(generation);
        }
        let handed_on = if cmd.is_workspace_command() {
            match command_space {
                Some(space) => Some(Effect::WorkspaceCommand(space, cmd)),
                None => None,
            }
        } else {
            Some(Effect::EngineCommand { space: command_space, visible_spaces, command: cmd })
        };
        CommandTaken { handed_on, is_workspace_switch, is_window_workspace_change }
    }

    /// Finishes a command for the layout that has been followed.
    pub fn finish_command_layout(
        reactor: &mut Reactor,
        is_workspace_switch: bool,
        is_window_workspace_change: bool,
    ) -> (effects: Vec<Effect>)
        ensures
            finishes_command(
                old(reactor)@,
                final(reactor)@,
                is_workspace_switch,
                is_window_workspace_change,
                effects@,
            ),
    {
        reactor.workspace_switch_manager.workspace_switch_state = if is_workspace_switch {
            WorkspaceSwitchState::Active
        } else {
            WorkspaceSwitchState::Inactive
        };
        let mut effects: Vec<Effect> = Vec::new();
        if is_workspace_switch || is_window_workspace_change {
            effects.push(Effect::UpdateAppVisibility);
        }
        effects.push(Effect::HandleLayoutResponse);
        assert(effects@ =~= followed_by(is_workspace_switch, is_window_workspace_change));
        effects
    }

    /// A command about the metrics.
    pub fn handle_command_metrics(_reactor: &Reactor, cmd: MetricsCommand) -> (effect: Effect)
        ensures
            effect == Effect::Metrics(cmd),
    {
        Effect::Metrics(cmd)
    }

    /// The settings have changed. Tells the keys from before; what is asked for is done before the
    /// drags follow the settings.
    pub fn handle_config_updated(reactor: &mut Reactor, new_cfg: Config) -> (r: (
        Vec<KeyBinding>,
        Effect,
    ))
        ensures
            takes_config(old(reactor)@, final(reactor)@, new_cfg, r.0, r.1),
    {
        let mut cfg = new_cfg;
        std::mem::swap(&mut reactor.config_manager.config, &mut cfg);
        (cfg.keys, Effect::ApplyLayoutSettings)
    }

    /// The layout follows the settings, and so do the drags from now on. What is asked for is done
    /// before the keys are looked at.
    pub fn settle_config_updated(reactor: &mut Reactor) -> (effects: Vec<Effect>)
        ensures
            final(reactor)@ == old(reactor)@.with_snapping(),
            effects@ == old(reactor)@.told_config(),
    {
        let snapping = reactor.config_manager.config.window_snapping;
        reactor.drag_manager.update_config(snapping);
        let mut effects: Vec<Effect> = Vec::new();
        if reactor.communication_manager.stack_line_tx.is_some() {
            effects.push(Effect::ConfigToStackLine);
        }
        effects.push(Effect::UpdateLayout { is_resize: false, is_workspace_switch: true });
        assert(effects@ =~= old(reactor)@.told_config());
        effects
    }

    /// The windows are laid out by the settings; the keys from before are handed in.
    pub fn finish_config_updated(reactor: &Reactor, old_keys: &Vec<KeyBinding>) -> (effect: Option<
        Effect,
    >)
        ensures
            effect == reactor@.told_keys(old_keys@),
    {
        if !same_bindings(old_keys, &reactor.config_manager.config.keys)
            && reactor.communication_manager.wm_sender.is_some() {
            Some(Effect::ConfigToWm)
        } else {
            None
        }
    }

    /// Prints the layout trees of the spaces that are shown.
    pub fn handle_command_reactor_debug(reactor: &Reactor) -> (effects: Vec<Effect>)
        ensures
            effects@ == reactor@.debug_effects(),
    {
        let spaces = reactor.shown_spaces();
        let mut effects: Vec<Effect> = Vec::new();
        let mut i: usize = 0;
        while i < spaces.len()
            invariant
                i <= spaces@.len(),
                effects@ == spaces@.take(i as int).map_values(|s: SpaceId| Effect::DebugTree(s)),
            decreases spaces@.len() - i,
        {
            effects.push(Effect::DebugTree(spaces[i]));
            i += 1;
            assert(effects@ =~= spaces@.take(i as int).map_values(
                |s: SpaceId| Effect::DebugTree(s),
            ));
        }
        assert(spaces@.take(spaces@.len() as int) =~= spaces@);
        effects
    }

    /// Gives the focus to a window. The space that the window is mostly on is handed in.
    pub fn handle_command_reactor_focus_window(
        reactor: &Reactor,
        window_id: WindowId,
        window_server_id: Option<WindowServerId>,
        space: Option<SpaceId>,
    ) -> (effects: Vec<Effect>)
        ensures
            focus_effects(reactor@, window_id, window_server_id, space, effects@),
    {
        let mut effects: Vec<Effect> = Vec::new();
        if reactor.window_manager.windows.contains_key(&window_id) {
            if let Some(s) = space {
                effects.push(Effect::Layout(LayoutEvent::WindowFocused(s, window_id)));
            }
            let mut app_handles: Vec<(pid_t, AppThreadHandle)> = Vec::new();
            if let Some(app) = reactor.app_manager.apps.get(&window_id.pid) {
                app_handles.push((window_id.pid, app.handle));
            }
            assert(app_handles@ =~= reactor@.handles_for(window_id));
            effects.push(
                Effect::Raise(
                    RaiseRequest {
                        raise_windows: Vec::new(),
                        focus_window: Some((window_id, None)),
                        app_handles,
                    },
                ),
            );
        } else if let Some(wsid) = window_server_id {
            effects.push(Effect::MakeKeyWindow(window_id.pid, wsid));
        }
        effects
    }

    /// Has the window manager show all windows in Mission Control.
    pub fn handle_command_reactor_show_mission_control_all(reactor: &Reactor) -> (effect: Option<
        Effect,
    >)
        ensures
            effect == reactor@.asked_of_wm(WmCmd::ShowMissionControlAll),
    {
        if reactor.communication_manager.wm_sender.is_some() {
            Some(Effect::Wm(WmCmd::ShowMissionControlAll))
        } else {
            None
        }
    }

    /// Has the window manager show the windows of the current workspace in Mission Control.
    pub fn handle_command_reactor_show_mission_control_current(reactor: &Reactor) -> (effect: Option<
        Effect,
    >)
        ensures
            effect == reactor@.asked_of_wm(WmCmd::ShowMissionControlCurrent),
    {
        if reactor.communication_manager.wm_sender.is_some() {
            Some(Effect::Wm(WmCmd::ShowMissionControlCurrent))
        } else {
            None
        }
    }

    /// Leaves Mission Control. Where there is a window manager, it is sent the request to show
    /// all windows; otherwise Mission Control is taken to be over.
    pub fn handle_command_reactor_dismiss_mission_control(reactor: &Reactor) -> (effect: Effect)
        ensures
            effect == reactor@.asked_to_dismiss(),
    {
        if reactor.communication_manager.wm_sender.is_some() {
            Effect::Wm(WmCmd::ShowMissionControlAll)
        } else {
            Effect::SetMissionControlActive(false)
        }
    }
}

/// Where nothing but the commands changes the state of switches, a switch of workspaces is under way
/// exactly when the last command was one, and two switches that follow each other have different
/// generations.
pub proof fn switches_have_different_generations(
    before: WorkspaceSwitchManager,
    first: LayoutCommand,
    second: LayoutCommand,
)
    ensures
        before.after_command(first).workspace_switch_state == WorkspaceSwitchState::Active
            <==> first.switches_workspace(),
        first.switches_workspace() && second.switches_workspace() ==> before.after_command(
            first,
        ).active_workspace_switch != before.after_command(first).after_command(
            second,
        ).active_workspace_switch,
{
}

/// Settings that are given a second time have the same keys, so the window manager is not told
/// again.
pub proof fn same_settings_are_not_announced_twice(before: ReactorModel, config: Config)
    ensures
        ({
            let once = (ReactorModel { config, ..before }).with_snapping();
            let twice = (ReactorModel { config, ..once }).with_snapping();
            &&& twice == once
            &&& twice.told_keys(once.config.keys@) is None
        }),
{
}

} // verus!
