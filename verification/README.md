# rift_workspaces

Virtual workspaces for a tiling window manager: the workspaces of each display and the windows in
them, the rules that send windows to workspaces, the decisions of the reactor on each event, and the
answers to questions about its state. The library is written in Verus; every function states what it
returns or changes, and the contracts are proved.

- `src/model` — identifiers, one workspace, the manager of all workspaces
  (`virtual_workspace.rs`), the rules (`app_rules.rs`), and what holds of the manager in every
  state (`laws.rs`). `manager_model.rs` says what the manager holds and how requests change it;
  `virtual_workspace/saved.rs` says what is saved of it and restored.
- `src/layout_engine.rs` — what the reactor knows of the layout.
- `src/actor/reactor` — the reactor's state, its event handlers, the plan for a layout, the answers
  to questions and a snapshot of the state.
- `src/ui` — the overlays that hide the windows of inactive workspaces.
- `src/common` — containers, text and settings.
- `app` — ordinary Rust around the library: what only the desktop can tell or do, JSON, and the
  form in which the workspaces are saved.

The library rests on two outside crates: `slotmap`, which stores the workspaces
(`src/model/slots.rs`), and `regex`, which matches window titles (`src/model/app_rules.rs`).
