//! The reactor: it keeps what is known of windows, applications and screens, and decides what is
//! to be done on each event.
pub mod answer_laws;
pub mod events;
pub mod layout;
pub mod layout_laws;
pub mod managers;
pub mod query;
pub mod query_laws;
pub mod snapshot;
pub mod snapshot_laws;
pub mod state;
