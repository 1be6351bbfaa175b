//! Control-plane core for routing audio between applications over a media
//! graph service: a mirror of the live graph, a tracker of link requests in
//! flight, name-based connection presets, and the decisions of the thread
//! that talks to the service.

pub mod bridge;
pub mod manager;
pub mod matcher;
pub mod messages;
pub mod pending;
pub mod presets;
pub mod settings;
pub mod state;
pub mod table;
pub mod text;
pub mod tray;
