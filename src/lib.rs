//! Room-based message relay: a registry of live connections grouped into named
//! rooms, and a per-connection session with a liveness monitor.

pub mod message;
pub mod registry;
pub mod session;
pub mod settings;

pub use message::{ClientMsg, Connect, Delivery, Disconnect, ServerMsg};
pub use registry::ChatServer;
pub use session::{Action, ChatSession, Frame, SessionState};
pub use settings::{get_app_settings, Settings, SettingsError};


