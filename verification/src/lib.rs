pub mod config;
pub mod frame;
pub mod handler;
pub mod jsonc;
pub mod registry;

pub use frame::{Frame, FrameModel, WireMsg, broadcast_frame_of};
pub use registry::{PeerAddr, Registry};
pub use handler::{Conn, Phase, HandlerEvent, HandlerAction, Reject, route_decision, step, not_found_body, NOT_FOUND_STATUS};
pub use config::{Config, ConfigError, config_from_values, load_config};
pub use jsonc::strip_comment_lines;
