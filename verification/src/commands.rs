//! The closed command set and its dispatch.

pub mod command;
pub mod echo;
pub mod get;
pub mod info;
pub mod ping;
pub mod resp_command;
pub mod set_cmd;

pub use command::Command;
pub use command::CommandKind;
pub use echo::Echo;
pub use get::Get;
pub use info::Info;
pub use ping::Ping;
pub use set_cmd::SetCmd;
