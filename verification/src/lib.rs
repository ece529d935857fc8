pub mod animation;
pub mod chats;
pub mod cli;
pub mod dispatch;
pub mod encoding;
pub mod install;
pub mod proto;
pub mod rebuild;
pub mod secrets;
pub mod selection;
pub mod shell;
pub mod ssh;
pub mod text;
pub mod util;
