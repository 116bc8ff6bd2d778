pub mod env;
pub mod list_remote;
pub mod uninstall_self;
pub mod list;
pub mod use_ver;
pub mod venv;
pub mod install;
pub mod language;
pub mod default;
pub mod uninstall;
