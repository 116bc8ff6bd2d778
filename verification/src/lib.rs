pub mod error;
pub mod checksum;
pub mod branding;
pub mod text;
pub mod paths;
pub mod validate;
pub mod dirs;
pub mod args;
pub mod i18n;
pub mod commands;
pub mod versions;
pub mod precedence;
pub mod cli;
pub mod shim;
pub mod setup;
pub mod releases;
pub mod installer;
