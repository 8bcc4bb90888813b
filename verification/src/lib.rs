//! Verified core of a home-server control plane: the state it keeps, the
//! backend configs it renders, the dynv6 sync decisions and the logic of the
//! UI forms that edit it.
pub mod text;
pub mod toml_doc;
pub mod state;
pub mod config_gen;
pub mod process;
pub mod ids;
pub mod api;
pub mod dynv6;
pub mod network;
pub mod ui;
pub mod static_server;
