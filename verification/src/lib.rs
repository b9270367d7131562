//! An interactive toolkit shell's verified core: a command parser, a session
//! holding at most one active module, a dispatcher that routes each command
//! to the module contract, and a sample disclosure module. The host around
//! it performs the outside work — loading a module library, fetching a
//! page, displaying text — and hands the results back.

pub mod command;
pub mod plugin;
pub mod session;
pub mod store;
pub mod zte;

pub use zte::get_plugin;
