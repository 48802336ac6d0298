//! The server-introspection surface: `HELLO`, `INFO`, `COMMAND`, `CONFIG`,
//! `INF.NS`, `CLIENT` and `DEBUG`.

pub mod command;
pub mod conn;
pub mod facts;
pub mod ns;
pub mod resp;
pub mod sections;
pub mod settings;
pub mod shown;
pub mod host;
pub mod info;
pub mod lines;
