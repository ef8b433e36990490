//! Locating installed release channels of the Discord desktop application.
//!
//! The library holds the logic of the discovery routine on plain values: a
//! caller enumerates a channel's base folder and hands the entries over, and
//! the library ranks the versioned build folders, selects the newest one and
//! derives the path of the resource archive inside it. Reading environment
//! variables and directories, prompting, and launching processes stay with the
//! caller.

pub mod paths;
pub mod tasks;
pub mod text;
