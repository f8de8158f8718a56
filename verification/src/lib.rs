//! Planning logic of the NeoArch installer: partition plans, the shell
//! commands that carry them out, mount detection and dialog invocations.

pub mod error;
pub mod outside;
pub mod text;
pub mod ui;
pub mod partitioner;
pub mod manual;
pub mod installer;
pub mod flow;
