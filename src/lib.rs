//! Core of a dual-pane file manager: the background job registry and the
//! worker decisions behind copy, move, delete and rename jobs, the pane
//! state with its stale-result rejection, the file viewer's logic, and the
//! formatting helpers.

pub mod dialog;
pub mod job;
pub mod pane;
pub mod paths;
pub mod state;
pub mod throughput;
pub mod util;
pub mod viewer;
pub mod worker;
