//! Domain-level operations: task storage formats, the vertex registry, the
//! current-vertex pointer, workspace initialisation, sync and context.

pub mod task;
pub mod vertex;
pub mod state_pointer;
pub mod project;
pub mod init;
pub mod sync;
pub mod context;
