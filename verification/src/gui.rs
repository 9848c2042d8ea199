//! The payloads of the desktop shell's IPC commands.

use vstd::prelude::*;
use crate::clock::utc_now;
use crate::text::owned;

verus! {

/// Project metadata as shown on the homepage cards.
#[derive(Debug, Clone)]
pub struct ProjectMeta {
    pub id: String,
    pub name: String,
    pub path: String,
    pub vertex_count: u32,
    pub task_count: u32,
    pub conflict_count: u32,
    pub last_opened_at: Option<String>,
    pub initialized: bool,
}

/// Response of the smoke-test greeting.
#[derive(Debug, Clone)]
pub struct Greeting {
    pub message: String,
    pub backend: String,
    pub timestamp: String,
}

/// All known projects. Project discovery is not wired yet: the list is
/// empty.
pub fn kron_project_list() -> (res: Vec<ProjectMeta>)
    ensures
        res@.len() == 0,
{
    Vec::new()
}

/// The greeting for `name` at time `timestamp`.
pub fn greeting(name: &str, timestamp: &str) -> (res: Greeting)
    ensures
        res.message@ == "Hello from Kron backend, "@ + name@ + "!"@,
        res.backend@ == "kron-gui Tauri 2"@,
        res.timestamp@ == timestamp@,
{
    let mut message = owned("Hello from Kron backend, ");
    message.append(name);
    message.append("!");
    Greeting { message, backend: owned("kron-gui Tauri 2"), timestamp: owned(timestamp) }
}

/// The greeting for `name`, stamped with the current time.
pub fn kron_greet(name: &str) -> (res: Greeting)
    ensures
        res.message@ == "Hello from Kron backend, "@ + name@ + "!"@,
        res.backend@ == "kron-gui Tauri 2"@,
{
    let now = utc_now();
    greeting(name, now.rfc3339.as_str())
}

} // verus!
