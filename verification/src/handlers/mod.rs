//! How the requests of each kind are handled. Each handler decides; what it
//! asks for in between is done by the program around it.
pub mod backend_request;
pub mod capabilities_list;
pub mod completion;
pub mod lifecycle;
pub mod tasks;
pub mod tool_admission;
pub mod tool_dispatch;
pub mod tool_gates;
pub mod tools_call;
