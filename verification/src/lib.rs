//! Utilities for a host that drives a Lua interpreter through its C API.

use vstd::prelude::*;

pub mod api;
pub mod api_laws;
pub mod cache;
pub mod call_laws;
pub mod callback;
pub mod calls;
pub mod failure;
pub mod laws;
pub mod lemmas;
pub mod machine;
pub mod meta;
pub mod metatable;
pub mod metatable_laws;
pub mod protect;
pub mod registry;
pub mod slot;
pub mod stack;
pub mod state;
pub mod text;
pub mod text_laws;
pub mod userdata;
pub mod userdata_laws;
pub mod value;

verus! {
}
