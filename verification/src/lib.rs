use vstd::prelude::*;

pub mod text;
pub mod config;
pub mod readback;
pub mod setting_keys;
pub mod learning;
pub mod runtime;
pub mod android;
pub mod idle;
pub mod webui;
pub mod cli;
pub mod supervisor;

verus! {

} // verus!
