//! Verified core of a desktop agent that drives a computer, a browser and a
//! terminal on behalf of a language model.
#![allow(unused_imports)]

use vstd::prelude::*;

pub mod text;
pub mod bash;
pub mod api;
pub mod storage;
pub mod agent;
pub mod computer;
pub mod browser;
pub mod axtree;
pub mod media;
pub mod voice;
pub mod permissions;
pub mod mcp;
pub mod tools;
pub mod chrome;

verus! {
} // verus!
