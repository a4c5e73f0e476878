use vstd::prelude::*;

pub mod text;
pub mod json;
pub mod domain;
pub mod converter;
pub mod engines;
pub mod assets;
pub mod api;

verus! {
} // verus!
