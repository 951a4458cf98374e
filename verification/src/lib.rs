use vstd::prelude::*;

pub mod asset;
pub mod entities;
pub mod entity;
pub mod text;
pub mod time;
pub mod color;
pub mod config;
pub mod control;
pub mod graphics;
pub mod i18n;
pub mod logic;

verus! {

} // verus!
