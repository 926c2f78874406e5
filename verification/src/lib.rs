use vstd::prelude::*;

pub mod text;
pub mod json;
pub mod numbers;
pub mod outside;
pub mod accounts;
pub mod storage;
pub mod sorting;
pub mod conversations;
pub mod keyed;
pub mod backup;
pub mod registration;
pub mod mail;
pub mod cursor_info;
pub mod batch;

verus! {

} // verus!
