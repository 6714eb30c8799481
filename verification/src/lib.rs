use vstd::prelude::*;

pub mod command;
pub mod dispatch;
pub mod inventory;
pub mod log;
pub mod pattern;
pub mod product;
pub mod report;
pub mod session;

verus! {

} // verus!
