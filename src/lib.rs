use vstd::prelude::*;

pub mod bot;
pub mod command;
pub mod shuffle;
pub mod teams;
pub mod token;
pub mod text;

verus! {

} // verus!
