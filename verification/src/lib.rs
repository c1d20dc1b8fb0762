use vstd::prelude::*;

pub mod text;
pub mod stats;
pub mod clips;
pub mod devices;
pub mod hotkeys;
pub mod effects;
pub mod table;
pub mod soundboard;
pub mod ring;

verus! {

} // verus!
