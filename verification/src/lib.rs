pub mod decode;
pub mod order;
pub mod paths;
pub mod providers;
pub mod resource;
pub mod ui;

use vstd::prelude::*;

verus! {

/// Navigation state of the surrounding application shell; the shell itself
/// (window, events, rendering) lives outside this library.
pub struct AppState {}

} // verus!
