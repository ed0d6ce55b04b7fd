//! What holds of the library as a whole, stated over what goes into its
//! operations and what comes out of them.

pub mod animating;
pub mod drawing;
pub mod loading;
pub mod members;
pub mod packing;
pub mod planning;
pub mod reading;
pub mod resolving;
pub mod running;
pub mod scripting;
pub mod shading;
pub mod staging;
pub mod values;
