//! A CHIP-8 interpreter core whose instruction semantics are stated as a
//! mathematical model and proved of the executable machine.

pub mod blit;
pub mod decode;
pub mod entropy;
pub mod laws;
pub mod machine;
pub mod model;
