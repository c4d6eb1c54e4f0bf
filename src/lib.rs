pub mod cpu_8;
pub mod decode;
pub mod font;
pub mod laws;
mod rng;
pub mod state;
