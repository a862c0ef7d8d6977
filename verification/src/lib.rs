//! A small register-based virtual machine with a fixed byte-addressable
//! memory, sixteen 32-bit registers (register 0 is the instruction pointer),
//! and a fetch-decode-execute loop over an eight-instruction set, together
//! with a few companion utilities (an 8x8 LED image type, a checked
//! Fibonacci computation, and small string helpers).

pub mod decimal;
pub mod fibo;
pub mod gamma;
pub mod image;
pub mod machine;
pub mod semantics;
pub mod sink;
pub mod text;

pub use image::Color;
pub use image::Image;
