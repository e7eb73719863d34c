//! The verified parts of a small x86-64 kernel: PC Screen Font parsing, a
//! text console on a linear framebuffer, the vectors of the interrupt
//! controllers, and the descriptors of unit tests.
pub mod arch;
pub mod display;
pub mod fonts;
pub mod test_framework;
