//! An LC-3 virtual machine: memory, registers, instruction decoding and
//! execution, trap decisions and object-image loading, with their contracts.
pub mod hardware;
pub mod loader;
