//! Object pointers and image loading for a Blue Book Smalltalk-80 virtual machine.
pub mod errors;
pub mod globalconstants;
pub mod oop;
pub mod objectmemory;
pub mod image;
