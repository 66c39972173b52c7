//! Password generation with guaranteed character-class coverage.
//!
//! A [`selection::Selection`] says which of the four character classes of
//! [`alphabet`] a password may use. [`builder::generate_password`] draws a
//! password of a requested length from the pool of the enabled classes and
//! guarantees that every enabled class is represented and that no other
//! character occurs. [`random`] holds the random source it draws with,
//! [`input`] the rules by which answers typed at a prompt are read, and
//! [`text`] the words shown at the terminal.

pub mod alphabet;
pub mod selection;
pub mod random;
pub mod builder;
pub mod input;
pub mod text;
