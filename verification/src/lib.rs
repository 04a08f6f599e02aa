//! Petsona: the verified core of a desktop pet companion.
//!
//! The crate holds the platform-neutral logic of the pet: screen geometry,
//! pointer interaction, personas, the lightweight pet memory, the model
//! provider's credentials and prompts, runtime settings, the runtime state
//! machine and the native command protocol.
#![allow(unused_imports)]

pub mod geometry;
pub mod text;
pub mod memory;
pub mod memory_laws;
pub mod preference;
pub mod persona;
pub mod deepseek;
pub mod runtime;
pub mod ffi;
pub mod string_map;
pub mod engine;
pub mod interaction;
pub mod autostart;
pub mod platform;
