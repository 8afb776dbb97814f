//! The logic of a daemon that links a car display to a phone.

pub mod ab;
pub mod address;
pub mod app;
pub mod audio;
pub mod bluetooth;
pub mod bluetooth_agent;
pub mod brightness;
pub mod buffer;
pub mod config;
pub mod effect;
pub mod error;
pub mod iap2_wrapper;
pub mod image_cache;
pub mod json;
pub mod mfi;
pub mod mfi_impl;
pub mod pcm;
pub mod spp;
pub mod table;
pub mod text;
pub mod voice;
pub mod wakeword;
pub mod websocket;
