//! Android emulators inside an editor panel: discovery of virtual devices, the gRPC client's
//! requests, the live display and the panel that ties them together.
#![allow(unused_imports)]

pub mod text;
pub mod discovery;
pub mod keys;
pub mod emulator_client;
pub mod display;
pub mod sdk;
pub mod android_emulator_panel;
