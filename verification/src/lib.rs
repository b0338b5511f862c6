//! Utilities for Panduza applications: an asynchronous callback registry with
//! verified bookkeeping, plain configuration values for brokers and endpoints,
//! logger filter construction, and random client-id generation.

pub mod async_callback_manager;
pub mod config;
pub mod dioxus;
pub mod rand;
pub mod rumqtt;
pub mod text;
pub mod usb_hex;
