//! Verified core of an image tool server: content-addressed cache keys,
//! artifact-store layout, raw RGBA pixel transforms, image sniffing and
//! coding, the remote task poller and the ordered batch collector.

pub mod batch;
pub mod codec;
pub mod history;
pub mod keyer;
pub mod modelscope;
pub mod pipeline;
pub mod pixels;
pub mod poller;
pub mod records;
pub mod store;
pub mod text;
pub mod tools;
pub mod web;
