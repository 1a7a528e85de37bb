//! The verified core of a local inference server.

pub mod batch;
pub mod bytes;
pub mod cli;
pub mod generate;
pub mod gguf;
pub mod init;
pub mod kv_cache;
pub mod loader;
pub mod native;
pub mod occurs;
pub mod panic_capture;
pub mod prefix_cache;
pub mod quant;
pub mod ranking;
pub mod reuse;
pub mod role;
pub mod sampling;
pub mod scheduler;
pub mod single;
pub mod suggest;
pub mod text;
pub mod tokenizer;
pub mod vulkan_shaders;
pub mod web;
