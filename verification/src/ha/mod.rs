pub mod client;

pub use client::HaClient;
