pub mod client;
pub mod payload;

pub use client::Z2mClient;
pub use client::Z2mError;
