pub mod auth;
pub mod backend_status;
pub mod config;
pub mod ha;
pub mod json;
pub mod server;
pub mod table;
pub mod text;
pub mod util;
pub mod z2m;
