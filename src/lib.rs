pub mod http;
pub mod pool;
