pub mod utils;
pub mod transaction;
pub mod block;
pub mod pow;
pub mod chain;
