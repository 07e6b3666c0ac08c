//! What holds of the library as a whole.

pub mod commands;
pub mod config;
pub mod holders;
pub mod line;
pub mod pool;
pub mod rounds;
pub mod turn;
pub mod worker;
pub mod worker_loop;
