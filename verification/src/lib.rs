pub mod departments;
pub mod dice;
pub mod geometry;
pub mod http;
pub mod limiter;
pub mod numbers;
pub mod pool;
pub mod shop;
pub mod stats;
pub mod summary;
pub mod words;

pub use dice::do_thing;
pub use dice::roll_d6;
pub use numbers::add_two;
