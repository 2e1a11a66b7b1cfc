pub mod board;
pub mod controller;
pub mod flood;
pub mod input;
pub mod rng;
