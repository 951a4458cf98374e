pub mod simple;
pub mod spiky;
