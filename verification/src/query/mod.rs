pub mod filter;
pub mod receiver;
pub mod selectors;
