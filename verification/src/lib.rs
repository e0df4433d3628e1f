pub mod type_key;
pub mod query;
pub mod rr;
pub mod meta;
pub mod text;
pub mod id;
pub mod data;
pub mod links;
pub mod link;
pub mod link_builder;
pub mod adapter;
pub mod attrs;
pub mod data_impl;
