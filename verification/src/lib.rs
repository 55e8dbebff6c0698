//! A singly-linked sequence container built from individually owned link
//! cells, each cell owning the rest of the chain. The container offers
//! append, prepend, removal from the front, removal of the second-to-last
//! cell, positional insertion, indexed reads and writes, linear search,
//! and several traversal forms, all with verified contracts over a
//! sequence view of the chain.

pub mod laws;
pub mod link;
