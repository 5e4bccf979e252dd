use vstd::prelude::*;

pub mod address;
pub mod cli;
pub mod text;
pub mod tls;
pub mod common;
pub mod duplex;
pub mod ip;
pub mod net;
pub mod proxy;

verus! {

} // verus!
