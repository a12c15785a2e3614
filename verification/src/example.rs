//! Domain types of the example component: a person, colours, the outcome of
//! a bid and a bidder's identity.

use vstd::prelude::*;

verus! {

pub struct Person {
    pub name: String,
    pub age: i32,
}

pub enum Colors {
    Red,
    White,
    Yellow,
}

pub enum BidResult {
    Success,
    Failure(String, u32),
    Someone { name: String, age: u32 },
}

pub enum IpAddrEmpty {
    V4,
    V6,
}

pub struct BidderId {
    pub bidder_id: Result<IpAddrEmpty, String>,
    pub verified: bool,
}

} // verus!
