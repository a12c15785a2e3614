//! The sample component whose types and functions are exported through the
//! `golem` attribute.

use vstd::prelude::*;

use crate::text::string_of;

verus! {

broadcast use vstd::string::group_string_axioms;

pub struct Person {
    pub name: String,
    pub address: Address,
}

pub struct SimpleStruct {
    pub name: String,
    pub age: u16,
}

pub struct Address {
    pub street: Option<String>,
    pub city: Option<Result<String, String>>,
    pub state: String,
    pub zip: String,
    pub color: Color,
}

#[derive(Debug, PartialEq, Eq, Structural)]
pub enum Color {
    Red,
    Green,
    Blue,
    BlueGreen,
}

pub enum VariantTest {
    V1(String),
    V2(Vec<String>),
}

pub struct BidderId {
    pub bidder_id: Result<Color, String>,
    pub verified: bool,
}

/// Registers a bidder. Bidder registration is not open: the identity is
/// always the error `hello`, unverified.
pub fn create_bidder(full_name: String, address: Vec<String>, age: Option<u16>) -> (r: BidderId)
    ensures
        r.bidder_id matches Err(s) && s@ == "hello"@,
        !r.verified,
{
    let _ = full_name;
    let _ = address;
    let _ = age;
    BidderId { bidder_id: Err(string_of("hello")), verified: false }
}

/// The address on record: an empty street, an empty city, empty state and
/// zip, and the colour blue.
pub fn get_address() -> (r: Address)
    ensures
        r.street matches Some(s) && s@ == ""@,
        r.city matches Some(Ok(c)) && c@ == ""@,
        r.state@ == ""@,
        r.zip@ == ""@,
        r.color == Color::Blue,
{
    Address {
        street: Some(string_of("")),
        city: Some(Ok(string_of(""))),
        state: string_of(""),
        zip: string_of(""),
        color: Color::Blue,
    }
}

} // verus!
