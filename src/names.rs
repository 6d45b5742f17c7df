use vstd::prelude::*;

use crate::models::{decimal, UserId};

verus! {

/// The display names of well-known users.
pub open spec fn known_name(id: u64) -> Option<Seq<char>> {
    match id {
        0 => Some("TheOtherPitOfFire"@),
        1 => Some("PitOfFire"@),
        2 => Some("Dos"@),
        3 => Some("Three"@),
        4 => Some("Four"@),
        125003180219170816 => Some("Colin"@),
        155438323354042368 => Some("Ben"@),
        165858230327574528 => Some("Shelvacu"@),
        175691653770641409 => Some("DDR"@),
        173650493145350145 => Some("Sparks"@),
        182663630280589312 => Some("Azure"@),
        189163550890000384 => Some("hemaglox"@),
        189620154122895360 => Some("Leeli"@),
        240939050360504320 => Some("InvisiBrony"@),
        265905786469744640 => Some("AtomicTaco"@),
        271540455584301057 => Some("Anthony"@),
        308798067023544320 => Some("Razgriz"@),
        359950109229973504 => Some("ManganeseFrog"@),
        368635452925935616 => Some("TopHatimus"@),
        373610438560317441 => Some("Matt"@),
        _ => None,
    }
}

pub(crate) fn lookup_known(id: u64) -> (r: Option<&'static str>)
    ensures
        r is Some <==> known_name(id) is Some,
        r is Some ==> r->0@ == known_name(id)->0,
{
    match id {
        0 => Some("TheOtherPitOfFire"),
        1 => Some("PitOfFire"),
        2 => Some("Dos"),
        3 => Some("Three"),
        4 => Some("Four"),
        125003180219170816 => Some("Colin"),
        155438323354042368 => Some("Ben"),
        165858230327574528 => Some("Shelvacu"),
        175691653770641409 => Some("DDR"),
        173650493145350145 => Some("Sparks"),
        182663630280589312 => Some("Azure"),
        189163550890000384 => Some("hemaglox"),
        189620154122895360 => Some("Leeli"),
        240939050360504320 => Some("InvisiBrony"),
        265905786469744640 => Some("AtomicTaco"),
        271540455584301057 => Some("Anthony"),
        308798067023544320 => Some("Razgriz"),
        359950109229973504 => Some("ManganeseFrog"),
        368635452925935616 => Some("TopHatimus"),
        373610438560317441 => Some("Matt"),
        _ => None,
    }
}

/// How a user is shown: their well-known name, or else their id in decimal.
pub fn name_of(user: UserId) -> (r: String)
    ensures
        r@ == match known_name(user.0) {
            Some(n) => n,
            None => decimal(user.0 as nat),
        },
{
    match lookup_known(user.into_u64()) {
        Some(name) => String::from_str(name),
        None => user.to_string(),
    }
}

} // verus!
