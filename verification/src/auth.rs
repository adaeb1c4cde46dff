//! The recurring authorization predicate: who may act on a circle.

use vstd::prelude::*;

use crate::state::Circle;

verus! {

/// The caller is the circle's creator.
pub open spec fn is_creator(c: Circle, sender: Seq<char>) -> bool {
    c.creator_address@ == sender
}

/// The caller is the circle's configured arbiter.
pub open spec fn is_arbiter(c: Circle, sender: Seq<char>) -> bool {
    c.arbiter_address matches Some(a) && a@ == sender
}

/// The caller holds the creator or the arbiter role.
pub open spec fn creator_or_arbiter(c: Circle, sender: Seq<char>) -> bool {
    is_creator(c, sender) || is_arbiter(c, sender)
}

/// Whether `sender` is the creator of `c`.
pub fn check_creator(c: &Circle, sender: &String) -> (r: bool)
    ensures
        r == is_creator(*c, sender@),
{
    c.creator_address == *sender
}

/// Whether `sender` is the creator or the arbiter of `c`.
pub fn check_creator_or_arbiter(c: &Circle, sender: &String) -> (r: bool)
    ensures
        r == creator_or_arbiter(*c, sender@),
{
    if c.creator_address == *sender {
        return true;
    }
    match &c.arbiter_address {
        Some(a) => *a == *sender,
        None => false,
    }
}

} // verus!
