//! The closed union of result shapes the database can hand back.
//!
//! The actor core is generic over its output type; this enumeration is the
//! concrete output the surrounding system uses. It is a closed set of
//! variants, an extension point for new result shapes.

use vstd::prelude::*;

verus! {

/// A user record as the database returns it.
#[derive(Debug, PartialEq, Eq)]
pub struct UserInfo;

/// One message record as the database returns it.
#[derive(Debug, PartialEq, Eq)]
pub struct MessageInfo;

/// Everything the database can return: one variant per result shape.
#[derive(Debug, PartialEq, Eq)]
pub enum QueryOutput {
    DiscordUser(UserInfo),
    DiscordMessages(Vec<MessageInfo>),
}

impl QueryOutput {
    /// True exactly when this output carries a user record.
    pub fn is_user(&self) -> (r: bool)
        ensures
            r == (self matches QueryOutput::DiscordUser(_)),
    {
        match self {
            QueryOutput::DiscordUser(_) => true,
            QueryOutput::DiscordMessages(_) => false,
        }
    }
}

} // verus!
