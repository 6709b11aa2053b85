//! A framed message variant carrying a session token.
//!
//! Unused by the running server, this shape was sketched for session
//! resumption: a client that reconnects with its token would stay the
//! owner of its coins, and a connection without one would be answered
//! with a fresh token in this field. The embedding program serialises it
//! and moves it over the wire; verified here is only what a value holds.

use vstd::prelude::*;

verus! {

/// One framed message: a session token and a payload.
pub struct Protocol {
    auth: String,
    message: String,
}

impl Protocol {
    pub closed spec fn spec_auth(&self) -> Seq<char> {
        self.auth@
    }

    pub closed spec fn spec_message(&self) -> Seq<char> {
        self.message@
    }

    pub fn new(auth: String, message: String) -> (r: Protocol)
        ensures
            r.spec_auth() == auth@,
            r.spec_message() == message@,
    {
        Protocol { auth, message }
    }

    pub fn auth(&self) -> (r: &String)
        ensures
            r@ == self.spec_auth(),
    {
        &self.auth
    }

    pub fn message(&self) -> (r: &String)
        ensures
            r@ == self.spec_message(),
    {
        &self.message
    }
}

} // verus!
