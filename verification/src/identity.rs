//! What a request tells about its sender: the address it came from and the
//! user agent it names. Both are kept with the session for audit.

use vstd::prelude::*;
use crate::account::copy_text;

verus! {

/// The sender of a request. Either part may be missing.
#[derive(Debug)]
pub struct Identity {
    /// The client's IP address, in its usual text form.
    pub ip: Option<String>,
    /// The value of the `User-Agent` header.
    pub user_agent: Option<String>,
}

impl Identity {
    /// Captures the two parts as they were read from the request.
    pub fn new(ip: Option<String>, user_agent: Option<String>) -> (r: Identity)
        ensures
            r.ip == ip,
            r.user_agent == user_agent,
    {
        Identity { ip, user_agent }
    }

    /// A sender of whom nothing is known.
    pub fn unknown() -> (r: Identity)
        ensures
            r.ip.is_none(),
            r.user_agent.is_none(),
    {
        Identity { ip: None, user_agent: None }
    }

    /// The address as text, as it is written into the session.
    pub fn ip_string(&self) -> (r: Option<String>)
        ensures
            r == self.ip,
    {
        copy_text(&self.ip)
    }

    /// The user agent, as it is written into the session.
    pub fn agent_string(&self) -> (r: Option<String>)
        ensures
            r == self.user_agent,
    {
        copy_text(&self.user_agent)
    }
}

} // verus!
