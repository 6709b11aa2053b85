//! The client's argument handling and keyboard grammar. The interactive
//! loop itself — prompts, stdin, the socket — lives with the embedding
//! program; what is verified here is what the arguments and a typed line
//! mean.

use vstd::prelude::*;
use vstd::string::StrSliceExecFns;
use vstd::string::StringExecFns;
use crate::text::spec_trim;
use crate::text::trim_str;

verus! {

/// The key a user presses to insert a coin.
pub const INSERT_KEY: char = 't';

/// The key a user presses to ask for the pool level.
pub const ASK_KEY: char = 'y';

/// The key a user presses to quit.
pub const QUIT_KEY: char = 'q';

/// Where the server is: a host name and a service name (or port), read
/// from the command line.
pub struct ClientConfig {
    hostname: String,
    servicename: String,
}

impl ClientConfig {
    pub closed spec fn spec_hostname(&self) -> Seq<char> {
        self.hostname@
    }

    pub closed spec fn spec_servicename(&self) -> Seq<char> {
        self.servicename@
    }

    /// Builds the configuration from the argument list; the first argument
    /// is the executable's path and is skipped, the next two are the host
    /// name and the service name, and anything further is ignored.
    pub fn build(args: Vec<String>) -> (r: Result<ClientConfig, &'static str>)
        ensures
            r is Ok <==> args@.len() >= 3,
            r is Ok ==> r->Ok_0.spec_hostname() == args@[1]@ && r->Ok_0.spec_servicename()
                == args@[2]@,
            args@.len() < 2 ==> r == Result::<ClientConfig, &'static str>::Err(
                "Could not get the hostname of the server",
            ),
            args@.len() == 2 ==> r == Result::<ClientConfig, &'static str>::Err(
                "Could not get the servicename of the server",
            ),
    {
        if args.len() < 2 {
            return Err("Could not get the hostname of the server");
        }
        if args.len() < 3 {
            return Err("Could not get the servicename of the server");
        }
        Ok(ClientConfig { hostname: args[1].clone(), servicename: args[2].clone() })
    }

    pub fn hostname(&self) -> (r: &String)
        ensures
            r@ == self.spec_hostname(),
    {
        &self.hostname
    }

    pub fn servicename(&self) -> (r: &String)
        ensures
            r@ == self.spec_servicename(),
    {
        &self.servicename
    }
}

/// What a typed line means: exactly one character once surrounding
/// whitespace is dropped, anything else is rejected and asked again.
pub open spec fn spec_parse_option(input: Seq<char>) -> Option<char> {
    let t = spec_trim(input);
    if t.len() == 1 {
        Some(t[0])
    } else {
        None
    }
}

/// Reads the option a typed line carries, if it is exactly one character.
pub fn parse_option(input: &str) -> (r: Option<char>)
    ensures
        r == spec_parse_option(input@),
{
    let t = trim_str(input);
    if t.unicode_len() == 1 {
        Some(t.get_char(0))
    } else {
        None
    }
}

/// The address a client connects to: the host name, a colon, the service
/// name.
pub fn server_address(hostname: &str, servicename: &str) -> (r: String)
    ensures
        r@ == hostname@ + ":"@ + servicename@,
{
    let mut addr = hostname.to_owned();
    addr.append(":");
    addr.append(servicename);
    addr
}

} // verus!
