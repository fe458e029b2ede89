//! A running node, and the bookkeeping of its shutdown.

use vstd::prelude::*;
use crate::error::InternalError;
use crate::text::{decimal, decimal_string, join2};

verus! {

/// A running node.
pub struct Node {
    node_id: String,
    rest_api_port: u16,
    network_endpoints: Vec<String>,
}

/// The address under which the clients of a node reach its REST API.
pub open spec fn client_url_text(port: u16) -> Seq<char> {
    "http://localhost:"@ + decimal(port as nat)
}

/// The text that separates the errors of a shutdown.
pub open spec fn separator() -> Seq<char> {
    ", "@
}

/// The text that a report of several errors starts with.
pub open spec fn several_errors_prefix() -> Seq<char> {
    "Multiple errors occurred during shutdown: "@
}

/// The texts of `errors`, separated by commas.
pub open spec fn joined(errors: Seq<InternalError>) -> Seq<char>
    decreases errors.len(),
{
    if errors.len() == 0 {
        Seq::empty()
    } else if errors.len() == 1 {
        errors[0]@
    } else {
        joined(errors.drop_last()) + separator() + errors.last()@
    }
}

/// What a shutdown that met `errors` comes to: success where there is
/// none, the error itself where there is one, and one error that lists
/// them all where there are several.
pub open spec fn verdict(errors: Seq<InternalError>) -> Result<(), Seq<char>> {
    if errors.len() == 0 {
        Ok(())
    } else if errors.len() == 1 {
        Err(errors[0]@)
    } else {
        Err(several_errors_prefix() + joined(errors))
    }
}

impl Node {
    /// The identifier of the node.
    pub closed spec fn spec_node_id(&self) -> Seq<char> {
        self.node_id@
    }

    /// The port of the REST API.
    pub closed spec fn spec_rest_api_port(&self) -> u16 {
        self.rest_api_port
    }

    /// The network endpoints of the node.
    pub closed spec fn spec_network_endpoints(&self) -> Seq<String> {
        self.network_endpoints@
    }

    pub fn new(node_id: String, rest_api_port: u16, network_endpoints: Vec<String>) -> (r: Node)
        ensures
            r.spec_node_id() == node_id@,
            r.spec_rest_api_port() == rest_api_port,
            r.spec_network_endpoints() == network_endpoints@,
    {
        Node { node_id, rest_api_port, network_endpoints }
    }

    pub fn node_id(&self) -> (r: &str)
        ensures
            r@ == self.spec_node_id(),
    {
        self.node_id.as_str()
    }

    pub fn rest_api_port(&self) -> (r: u16)
        ensures
            r == self.spec_rest_api_port(),
    {
        self.rest_api_port
    }

    pub fn network_endpoints(&self) -> (r: &[String])
        ensures
            r@ == self.spec_network_endpoints(),
    {
        self.network_endpoints.as_slice()
    }

    /// The address under which the admin, registry and scabbard clients
    /// of the node reach its REST API.
    pub fn client_url(&self) -> (r: String)
        ensures
            r@ == client_url_text(self.spec_rest_api_port()),
    {
        let digits = decimal_string(self.rest_api_port as u64);
        join2("http://localhost:", digits.as_str())
    }
}

/// The errors met while the parts of a node shut down, in the order in
/// which they were met.
pub struct ShutdownLog {
    errors: Vec<InternalError>,
}

impl View for ShutdownLog {
    type V = Seq<InternalError>;

    closed spec fn view(&self) -> Seq<InternalError> {
        self.errors@
    }
}

impl ShutdownLog {
    /// A log without errors.
    pub fn new() -> (r: ShutdownLog)
        ensures
            r@ == Seq::<InternalError>::empty(),
    {
        ShutdownLog { errors: Vec::new() }
    }

    /// Notes how one part shut down: an error is kept, a success leaves
    /// the log as it is.
    pub fn record(&mut self, result: Result<(), InternalError>)
        ensures
            final(self)@ == (match result {
                Ok(_) => old(self)@,
                Err(e) => old(self)@.push(e),
            }),
    {
        match result {
            Ok(_) => {},
            Err(e) => {
                self.errors.push(e);
            },
        }
    }

    /// How many errors were met.
    pub fn len(&self) -> (r: usize)
        ensures
            r == self@.len(),
    {
        self.errors.len()
    }

    /// The outcome of the shutdown as a whole.
    pub fn finish(self) -> (r: Result<(), InternalError>)
        ensures
            match r {
                Ok(_) => verdict(self@) == Ok::<(), Seq<char>>(()),
                Err(e) => verdict(self@) == Err::<(), Seq<char>>(e@),
            },
    {
        let mut errors = self.errors;
        if errors.len() == 0 {
            return Ok(());
        }
        if errors.len() == 1 {
            let only = errors.remove(0);
            return Err(only);
        }
        let mut text = errors[0].to_string();
        let mut i: usize = 1;
        proof {
            assert(errors@.take(1) =~= seq![errors@[0]]);
        }
        while i < errors.len()
            invariant
                1 <= i <= errors@.len(),
                errors@ == self@,
                text@ == joined(errors@.take(i as int)),
            decreases errors@.len() - i,
        {
            proof {
                let upto = errors@.take(i + 1);
                assert(upto.drop_last() =~= errors@.take(i as int));
                assert(upto.last() == errors@[i as int]);
            }
            text.push_str(", ");
            text.push_str(errors[i].message());
            i = i + 1;
        }
        proof {
            assert(errors@.take(i as int) =~= errors@);
        }
        let message = join2("Multiple errors occurred during shutdown: ", text.as_str());
        Err(InternalError::with_message(message))
    }
}

} // verus!
