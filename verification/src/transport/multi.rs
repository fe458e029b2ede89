//! A transport that dispatches among member transports by address.
//!
//! The members are kept in the order in which they were registered, and
//! that order is the tie-break: an address goes to the first member that
//! accepts it, whatever later members would say.

use vstd::prelude::*;
use crate::text::occurs_in;
use crate::transport::scheme::{unknown_protocol, unknown_protocol_message};
use crate::transport::{ConnectError, Connection, ListenError, Listener, Transport};

verus! {

/// An ordered collection of transports that acts as one.
pub struct MultiTransport {
    transports: Vec<Box<dyn Transport>>,
}

impl View for MultiTransport {
    type V = Seq<Box<dyn Transport>>;

    /// The members, in registration order.
    closed spec fn view(&self) -> Seq<Box<dyn Transport>> {
        self.transports@
    }
}

/// Whether member `i` of `members` accepts `address`.
pub open spec fn member_accepts(members: Seq<Box<dyn Transport>>, i: int, address: &str) -> bool {
    0 <= i < members.len() && members[i].accepts_spec(address)
}

/// Whether some member accepts `address`.
pub open spec fn any_accepts(members: Seq<Box<dyn Transport>>, address: &str) -> bool {
    exists|i: int| member_accepts(members, i, address)
}

/// Whether `i` is the first member, in registration order, that accepts
/// `address`.
pub open spec fn is_first_accepting(
    members: Seq<Box<dyn Transport>>,
    i: int,
    address: &str,
) -> bool {
    &&& member_accepts(members, i, address)
    &&& forall|j: int| 0 <= j < i ==> !member_accepts(members, j, address)
}

/// Whether two member lists accept the same addresses, member by member.
pub open spec fn same_acceptance(a: Seq<Box<dyn Transport>>, b: Seq<Box<dyn Transport>>) -> bool {
    &&& a.len() == b.len()
    &&& forall|i: int, address: &str|
        member_accepts(a, i, address) == #[trigger] member_accepts(b, i, address)
}

/// Whether a call for `address` left every member as it was, but for the
/// one that serves the address: no other member was called.
pub open spec fn untouched_but_first(
    before: Seq<Box<dyn Transport>>,
    after: Seq<Box<dyn Transport>>,
    address: &str,
) -> bool {
    &&& after.len() == before.len()
    &&& forall|j: int|
        0 <= j < before.len() && !is_first_accepting(before, j, address) ==> #[trigger] after[j]
            == before[j]
}

impl MultiTransport {
    /// A transport that dispatches among `transports`, the first of them
    /// taking precedence.
    pub fn new(transports: Vec<Box<dyn Transport>>) -> (r: MultiTransport)
        ensures
            r@ == transports@,
    {
        MultiTransport { transports }
    }

    /// The number of members.
    pub fn len(&self) -> (r: usize)
        ensures
            r == self@.len(),
    {
        self.transports.len()
    }

    /// The index of the member that serves `address`: the first one that
    /// accepts it, and nothing where no member does.
    pub fn select(&self, address: &str) -> (r: Option<usize>)
        ensures
            match r {
                Some(i) => is_first_accepting(self@, i as int, address),
                None => !any_accepts(self@, address),
            },
    {
        let mut i: usize = 0;
        while i < self.transports.len()
            invariant
                i <= self.transports@.len(),
                forall|j: int| 0 <= j < i ==> !member_accepts(self@, j, address),
            decreases self.transports@.len() - i,
        {
            if self.transports[i].accepts(address) {
                return Some(i);
            }
            i = i + 1;
        }
        None
    }
}

impl Transport for MultiTransport {
    /// True exactly when at least one member accepts the address.
    open spec fn accepts_spec(&self, address: &str) -> bool {
        any_accepts(self@, address)
    }

    fn accepts(&self, address: &str) -> (r: bool) {
        self.select(address).is_some()
    }

    /// Hands the call to the first member that accepts `endpoint`. Where no
    /// member does, no member is called and the error names the address.
    fn connect(&mut self, endpoint: &str) -> (r: Result<Box<dyn Connection>, ConnectError>)
        ensures
            same_acceptance(old(self)@, final(self)@),
            untouched_but_first(old(self)@, final(self)@, endpoint),
            !any_accepts(old(self)@, endpoint) ==> final(self)@ == old(self)@ && (r matches Err(
                ConnectError::ProtocolError(m),
            ) && m@ == unknown_protocol_message(endpoint@)),
    {
        match self.select(endpoint) {
            Some(i) => {
                let r = self.transports[i].connect(endpoint);
                proof {
                    lemma_acceptance_kept(old(self)@, self@, i as int);
                }
                r
            },
            None => {
                assert(self@ =~= old(self)@);
                Err(ConnectError::ProtocolError(unknown_protocol(endpoint)))
            },
        }
    }

    /// Hands the call to the first member that accepts `bind`. Where no
    /// member does, no member is called and the error names the address.
    fn listen(&mut self, bind: &str) -> (r: Result<Box<dyn Listener>, ListenError>)
        ensures
            same_acceptance(old(self)@, final(self)@),
            untouched_but_first(old(self)@, final(self)@, bind),
            !any_accepts(old(self)@, bind) ==> final(self)@ == old(self)@ && (r matches Err(
                ListenError::ProtocolError(m),
            ) && m@ == unknown_protocol_message(bind@)),
    {
        match self.select(bind) {
            Some(i) => {
                let r = self.transports[i].listen(bind);
                proof {
                    lemma_acceptance_kept(old(self)@, self@, i as int);
                }
                r
            },
            None => {
                assert(self@ =~= old(self)@);
                Err(ListenError::ProtocolError(unknown_protocol(bind)))
            },
        }
    }
}

/// Replacing one member by one that accepts the same addresses leaves the
/// acceptance of every member, and so of the whole, as it was.
pub proof fn lemma_acceptance_kept(
    before: Seq<Box<dyn Transport>>,
    after: Seq<Box<dyn Transport>>,
    changed: int,
)
    requires
        0 <= changed < before.len(),
        after.len() == before.len(),
        forall|j: int| 0 <= j < before.len() && j != changed ==> after[j] == before[j],
        forall|a: &str| #[trigger] after[changed].accepts_spec(a) == before[changed].accepts_spec(a),
    ensures
        same_acceptance(before, after),
        forall|a: &str| any_accepts(after, a) == any_accepts(before, a),
{
    assert forall|i: int, address: &str|
        member_accepts(before, i, address) == #[trigger] member_accepts(after, i, address) by {
        if 0 <= i < before.len() && i != changed {
            assert(after[i] == before[i]);
        }
    }
    lemma_same_acceptance_same_whole(before, after);
}

/// Member lists that accept alike, member by member, accept alike as a
/// whole and pick the same member for every address.
pub proof fn lemma_same_acceptance_same_whole(a: Seq<Box<dyn Transport>>, b: Seq<Box<dyn Transport>>)
    requires
        same_acceptance(a, b),
    ensures
        forall|address: &str| any_accepts(b, address) == any_accepts(a, address),
        forall|i: int, address: &str|
            is_first_accepting(b, i, address) == is_first_accepting(a, i, address),
{
    assert forall|address: &str| any_accepts(b, address) == any_accepts(a, address) by {
        if any_accepts(a, address) {
            let i = choose|i: int| member_accepts(a, i, address);
            assert(member_accepts(b, i, address));
        }
        if any_accepts(b, address) {
            let i = choose|i: int| member_accepts(b, i, address);
            assert(member_accepts(a, i, address));
        }
    }
    assert forall|i: int, address: &str|
        is_first_accepting(b, i, address) == is_first_accepting(a, i, address) by {
        assert(member_accepts(a, i, address) == member_accepts(b, i, address));
        if is_first_accepting(a, i, address) {
            assert forall|j: int| 0 <= j < i implies !member_accepts(b, j, address) by {
                assert(member_accepts(a, j, address) == member_accepts(b, j, address));
            }
        }
        if is_first_accepting(b, i, address) {
            assert forall|j: int| 0 <= j < i implies !member_accepts(a, j, address) by {
                assert(member_accepts(a, j, address) == member_accepts(b, j, address));
            }
        }
    }
}

/// The aggregate accepts an address exactly when at least one member
/// accepts it.
pub proof fn lemma_accepts_iff_some_member(transport: MultiTransport, address: &str)
    ensures
        transport.accepts_spec(address) <==> exists|i: int|
            0 <= i < transport@.len() && (#[trigger] transport@[i]).accepts_spec(address),
{
    if transport.accepts_spec(address) {
        let i = choose|i: int| member_accepts(transport@, i, address);
        assert(transport@[i].accepts_spec(address));
    }
    if exists|i: int| 0 <= i < transport@.len() && (#[trigger] transport@[i]).accepts_spec(address) {
        let i = choose|i: int|
            0 <= i < transport@.len() && (#[trigger] transport@[i]).accepts_spec(address);
        assert(member_accepts(transport@, i, address));
    }
}

/// Tie-break: of two members that both accept an address, the one that
/// was registered later is never the one that serves it.
pub proof fn lemma_earlier_member_wins(
    members: Seq<Box<dyn Transport>>,
    earlier: int,
    later: int,
    address: &str,
)
    requires
        member_accepts(members, earlier, address),
        member_accepts(members, later, address),
        earlier < later,
    ensures
        !is_first_accepting(members, later, address),
{
}

/// At most one member serves an address.
pub proof fn lemma_first_accepting_is_unique(
    members: Seq<Box<dyn Transport>>,
    i: int,
    k: int,
    address: &str,
)
    requires
        is_first_accepting(members, i, address),
        is_first_accepting(members, k, address),
    ensures
        i == k,
{
    if i < k {
        lemma_earlier_member_wins(members, i, k, address);
    }
    if k < i {
        lemma_earlier_member_wins(members, k, i, address);
    }
}

/// Among the first `bound` members, either none accepts the address or
/// one of them is the first that does.
proof fn lemma_first_below(members: Seq<Box<dyn Transport>>, address: &str, bound: int)
    requires
        0 <= bound <= members.len(),
    ensures
        (forall|j: int| 0 <= j < bound ==> !member_accepts(members, j, address)) || exists|i: int|
            0 <= i < bound && is_first_accepting(members, i, address),
    decreases bound,
{
    if bound > 0 {
        lemma_first_below(members, address, bound - 1);
        if forall|j: int| 0 <= j < bound - 1 ==> !member_accepts(members, j, address) {
            if member_accepts(members, bound - 1, address) {
                assert(is_first_accepting(members, bound - 1, address));
            }
        } else {
            let i = choose|i: int| 0 <= i < bound - 1 && is_first_accepting(members, i, address);
            assert(0 <= i < bound && is_first_accepting(members, i, address));
        }
    }
}

/// An address that some member accepts is served by exactly one member:
/// the first, in registration order, that accepts it.
pub proof fn lemma_accepted_address_is_served(members: Seq<Box<dyn Transport>>, address: &str)
    requires
        any_accepts(members, address),
    ensures
        exists|i: int| is_first_accepting(members, i, address),
{
    lemma_first_below(members, address, members.len() as int);
    let k = choose|k: int| member_accepts(members, k, address);
    assert(member_accepts(members, k, address));
}

} // verus!
