//! Address schemes: the prefix rules by which a transport recognises the
//! addresses it serves, and the errors for those it does not.

use vstd::prelude::*;
use crate::text::{contains, is_prefix, join2, join3, occurs_in, starts_with, strip_prefix};
use crate::transport::{ConnectError, ListenError};

verus! {

/// The separator between a scheme and the rest of an address.
pub open spec fn separator() -> Seq<char> {
    "://"@
}

/// Whether `address` carries no scheme at all, as in `host:port`.
pub open spec fn is_bare(address: Seq<char>) -> bool {
    !occurs_in(separator(), address)
}

/// The text of the protocol error by which a transport refuses `address`.
pub open spec fn invalid_protocol_message(address: Seq<char>) -> Seq<char> {
    "Invalid protocol \""@ + address + "\""@
}

/// The text of the protocol error for an address that no transport serves.
pub open spec fn unknown_protocol_message(address: Seq<char>) -> Seq<char> {
    "Unknown protocol \""@ + address + "\""@
}

/// What is left of `address` once `prefix` is taken from its front; the
/// whole address where it does not start with `prefix`.
pub open spec fn without_prefix(prefix: Seq<char>, address: Seq<char>) -> Seq<char> {
    if is_prefix(prefix, address) {
        address.skip(prefix.len() as int)
    } else {
        address
    }
}

/// A text that wraps an address between two fixed parts names the address.
pub proof fn lemma_wrapped_names_address(head: Seq<char>, address: Seq<char>, tail: Seq<char>)
    ensures
        occurs_in(address, head + address + tail),
{
    let whole = head + address + tail;
    let i = head.len() as int;
    assert(whole.subrange(i, i + address.len()) =~= address);
}

/// Whether `address` has no scheme separator in it.
pub fn bare(address: &str) -> (r: bool)
    ensures
        r == is_bare(address@),
{
    !contains(address, "://")
}

/// Whether `address` starts with the scheme prefix `prefix`.
pub fn has_prefix(address: &str, prefix: &str) -> (r: bool)
    ensures
        r == is_prefix(prefix@, address@),
{
    starts_with(address, prefix)
}

/// The address without its scheme prefix, for a channel that binds to a
/// bare `host:port`.
pub fn strip(address: &str, prefix: &str) -> (r: String)
    ensures
        r@ == without_prefix(prefix@, address@),
{
    match strip_prefix(address, prefix) {
        Some(rest) => rest.to_owned(),
        None => address.to_owned(),
    }
}

/// The protocol error text for an address that a transport refuses.
pub fn invalid_protocol(address: &str) -> (r: String)
    ensures
        r@ == invalid_protocol_message(address@),
        occurs_in(address@, r@),
{
    proof {
        lemma_wrapped_names_address("Invalid protocol \""@, address@, "\""@);
    }
    join3("Invalid protocol \"", address, "\"")
}

/// The protocol error text for an address that no transport serves.
pub fn unknown_protocol(address: &str) -> (r: String)
    ensures
        r@ == unknown_protocol_message(address@),
        occurs_in(address@, r@),
{
    proof {
        lemma_wrapped_names_address("Unknown protocol \""@, address@, "\""@);
    }
    join3("Unknown protocol \"", address, "\"")
}

/// Whether a transport that serves the scheme `prefix`, and bare addresses
/// too where `bare_allowed`, serves `address`.
pub open spec fn serves(prefix: Seq<char>, bare_allowed: bool, address: Seq<char>) -> bool {
    is_prefix(prefix, address) || (bare_allowed && is_bare(address))
}

/// What a connect attempt on `address` comes to before any channel is
/// touched: the bare address to dial, or the refusal of an address that
/// is not served.
pub open spec fn dial_plan(prefix: Seq<char>, bare_allowed: bool, address: Seq<char>) -> Result<
    Seq<char>,
    Seq<char>,
> {
    if serves(prefix, bare_allowed, address) {
        Ok(without_prefix(prefix, address))
    } else {
        Err(invalid_protocol_message(address))
    }
}

/// Whether the scheme rule given by `prefix` and `bare_allowed` serves
/// `address`.
pub fn accepts_scheme(address: &str, prefix: &str, bare_allowed: bool) -> (r: bool)
    ensures
        r == serves(prefix@, bare_allowed, address@),
{
    has_prefix(address, prefix) || (bare_allowed && bare(address))
}

/// The bare address to dial for `address`, or the protocol error that
/// names it where the scheme rule does not serve it.
pub fn dial_address(address: &str, prefix: &str, bare_allowed: bool) -> (r: Result<
    String,
    ConnectError,
>)
    ensures
        match r {
            Ok(bare_address) => dial_plan(prefix@, bare_allowed, address@) == Ok::<
                Seq<char>,
                Seq<char>,
            >(bare_address@),
            Err(ConnectError::ProtocolError(m)) => dial_plan(prefix@, bare_allowed, address@)
                == Err::<Seq<char>, Seq<char>>(m@) && occurs_in(address@, m@),
            Err(_) => false,
        },
{
    if accepts_scheme(address, prefix, bare_allowed) {
        Ok(strip(address, prefix))
    } else {
        Err(ConnectError::ProtocolError(invalid_protocol(address)))
    }
}

/// The bare address to bind for `address`, or the protocol error that
/// names it where the scheme rule does not serve it.
pub fn bind_address(address: &str, prefix: &str, bare_allowed: bool) -> (r: Result<
    String,
    ListenError,
>)
    ensures
        match r {
            Ok(bare_address) => dial_plan(prefix@, bare_allowed, address@) == Ok::<
                Seq<char>,
                Seq<char>,
            >(bare_address@),
            Err(ListenError::ProtocolError(m)) => dial_plan(prefix@, bare_allowed, address@)
                == Err::<Seq<char>, Seq<char>>(m@) && occurs_in(address@, m@),
            Err(_) => false,
        },
{
    if accepts_scheme(address, prefix, bare_allowed) {
        Ok(strip(address, prefix))
    } else {
        Err(ListenError::ProtocolError(invalid_protocol(address)))
    }
}

/// The endpoint of a channel bound to the bare address `bare_address`,
/// qualified by the scheme `prefix`.
pub fn qualified(prefix: &str, bare_address: &str) -> (r: String)
    ensures
        r@ == prefix@ + bare_address@,
        is_prefix(prefix@, r@),
        without_prefix(prefix@, r@) == bare_address@,
{
    let r = join2(prefix, bare_address);
    proof {
        assert(r@.subrange(0, prefix@.len() as int) =~= prefix@);
        assert(r@.skip(prefix@.len() as int) =~= bare_address@);
    }
    r
}

/// A transport that serves one scheme and no bare addresses judges an
/// address by its scheme alone: two addresses that begin alike, as far as
/// the prefix reaches, are both served or both refused.
pub proof fn lemma_scheme_decides(prefix: Seq<char>, a: Seq<char>, b: Seq<char>)
    requires
        a.len() >= prefix.len(),
        b.len() >= prefix.len(),
        a.take(prefix.len() as int) == b.take(prefix.len() as int),
    ensures
        serves(prefix, false, a) == serves(prefix, false, b),
{
    assert(a.subrange(0, prefix.len() as int) =~= a.take(prefix.len() as int));
    assert(b.subrange(0, prefix.len() as int) =~= b.take(prefix.len() as int));
}

/// An address shorter than the scheme prefix is not served by a
/// transport that takes no bare addresses.
pub proof fn lemma_short_address_refused(prefix: Seq<char>, address: Seq<char>)
    requires
        address.len() < prefix.len(),
    ensures
        !serves(prefix, false, address),
{
}

} // verus!
