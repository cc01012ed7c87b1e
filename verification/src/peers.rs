//! The address books that are handed to the network: maps of the `fnv` crate from replica to
//! address. Their contents are their view, as for any `HashMap`.
use crate::address::SocketAddr;
use crate::node::Replica;
use fnv::FnvHashMap;
use vstd::prelude::*;

verus! {

/// The hasher of the `fnv` crate; nothing is claimed of what is inside.
#[verifier::external_type_specification]
#[verifier::external_body]
pub struct ExFnvHasher(fnv::FnvHasher);

/// The builder of `std` by which a `FnvHashMap` makes its hashers; nothing is claimed of what is
/// inside.
#[verifier::external_type_specification]
#[verifier::external_body]
#[verifier::reject_recursive_types(H)]
pub struct ExBuildHasherDefault<H>(std::hash::BuildHasherDefault<H>);

/// `FnvHashMap::insert`: afterwards the map holds the address under the replica, in place of the
/// one that it may have held there, and is otherwise as before. `fnv` hashes without a seed, from
/// the bytes written alone, so that a `usize` is always found again.
#[verifier::external_body]
pub(crate) fn insert_peer(
    peers: &mut FnvHashMap<Replica, SocketAddr>,
    replica: Replica,
    address: SocketAddr,
)
    ensures
        final(peers)@ == old(peers)@.insert(replica, address),
{
    peers.insert(replica, address);
}

/// `FnvHashMap::get`: the address that the map holds under the replica, if it holds one.
#[verifier::external_body]
pub(crate) fn peer_address(peers: &FnvHashMap<Replica, SocketAddr>, replica: Replica) -> (address:
    Option<SocketAddr>)
    ensures
        peers@.contains_key(replica) ==> address == Some(peers@[replica]),
        !peers@.contains_key(replica) ==> address is None,
{
    peers.get(&replica).copied()
}

} // verus!
