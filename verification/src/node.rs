//! The configuration of a node, and the configurations of the services that it starts.
use crate::address::{socket_at, SocketAddr};
use crate::peers::insert_peer;
use fnv::FnvHashMap;
use std::collections::HashMap;
use vstd::prelude::*;

verus! {

/// The number by which a party of the computation is known.
pub type Replica = usize;

/// What a node is configured with.
pub struct Node {
    /// The node's own number.
    pub id: Replica,
    /// The number of parties.
    pub num_nodes: usize,
    /// The number of parties that may be faulty.
    pub num_faults: usize,
    /// Where each party listens.
    pub net_map: HashMap<Replica, SocketAddr>,
    /// Where the client listens.
    pub client_addr: SocketAddr,
    /// The port on which the node listens to the client.
    pub client_port: u16,
    /// The secret key that is shared with each party.
    pub sk_map: HashMap<Replica, Vec<u8>>,
}

/// An address book with each port moved up by the same offset. An address keeps nothing but its
/// IP besides.
pub open spec fn moved_up(book: Map<Replica, SocketAddr>, offset: u16) -> Map<Replica, SocketAddr> {
    Map::new(
        |replica: Replica| book.contains_key(replica),
        |replica: Replica|
            socket_at(book[replica].ip_spec(), (book[replica].port_spec() + offset) as u16),
    )
}

/// Whether each port of the book can be moved up by the offset.
pub open spec fn ports_admit(book: Map<Replica, SocketAddr>, offset: u16) -> bool {
    forall|replica: Replica| #[trigger]
        book.contains_key(replica) ==> book[replica].port_spec() + offset <= u16::MAX
}

/// Whether `service` is the configuration `config` with the parties' ports moved up by `offset`.
pub open spec fn is_service_config(service: Node, config: Node, offset: u16) -> bool {
    &&& service.net_map@ == moved_up(config.net_map@, offset)
    &&& service.id == config.id
    &&& service.num_nodes == config.num_nodes
    &&& service.num_faults == config.num_faults
    &&& service.client_addr == config.client_addr
    &&& service.client_port == config.client_port
    &&& service.sk_map@ == config.sk_map@
}

impl Node {
    /// The configuration of a service that runs beside the node at every party, on ports that lie
    /// `offset` above the parties' own.
    pub fn for_service(&self, offset: u16) -> (service: Node)
        requires
            ports_admit(self.net_map@, offset),
        ensures
            is_service_config(service, *self, offset),
            forall|replica: Replica| #[trigger]
                self.net_map@.contains_key(replica) ==> {
                    &&& service.net_map@.contains_key(replica)
                    &&& service.net_map@[replica].port_spec() as int
                        == self.net_map@[replica].port_spec() as int + offset as int
                },
    {
        let mut net_map = self.net_map.clone();
        let ghost book = self.net_map@;
        for (replica, address) in it: self.net_map.iter()
            invariant
                book == self.net_map@,
                ports_admit(book, offset),
                forall|j: int|
                    #![trigger it.seq()[j]]
                    0 <= j < it.seq().len() ==> book.contains_key(*it.seq()[j].0)
                        && book[*it.seq()[j].0] == *it.seq()[j].1,
                forall|r: Replica| #[trigger]
                    book.contains_key(r) ==> it.seq().contains((&r, &book[r])),
                net_map@.dom() == book.dom(),
                forall|j: int|
                    #![trigger it.seq()[j]]
                    0 <= j < it.index() ==> net_map@[*it.seq()[j].0] == moved_up(
                        book,
                        offset,
                    )[*it.seq()[j].0],
        {
            net_map.insert(*replica, SocketAddr::new(address.ip(), address.port() + offset));
            assert(net_map@.dom() =~= book.dom());
        }
        assert(net_map@ =~= moved_up(book, offset));
        Node {
            id: self.id,
            num_nodes: self.num_nodes,
            num_faults: self.num_faults,
            net_map,
            client_addr: self.client_addr,
            client_port: self.client_port,
            sk_map: self.sk_map.clone(),
        }
    }

    /// The addresses of all parties, for the network.
    pub fn consensus_addrs(&self) -> (peers: FnvHashMap<Replica, SocketAddr>)
        ensures
            peers@ == self.net_map@,
    {
        let mut peers: FnvHashMap<Replica, SocketAddr> = FnvHashMap::default();
        let ghost book = self.net_map@;
        for (replica, address) in it: self.net_map.iter()
            invariant
                forall|j: int|
                    #![trigger it.seq()[j]]
                    0 <= j < it.seq().len() ==> book.contains_key(*it.seq()[j].0)
                        && book[*it.seq()[j].0] == *it.seq()[j].1,
                forall|r: Replica| #[trigger]
                    book.contains_key(r) ==> it.seq().contains((&r, &book[r])),
                forall|r: Replica| #[trigger]
                    peers@.contains_key(r) ==> book.contains_key(r) && peers@[r] == book[r],
                forall|j: int|
                    #![trigger it.seq()[j]]
                    0 <= j < it.index() ==> peers@.contains_key(*it.seq()[j].0),
        {
            insert_peer(&mut peers, *replica, *address);
        }
        proof {
            assert forall|r: Replica| book.contains_key(r) implies peers@.contains_key(r) by {
                assert(book.contains_key(r));
            }
            assert(peers@ =~= book);
        }
        peers
    }

    /// Whether each party's port can be moved up by the offset.
    pub fn admits_offset(&self, offset: u16) -> (admits: bool)
        ensures
            admits == ports_admit(self.net_map@, offset),
    {
        let ghost book = self.net_map@;
        for (replica, address) in it: self.net_map.iter()
            invariant
                book == self.net_map@,
                forall|j: int|
                    #![trigger it.seq()[j]]
                    0 <= j < it.seq().len() ==> book.contains_key(*it.seq()[j].0)
                        && book[*it.seq()[j].0] == *it.seq()[j].1,
                forall|r: Replica| #[trigger]
                    book.contains_key(r) ==> it.seq().contains((&r, &book[r])),
                forall|j: int|
                    #![trigger it.seq()[j]]
                    0 <= j < it.index() ==> it.seq()[j].1.port_spec() + offset <= u16::MAX,
        {
            if address.port() > u16::MAX - offset {
                assert(book.contains_key(*replica));
                return false;
            }
        }
        true
    }
}

/// A moved book has the parties of the book, no more and no fewer. Each party is found at the IP at
/// which it was, on the port that lies as far above its own as the offset says, and an IPv6 party
/// without a flow label and a scope.
pub proof fn moved_address(book: Map<Replica, SocketAddr>, offset: u16, replica: Replica)
    ensures
        moved_up(book, offset).contains_key(replica) <==> book.contains_key(replica),
        book.contains_key(replica) && book[replica].port_spec() as int + offset as int <= 65535 ==> {
            let moved = moved_up(book, offset)[replica];
            &&& moved.port_spec() as int - book[replica].port_spec() as int == offset as int
            &&& moved.ip_spec() == book[replica].ip_spec()
            &&& moved matches SocketAddr::V6 { bits, port, flowinfo, scope_id } ==> flowinfo == 0
                && scope_id == 0
        },
{
}

/// To move a book twice is to move it once by both offsets.
pub proof fn moves_add_up(book: Map<Replica, SocketAddr>, m: u16, n: u16, both: u16)
    requires
        m + n == both,
        ports_admit(book, both),
    ensures
        moved_up(moved_up(book, m), n) == moved_up(book, both),
{
    assert forall|replica: Replica| #[trigger] book.contains_key(replica) implies moved_up(
        moved_up(book, m),
        n,
    )[replica] == moved_up(book, both)[replica] by {}
    assert(moved_up(moved_up(book, m), n) =~= moved_up(book, both));
}

/// A book admits an offset unless some party's port, moved up by it, would be no port; so what
/// admits an offset admits every smaller one, and each book admits the offset zero.
pub proof fn admitted_offsets(book: Map<Replica, SocketAddr>, m: u16, n: u16)
    ensures
        ports_admit(book, 0),
        ports_admit(book, m) && n <= m ==> ports_admit(book, n),
        !ports_admit(book, m) ==> exists|replica: Replica| #[trigger]
            book.contains_key(replica) && book[replica].port_spec() as int + m as int > 65535,
        forall|replica: Replica| #[trigger]
            book.contains_key(replica) && ports_admit(book, m) ==> book[replica].port_spec() as int
                + m as int <= 65535,
{
}

/// A service is configured like the node itself but for where the parties listen.
pub proof fn service_differs_in_ports(service: Node, config: Node, offset: u16, replica: Replica)
    requires
        is_service_config(service, config, offset),
        ports_admit(config.net_map@, offset),
    ensures
        service.id == config.id,
        service.num_nodes == config.num_nodes,
        service.num_faults == config.num_faults,
        service.client_addr == config.client_addr,
        service.client_port == config.client_port,
        service.sk_map@ == config.sk_map@,
        service.net_map@.dom() == config.net_map@.dom(),
        config.net_map@.contains_key(replica) ==> {
            &&& service.net_map@[replica].ip_spec() == config.net_map@[replica].ip_spec()
            &&& service.net_map@[replica].port_spec() as int
                == config.net_map@[replica].port_spec() as int + offset as int
        },
{
    assert(service.net_map@.dom() =~= config.net_map@.dom());
}

} // verus!
