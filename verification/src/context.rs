//! The state that a node starts its computation with, and the messages that it sends.
use crate::address::{ipv4_text, to_socket_address, IpAddr, Ipv4Addr, SocketAddr};
use crate::node::{
    is_service_config, moved_up, ports_admit, service_differs_in_ports, Node, Replica,
};
use crate::params::{
    batches_bounds, batches_for, check_sizes, inputs_of, inputs_per_party, log2, log2_unique, log_k,
    num_batches, party_inputs, proposals_are_no_more, share_is_least, share_of_inputs,
    sharings_to_propose, sizes_fit, total_sharings, COIN_SHARINGS_PER_NODE, THRESHOLD,
};
use crate::peers::{insert_peer, peer_address};
use fnv::FnvHashMap;
use std::collections::{HashMap, VecDeque};
use vstd::arithmetic::power2::*;
use vstd::prelude::*;

verus! {

/// How far above a party's own port its service for secret sharing listens.
pub const PORT_ACSS_AB: u16 = 0;

/// How far above a party's own port its service for sharings of degree twice the faults listens.
pub const PORT_SH2T: u16 = 600;

/// How far above a party's own port its first service for agreement on a common subset listens.
pub const PORT_ACS: u16 = 1200;

/// How far above a party's own port its service for reliable broadcast listens.
pub const PORT_CTRBC: u16 = 1800;

/// How far above a party's own port its second service for agreement on a common subset listens.
pub const PORT_ACS_2: u16 = 1950;

/// How many messages wait in a channel between the node and a service.
pub const CHANNEL_CAPACITY: usize = 10000;

/// How many messages wait in a channel of verifiable secret sharing.
pub const AVSS_CHANNEL_CAPACITY: usize = 500000;

/// Whether a service is to misbehave: never, whatever the node itself is told.
pub const SERVICE_BYZ: bool = false;

/// The first instance number under which inputs, rather than random values, are shared.
pub const INPUT_ACSS_ID_OFFSET: usize = 500;

/// Up to which depth multiplication tuples are delinearised.
pub const DELINEARIZATION_DEPTH: usize = 5000;

/// The key of the entry of `cancel_handlers` under which all handlers are kept.
pub const HANDLER_SLOT: u64 = 0;

/// How far the event loop has come.
#[derive(Clone, Copy, Debug, PartialEq, Eq, Structural)]
pub enum Phase {
    /// It has not begun.
    Created,
    /// It is telling the client that the node is alive.
    Announcing,
    /// It waits for events.
    Listening,
    /// It is over.
    Finished,
}

/// The state of a node. `H` is the handle by which a message that was sent can be called back.
pub struct Context<H> {
    pub num_nodes: usize,
    pub myid: Replica,
    pub num_faults: usize,
    pub byz: bool,
    /// The secret key that is shared with each party.
    pub sec_key_map: HashMap<Replica, Vec<u8>>,
    /// The handles of the messages that were sent.
    pub cancel_handlers: HashMap<u64, Vec<H>>,
    /// The node's inputs, as integers that stand for elements of the field.
    pub inputs: Vec<u64>,
    pub input_acss_id_offset: usize,
    pub k_value: usize,
    pub log_k: usize,
    pub per_batch_maximum: usize,
    pub tot_batches: usize,
    pub total_sharings_for_coins: usize,
    /// How many reliable broadcasts a node can start.
    pub threshold: usize,
    /// The number from which the node counts its broadcasts.
    pub max_id: usize,
    pub use_fft: bool,
    pub total_sharings: usize,
    pub max_depth: usize,
    pub output_mask_size: usize,
    pub preprocessing_mult_depth: usize,
    pub delinearization_depth: usize,
    pub compression_factor: usize,
    pub multiplication_switch_threshold: usize,
    pub phase: Phase,
}

/// All that is needed to start a node: its state, where it and its peers listen, and the
/// configurations of the services beneath it.
pub struct Launch<H> {
    pub context: Context<H>,
    /// Where each party listens.
    pub consensus_addrs: FnvHashMap<Replica, SocketAddr>,
    /// Where this node listens to the parties.
    pub my_address: SocketAddr,
    /// Where the client listens.
    pub syncer_map: FnvHashMap<Replica, SocketAddr>,
    /// Where this node listens to the client.
    pub syncer_l_address: SocketAddr,
    /// The keys of the node's keyed hash.
    pub hash_keys: [[u8; 16]; 3],
    pub acss_ab_config: Node,
    pub sh2t_config: Node,
    pub acs_config: Node,
    pub ctrbc_config: Node,
    pub acs_2_config: Node,
}

/// A message for one party.
pub struct Transmission<T> {
    pub replica: Replica,
    pub payload: T,
}

/// What a sealed message is made of: its contents, its sender, and the key under which the sender
/// authenticates it.
pub struct Sealed<M> {
    pub protmsg: M,
    pub sender: Replica,
    pub sec_key: Vec<u8>,
}

/// The one message by which a payload is told to a replica.
pub open spec fn one_message<T>(replica: Replica, payload: T) -> Seq<Transmission<T>> {
    seq![Transmission { replica, payload }]
}

/// Whether the messages tell `protmsg` to every replica for which there is a key, and to no other:
/// to each once, in the name of `sender`, sealed with the replica's key.
pub open spec fn tells_each_once<M: Clone>(
    messages: Seq<Transmission<Sealed<M>>>,
    keys: Map<Replica, Vec<u8>>,
    sender: Replica,
    protmsg: M,
) -> bool {
    &&& messages.len() == keys.len()
    &&& forall|i: int|
        #![trigger messages[i]]
        0 <= i < messages.len() ==> {
            &&& keys.contains_key(messages[i].replica)
            &&& messages[i].payload.sec_key@ == keys[messages[i].replica]@
            &&& messages[i].payload.sender == sender
            &&& cloned(protmsg, messages[i].payload.protmsg)
        }
    &&& forall|i: int, j: int|
        #![trigger messages[i], messages[j]]
        0 <= i < j < messages.len() ==> messages[i].replica != messages[j].replica
    &&& forall|replica: Replica| #[trigger]
        keys.contains_key(replica) ==> exists|i: int|
            0 <= i < messages.len() && (#[trigger] messages[i]).replica == replica
}

/// The handles that are kept under each key, in the order in which they came.
pub open spec fn handlers<H>(kept: Map<u64, Vec<H>>) -> Map<u64, Seq<H>> {
    kept.map_values(|list: Vec<H>| list@)
}

/// The handles that are kept under a key, none if there is no entry.
pub open spec fn handlers_at<H>(kept: Map<u64, Seq<H>>, slot: u64) -> Seq<H> {
    if kept.contains_key(slot) {
        kept[slot]
    } else {
        Seq::empty()
    }
}

/// The handles with one more, at the end of those that are kept for all messages.
pub open spec fn with_handler<H>(kept: Map<u64, Seq<H>>, canc: H) -> Map<u64, Seq<H>> {
    kept.insert(HANDLER_SLOT, handlers_at(kept, HANDLER_SLOT).push(canc))
}

/// The handles with that of the message that was sent, if there was one.
pub open spec fn kept_after<H>(kept: Map<u64, Seq<H>>, sent: Option<H>) -> Map<u64, Seq<H>> {
    match sent {
        Some(canc) => with_handler(kept, canc),
        None => kept,
    }
}

/// The handles with more of them, one after the other.
pub open spec fn with_handlers<H>(kept: Map<u64, Seq<H>>, more: Seq<H>) -> Map<u64, Seq<H>>
    decreases more.len(),
{
    if more.len() == 0 {
        kept
    } else {
        with_handler(with_handlers(kept, more.drop_last()), more.last())
    }
}

/// Whether a node can be started: it is one of the parties, the ports of its services exist, and
/// the sizes of the computation are machine numbers.
pub open spec fn launchable(config: Node, per_batch: usize, mixing_batch_size: usize) -> bool {
    &&& config.net_map@.contains_key(config.id)
    &&& ports_admit(config.net_map@, PORT_ACS_2)
    &&& sizes_fit(
        config.id as nat,
        config.num_nodes as nat,
        config.num_faults as nat,
        per_batch as nat,
        mixing_batch_size as nat,
    )
}

/// The port at every local IPv4 address.
pub open spec fn any_local(port: u16) -> SocketAddr {
    SocketAddr::V4 { ip: Ipv4Addr { a: 0, b: 0, c: 0, d: 0 }, port }
}

/// Whether `launch` is what a node is started with, given its configuration, the size of a batch,
/// the number of inputs that are mixed, the compression factor, and whether it is to misbehave.
pub open spec fn is_launch<H>(
    launch: Launch<H>,
    config: Node,
    per_batch: usize,
    mixing_batch_size: usize,
    compression_factor: usize,
    byz: bool,
) -> bool {
    &&& launch.consensus_addrs@ == config.net_map@
    &&& launch.my_address == any_local(config.net_map@[config.id].port_spec())
    &&& launch.syncer_map@ == map![0usize => config.client_addr]
    &&& launch.syncer_l_address == any_local(config.client_port)
    &&& launch.hash_keys@[0]@ == Seq::new(16, |i: int| 5u8)
    &&& launch.hash_keys@[1]@ == Seq::new(16, |i: int| 29u8)
    &&& launch.hash_keys@[2]@ == Seq::new(16, |i: int| 23u8)
    &&& is_service_config(launch.acss_ab_config, config, PORT_ACSS_AB)
    &&& is_service_config(launch.sh2t_config, config, PORT_SH2T)
    &&& is_service_config(launch.acs_config, config, PORT_ACS)
    &&& is_service_config(launch.ctrbc_config, config, PORT_CTRBC)
    &&& is_service_config(launch.acs_2_config, config, PORT_ACS_2)
    &&& launch.context.num_nodes == config.num_nodes
    &&& launch.context.myid == config.id
    &&& launch.context.num_faults == config.num_faults
    &&& launch.context.byz == byz
    &&& launch.context.sec_key_map@ == config.sk_map@
    &&& launch.context.cancel_handlers@ == Map::<u64, Vec<H>>::empty()
    &&& launch.context.inputs@ == inputs_of(
        config.id as nat,
        share_of_inputs(mixing_batch_size as nat, config.num_faults as nat),
    )
    &&& launch.context.input_acss_id_offset == 500
    &&& launch.context.k_value == mixing_batch_size
    &&& launch.context.log_k == log2(mixing_batch_size as nat)
    &&& launch.context.per_batch_maximum == per_batch
    &&& launch.context.tot_batches == batches_for(
        sharings_to_propose(mixing_batch_size as nat, config.num_faults as nat),
        per_batch as nat,
    )
    &&& launch.context.total_sharings_for_coins == 10 * config.num_nodes
    &&& launch.context.threshold == 10000
    &&& launch.context.max_id == 10000 * config.id
    &&& launch.context.use_fft == false
    &&& launch.context.total_sharings == sharings_to_propose(
        mixing_batch_size as nat,
        config.num_faults as nat,
    )
    &&& launch.context.max_depth == log2(mixing_batch_size as nat) * log2(
        mixing_batch_size as nat,
    )
    &&& launch.context.output_mask_size == (2 * mixing_batch_size) / (config.num_faults + 1)
    &&& launch.context.preprocessing_mult_depth == 0
    &&& launch.context.delinearization_depth == 5000
    &&& launch.context.compression_factor == compression_factor
    &&& launch.context.multiplication_switch_threshold == 0
    &&& launch.context.phase == Phase::Created
}

/// The address under which a node listens to its port at every local IPv4 address.
fn listen_address(port: u16) -> (address: SocketAddr)
    ensures
        address == any_local(port),
{
    proof {
        reveal_strlit("0.0.0.0");
        assert("0.0.0.0"@ =~= ipv4_text(Ipv4Addr { a: 0, b: 0, c: 0, d: 0 }));
    }
    to_socket_address("0.0.0.0", port)
}

/// Tests whether a node can be started.
pub fn check_launch(config: &Node, per_batch: usize, mixing_batch_size: usize) -> (ok: bool)
    ensures
        ok == launchable(*config, per_batch, mixing_batch_size),
{
    config.net_map.contains_key(&config.id) && config.admits_offset(PORT_ACS_2) && check_sizes(
        config.id,
        config.num_nodes,
        config.num_faults,
        per_batch,
        mixing_batch_size,
    )
}

/// The messages that tell `protmsg` to every replica for which there is a key, one for each, in no
/// particular order.
pub fn message_for_each<M: Clone>(
    keys: &HashMap<Replica, Vec<u8>>,
    sender: Replica,
    protmsg: M,
) -> (messages: VecDeque<Transmission<Sealed<M>>>)
    ensures
        tells_each_once(messages@, keys@, sender, protmsg),
{
    let mut messages: VecDeque<Transmission<Sealed<M>>> = VecDeque::new();
    let ghost book = keys@;
    for (replica, sec_key) in it: keys.iter()
        invariant
            it.seq().len() == book.len(),
            it.seq().no_duplicates(),
            forall|j: int|
                #![trigger it.seq()[j]]
                0 <= j < it.seq().len() ==> book.contains_key(*it.seq()[j].0)
                    && book[*it.seq()[j].0] == *it.seq()[j].1,
            forall|r: Replica| #[trigger]
                book.contains_key(r) ==> it.seq().contains((&r, &book[r])),
            messages@.len() == it.index(),
            forall|j: int|
                #![trigger messages@[j]]
                #![trigger it.seq()[j]]
                0 <= j < messages@.len() ==> {
                    &&& messages@[j].replica == *it.seq()[j].0
                    &&& messages@[j].payload.sec_key@ == it.seq()[j].1@
                    &&& messages@[j].payload.sender == sender
                    &&& cloned(protmsg, messages@[j].payload.protmsg)
                },
    {
        let key = sec_key.clone();
        assert(key@ =~= sec_key@);
        messages.push_back(
            Transmission {
                replica: *replica,
                payload: Sealed { protmsg: protmsg.clone(), sender, sec_key: key },
            },
        );
    }
    messages
}

impl<H> Context<H> {
    /// Derives from its configuration all that is needed to start a node.
    pub fn spawn(
        config: Node,
        per_batch: usize,
        mixing_batch_size: usize,
        compression_factor: usize,
        byz: bool,
    ) -> (launch: Launch<H>)
        requires
            launchable(config, per_batch, mixing_batch_size),
        ensures
            is_launch(launch, config, per_batch, mixing_batch_size, compression_factor, byz),
    {
        let consensus_addrs = config.consensus_addrs();
        let my_port: u16 = peer_address(&consensus_addrs, config.id).unwrap().port();
        let mut syncer_map: FnvHashMap<Replica, SocketAddr> = FnvHashMap::default();
        insert_peer(&mut syncer_map, 0, config.client_addr);

        let k: usize = mixing_batch_size;
        let log_k: usize = log_k(k);
        let tot_sharings: usize = total_sharings(k, log_k, config.num_faults);
        let num_batches: usize = num_batches(tot_sharings, per_batch);
        let inputs_per_party: usize = inputs_per_party(k, config.num_faults);
        assert(log_k * log_k <= 63 * 63) by (nonlinear_arith)
            requires
                log_k <= 63,
        ;

        let context = Context {
            num_nodes: config.num_nodes,
            myid: config.id,
            num_faults: config.num_faults,
            byz,
            sec_key_map: config.sk_map.clone(),
            cancel_handlers: HashMap::new(),
            inputs: party_inputs(config.id, inputs_per_party),
            input_acss_id_offset: INPUT_ACSS_ID_OFFSET,
            k_value: k,
            log_k,
            per_batch_maximum: per_batch,
            tot_batches: num_batches,
            total_sharings_for_coins: COIN_SHARINGS_PER_NODE * config.num_nodes,
            threshold: THRESHOLD,
            max_id: THRESHOLD * config.id,
            use_fft: false,
            total_sharings: tot_sharings,
            max_depth: log_k * log_k,
            output_mask_size: 2 * k / (config.num_faults + 1),
            preprocessing_mult_depth: 0,
            delinearization_depth: DELINEARIZATION_DEPTH,
            compression_factor,
            multiplication_switch_threshold: 0,
            phase: Phase::Created,
        };
        let hash_keys = [[5u8; 16], [29u8; 16], [23u8; 16]];
        proof {
            assert(hash_keys@[0]@ =~= Seq::new(16, |i: int| 5u8));
            assert(hash_keys@[1]@ =~= Seq::new(16, |i: int| 29u8));
            assert(hash_keys@[2]@ =~= Seq::new(16, |i: int| 23u8));
            assert(syncer_map@ =~= map![0usize => config.client_addr]);
        }
        Launch {
            context,
            consensus_addrs,
            my_address: listen_address(my_port),
            syncer_map,
            syncer_l_address: listen_address(config.client_port),
            hash_keys,
            acss_ab_config: config.for_service(PORT_ACSS_AB),
            sh2t_config: config.for_service(PORT_SH2T),
            acs_config: config.for_service(PORT_ACS),
            ctrbc_config: config.for_service(PORT_CTRBC),
            acs_2_config: config.for_service(PORT_ACS_2),
        }
    }

    /// The messages by which the node tells `protmsg` to every party with which it shares a key:
    /// one for each, sealed with the key of that party. They come in no particular order. To
    /// deliver them is to `send` each by itself.
    pub fn broadcast<M: Clone>(&self, protmsg: M) -> (messages: VecDeque<Transmission<Sealed<M>>>)
        ensures
            tells_each_once(messages@, self.sec_key_map@, self.myid, protmsg),
            forall|replies: Seq<H>|
                #![trigger delivery(handlers(self.cancel_handlers@), messages@, None, replies)]
                #![trigger sends(handlers(self.cancel_handlers@), messages@, replies)]
                replies.len() == messages@.len() ==> delivery(
                    handlers(self.cancel_handlers@),
                    messages@,
                    None,
                    replies,
                ) == sends(handlers(self.cancel_handlers@), messages@, replies),
    {
        let messages = message_for_each(&self.sec_key_map, self.myid, protmsg);
        proof {
            let kept = handlers(self.cancel_handlers@);
            assert forall|replies: Seq<H>| replies.len() == messages@.len() implies delivery(
                kept,
                messages@,
                None,
                replies,
            ) == sends(kept, messages@, replies) by {
                delivery_is_one_send_each(kept, messages@, replies);
            }
        }
        messages
    }

    /// The one message by which the node tells `wrapper_msg`, which is sealed already, to one
    /// party. It is put on its way by `deliver`.
    pub fn send<W>(&self, replica: Replica, wrapper_msg: W) -> (messages: VecDeque<Transmission<W>>)
        ensures
            messages@ == one_message(replica, wrapper_msg),
    {
        let mut messages: VecDeque<Transmission<W>> = VecDeque::new();
        messages.push_back(Transmission { replica, payload: wrapper_msg });
        messages
    }

    /// One step of putting messages on their way: keeps the handle of the message that was handed
    /// out before and has been sent since, if there was one, and hands out the next.
    pub fn deliver<T>(
        &mut self,
        messages: &mut VecDeque<Transmission<T>>,
        sent: Option<H>,
    ) -> (next: Option<Transmission<T>>)
        ensures
            handlers(final(self).cancel_handlers@) == kept_after(
                handlers(old(self).cancel_handlers@),
                sent,
            ),
            *final(self) == (Context {
                cancel_handlers: final(self).cancel_handlers,
                ..*old(self)
            }),
            old(messages)@.len() == 0 ==> next is None && final(messages)@ == old(messages)@,
            old(messages)@.len() > 0 ==> next == Some(old(messages)@.first()) && final(messages)@ == old(
                messages,
            )@.drop_first(),
            forall|replies: Seq<H>| #[trigger]
                delivery(handlers(old(self).cancel_handlers@), old(messages)@, sent, replies)
                    == match next {
                    None => (handlers(final(self).cancel_handlers@), Seq::empty()),
                    Some(message) => {
                        let rest = delivery(
                            handlers(final(self).cancel_handlers@),
                            final(messages)@,
                            Some(replies.first()),
                            replies.drop_first(),
                        );
                        (rest.0, seq![message] + rest.1)
                    },
                },
    {
        match sent {
            Some(canc) => self.add_cancel_handler(canc),
            None => {},
        }
        let ghost waiting = messages@;
        let next = messages.pop_front();
        assert(next is Some ==> messages@ =~= waiting.drop_first());
        next
    }

    /// Keeps the handle of a message that was sent, after those that were kept before.
    pub fn add_cancel_handler(&mut self, canc: H)
        ensures
            handlers(final(self).cancel_handlers@) == with_handler(
                handlers(old(self).cancel_handlers@),
                canc,
            ),
            *final(self) == (Context {
                cancel_handlers: final(self).cancel_handlers,
                ..*old(self)
            }),
    {
        self.cancel_handlers.entry(HANDLER_SLOT).or_insert(Vec::new()).push(canc);
    }
}

/// How far above a party's own port each of its services listens.
pub open spec fn service_offsets() -> Seq<u16> {
    seq![PORT_ACSS_AB, PORT_SH2T, PORT_ACS, PORT_CTRBC, PORT_ACS_2]
}

/// At each party the services listen at the party's own IP, no two of them on the same port.
pub proof fn services_apart(book: Map<Replica, SocketAddr>, replica: Replica, i: int, j: int)
    requires
        ports_admit(book, PORT_ACS_2),
        book.contains_key(replica),
        0 <= i < service_offsets().len(),
        0 <= j < service_offsets().len(),
        i != j,
    ensures
        moved_up(book, service_offsets()[i])[replica].ip_spec() == book[replica].ip_spec(),
        moved_up(book, service_offsets()[i])[replica].port_spec() != moved_up(
            book,
            service_offsets()[j],
        )[replica].port_spec(),
{
}

/// Handles that are kept one after the other come, in that order, after those that were there, and
/// nothing is kept or lost under any other key.
pub proof fn handlers_accumulate<H>(kept: Map<u64, Seq<H>>, more: Seq<H>)
    ensures
        handlers_at(with_handlers(kept, more), HANDLER_SLOT) == handlers_at(kept, HANDLER_SLOT)
            + more,
        forall|slot: u64|
            slot != HANDLER_SLOT ==> {
                &&& #[trigger] with_handlers(kept, more).contains_key(slot) == kept.contains_key(
                    slot,
                )
                &&& with_handlers(kept, more)[slot] == kept[slot]
            },
    decreases more.len(),
{
    if more.len() == 0 {
        assert(handlers_at(kept, HANDLER_SLOT) + more =~= handlers_at(kept, HANDLER_SLOT));
    } else {
        handlers_accumulate(kept, more.drop_last());
        assert(more.drop_last().push(more.last()) =~= more);
        assert((handlers_at(kept, HANDLER_SLOT) + more.drop_last()).push(more.last())
            =~= handlers_at(kept, HANDLER_SLOT) + more);
    }
}

/// What becomes of the kept handles, and which messages are handed out, when `deliver` is called
/// until it hands out nothing more: `sent` goes with the first call, and each call after it brings
/// the handle that the network gave for the message handed out before.
pub open spec fn delivery<T, H>(
    kept: Map<u64, Seq<H>>,
    messages: Seq<Transmission<T>>,
    sent: Option<H>,
    replies: Seq<H>,
) -> (Map<u64, Seq<H>>, Seq<Transmission<T>>)
    decreases messages.len(),
{
    let kept = kept_after(kept, sent);
    if messages.len() == 0 {
        (kept, Seq::empty())
    } else {
        let rest = delivery(
            kept,
            messages.drop_first(),
            Some(replies.first()),
            replies.drop_first(),
        );
        (rest.0, seq![messages.first()] + rest.1)
    }
}

proof fn lemma_with_handlers_prepend<H>(kept: Map<u64, Seq<H>>, canc: H, more: Seq<H>)
    ensures
        with_handlers(with_handler(kept, canc), more) == with_handlers(kept, seq![canc] + more),
    decreases more.len(),
{
    let all = seq![canc] + more;
    if more.len() == 0 {
        assert(all.drop_last() =~= Seq::empty());
        assert(with_handlers(kept, all.drop_last()) == kept);
    } else {
        assert(all.drop_last() =~= seq![canc] + more.drop_last());
        lemma_with_handlers_prepend(kept, canc, more.drop_last());
    }
}

proof fn lemma_delivery_after_send<T, H>(
    kept: Map<u64, Seq<H>>,
    messages: Seq<Transmission<T>>,
    canc: H,
    replies: Seq<H>,
)
    requires
        messages.len() == replies.len(),
    ensures
        delivery(kept, messages, Some(canc), replies) == (
            with_handlers(kept, seq![canc] + replies),
            messages,
        ),
    decreases messages.len(),
{
    lemma_with_handlers_prepend(kept, canc, replies);
    let now = with_handler(kept, canc);
    if messages.len() > 0 {
        lemma_delivery_after_send(
            now,
            messages.drop_first(),
            replies.first(),
            replies.drop_first(),
        );
        assert(seq![replies.first()] + replies.drop_first() =~= replies);
        assert(seq![messages.first()] + messages.drop_first() =~= messages);
    } else {
        assert(messages =~= Seq::empty());
    }
}

proof fn lemma_delivery<T, H>(
    kept: Map<u64, Seq<H>>,
    messages: Seq<Transmission<T>>,
    replies: Seq<H>,
)
    requires
        messages.len() == replies.len(),
    ensures
        delivery(kept, messages, None, replies) == (with_handlers(kept, replies), messages),
{
    if messages.len() > 0 {
        lemma_delivery_after_send(
            kept,
            messages.drop_first(),
            replies.first(),
            replies.drop_first(),
        );
        assert(seq![replies.first()] + replies.drop_first() =~= replies);
        assert(seq![messages.first()] + messages.drop_first() =~= messages);
    } else {
        assert(messages =~= Seq::empty());
    }
}

/// Every message is handed out exactly once, in its turn, and for each one the handle that the
/// network gave for it is kept, in the same order, after those that were kept before.
pub proof fn delivery_is_complete<T, H>(
    kept: Map<u64, Seq<H>>,
    messages: Seq<Transmission<T>>,
    replies: Seq<H>,
)
    requires
        messages.len() == replies.len(),
    ensures
        delivery(kept, messages, None, replies).1 == messages,
        handlers_at(delivery(kept, messages, None, replies).0, HANDLER_SLOT) == handlers_at(
            kept,
            HANDLER_SLOT,
        ) + replies,
        forall|slot: u64|
            slot != HANDLER_SLOT ==> #[trigger] handlers_at(
                delivery(kept, messages, None, replies).0,
                slot,
            ) == handlers_at(kept, slot),
{
    handlers_accumulate(kept, replies);
    lemma_delivery(kept, messages, replies);
}

/// What becomes of the kept handles, and which messages are handed out, when each message is sent
/// by a `send` of its own, one after the other, each with its own reply.
pub open spec fn sends<T, H>(
    kept: Map<u64, Seq<H>>,
    messages: Seq<Transmission<T>>,
    replies: Seq<H>,
) -> (Map<u64, Seq<H>>, Seq<Transmission<T>>)
    decreases messages.len(),
{
    if messages.len() == 0 {
        (kept, Seq::empty())
    } else {
        let message = messages.first();
        let first = delivery(
            kept,
            one_message(message.replica, message.payload),
            None,
            seq![replies.first()],
        );
        let rest = sends(first.0, messages.drop_first(), replies.drop_first());
        (rest.0, first.1 + rest.1)
    }
}

/// The messages with each payload turned into what is sent.
pub open spec fn sealed_by<M, W>(
    messages: Seq<Transmission<Sealed<M>>>,
    seal: spec_fn(Sealed<M>) -> W,
) -> Seq<Transmission<W>> {
    messages.map_values(
        |message: Transmission<Sealed<M>>|
            Transmission { replica: message.replica, payload: seal(message.payload) },
    )
}

/// Delivering messages together is sending them one by one: the same messages are handed out in
/// the same order, and the same handles are kept.
pub proof fn delivery_is_one_send_each<T, H>(
    kept: Map<u64, Seq<H>>,
    messages: Seq<Transmission<T>>,
    replies: Seq<H>,
)
    requires
        messages.len() == replies.len(),
    ensures
        sends(kept, messages, replies) == delivery(kept, messages, None, replies),
    decreases messages.len(),
{
    lemma_delivery(kept, messages, replies);
    if messages.len() == 0 {
        assert(messages =~= Seq::empty());
    } else {
        let message = messages.first();
        let reply = replies.first();
        let one = one_message(message.replica, message.payload);
        lemma_delivery(kept, one, seq![reply]);
        lemma_with_handlers_prepend(kept, reply, Seq::empty());
        assert(seq![reply] + Seq::empty() =~= seq![reply]);
        let now = with_handler(kept, reply);
        assert(with_handlers(now, Seq::empty()) == now);
        delivery_is_one_send_each(now, messages.drop_first(), replies.drop_first());
        lemma_delivery(now, messages.drop_first(), replies.drop_first());
        lemma_with_handlers_prepend(kept, reply, replies.drop_first());
        assert(seq![reply] + replies.drop_first() =~= replies);
        assert(one + messages.drop_first() =~= messages);
    }
}

/// A broadcast is one `send` for each replica for which there is a key. Where every message that
/// the broadcast hands out is sealed and then put on its way, the same sealed messages go out, in
/// the same order, and the same handles are kept, as where each sealed message is sent by itself;
/// and there is exactly one such message for each key.
pub proof fn one_send_per_key<M: Clone, W, H>(
    keys: Map<Replica, Vec<u8>>,
    sender: Replica,
    protmsg: M,
    messages: Seq<Transmission<Sealed<M>>>,
    seal: spec_fn(Sealed<M>) -> W,
    kept: Map<u64, Seq<H>>,
    replies: Seq<H>,
)
    requires
        tells_each_once(messages, keys, sender, protmsg),
        replies.len() == keys.len(),
    ensures
        sends(kept, sealed_by(messages, seal), replies).0 == delivery(
            kept,
            messages,
            None,
            replies,
        ).0,
        sends(kept, sealed_by(messages, seal), replies).1 == sealed_by(
            delivery(kept, messages, None, replies).1,
            seal,
        ),
        sealed_by(messages, seal).len() == keys.len(),
        forall|replica: Replica| #[trigger]
            keys.contains_key(replica) ==> exists|i: int|
                {
                    &&& 0 <= i < messages.len()
                    &&& (#[trigger] sealed_by(messages, seal)[i]).replica == replica
                    &&& sealed_by(messages, seal)[i].payload == seal(messages[i].payload)
                    &&& messages[i].payload.sec_key@ == keys[replica]@
                    &&& messages[i].payload.sender == sender
                    &&& cloned(protmsg, messages[i].payload.protmsg)
                },
{
    let sealed = sealed_by(messages, seal);
    delivery_is_one_send_each(kept, sealed, replies);
    lemma_delivery(kept, sealed, replies);
    lemma_delivery(kept, messages, replies);
    assert forall|replica: Replica| #[trigger] keys.contains_key(replica) implies exists|i: int|
        {
            &&& 0 <= i < messages.len()
            &&& (#[trigger] sealed[i]).replica == replica
            &&& sealed[i].payload == seal(messages[i].payload)
            &&& messages[i].payload.sec_key@ == keys[replica]@
            &&& messages[i].payload.sender == sender
            &&& cloned(protmsg, messages[i].payload.protmsg)
        } by {
        let i = choose|i: int|
            0 <= i < messages.len() && (#[trigger] messages[i]).replica == replica;
        assert(sealed[i].replica == replica);
    }
}

/// To keep a handle is to put it last among those under key zero, which stay in their order. There
/// is an entry under that key afterwards, and every other entry is as before.
pub proof fn keeps_one_more<H>(kept: Map<u64, Seq<H>>, canc: H, slot: u64)
    ensures
        ({
            let after = with_handler(kept, canc);
            &&& after.contains_key(0)
            &&& after[0].len() > 0
            &&& after[0].last() == canc
            &&& kept.contains_key(0) ==> after[0].drop_last() == kept[0]
            &&& !kept.contains_key(0) ==> after[0].len() == 1
            &&& slot != 0 ==> after.contains_key(slot) == kept.contains_key(slot)
            &&& slot != 0 && kept.contains_key(slot) ==> after[slot] == kept[slot]
        }),
        kept_after(kept, Some(canc)) == with_handler(kept, canc),
        kept_after(kept, None) == kept,
{
    if kept.contains_key(0) {
        assert(kept[0].push(canc).drop_last() =~= kept[0]);
    }
}

/// The handles of an entry are the elements of its list, and there are no entries but the map's.
pub proof fn handlers_are_the_entries<H>(kept: Map<u64, Vec<H>>, slot: u64)
    ensures
        handlers(kept).contains_key(slot) <==> kept.contains_key(slot),
        kept.contains_key(slot) ==> handlers(kept)[slot] == kept[slot]@,
{
}

/// A broadcast goes to the replicas for which there is a key and to no other, to none of them
/// twice, and is sealed for each with the key of that replica and no other.
pub proof fn nobody_is_told_twice<M: Clone>(
    messages: Seq<Transmission<Sealed<M>>>,
    keys: Map<Replica, Vec<u8>>,
    sender: Replica,
    protmsg: M,
    i: int,
    j: int,
)
    requires
        tells_each_once(messages, keys, sender, protmsg),
        0 <= i < messages.len(),
        0 <= j < messages.len(),
    ensures
        keys.contains_key(messages[i].replica),
        messages[i].payload.sec_key@ == keys[messages[i].replica]@,
        messages[i].payload.sender == sender,
        cloned(protmsg, messages[i].payload.protmsg),
        messages[i].replica == messages[j].replica ==> i == j,
{
}

/// The one message of a `send` goes to the replica that is meant, with what is to be told.
pub proof fn send_is_one_message<T>(replica: Replica, payload: T)
    ensures
        one_message(replica, payload).len() == 1,
        one_message(replica, payload)[0].replica == replica,
        one_message(replica, payload)[0].payload == payload,
{
}

/// A node can be started exactly if it is one of the parties, every party's port leaves room for
/// the service that lies highest above it, and the sizes fit.
pub proof fn what_can_be_started(config: Node, per_batch: usize, mixing_batch_size: usize)
    ensures
        launchable(config, per_batch, mixing_batch_size) <==> {
            &&& config.net_map@.dom().contains(config.id)
            &&& forall|replica: Replica| #[trigger]
                config.net_map@.contains_key(replica) ==> config.net_map@[replica].port_spec()
                    as int <= 65535 - 1950
            &&& sizes_fit(
                config.id as nat,
                config.num_nodes as nat,
                config.num_faults as nat,
                per_batch as nat,
                mixing_batch_size as nat,
            )
        },
{
}

/// Where a node's services expect a party, measured from where the node itself expects it: at the
/// same IP, on ports that lie above the party's own by a distance of each service's own.
pub proof fn services_beside_the_node<H>(
    launch: Launch<H>,
    config: Node,
    per_batch: usize,
    mixing_batch_size: usize,
    compression_factor: usize,
    byz: bool,
    replica: Replica,
)
    requires
        launchable(config, per_batch, mixing_batch_size),
        is_launch(launch, config, per_batch, mixing_batch_size, compression_factor, byz),
    ensures
        launch.consensus_addrs@ == config.net_map@,
        is_service_config(launch.acss_ab_config, config, 0),
        is_service_config(launch.sh2t_config, config, 600),
        is_service_config(launch.acs_config, config, 1200),
        is_service_config(launch.ctrbc_config, config, 1800),
        is_service_config(launch.acs_2_config, config, 1950),
        launch.acss_ab_config.net_map@.dom() == launch.consensus_addrs@.dom(),
        launch.sh2t_config.net_map@.dom() == launch.consensus_addrs@.dom(),
        launch.acs_config.net_map@.dom() == launch.consensus_addrs@.dom(),
        launch.ctrbc_config.net_map@.dom() == launch.consensus_addrs@.dom(),
        launch.acs_2_config.net_map@.dom() == launch.consensus_addrs@.dom(),
        config.net_map@.contains_key(replica) ==> {
            let own = launch.consensus_addrs@[replica];
            let acss_ab = launch.acss_ab_config.net_map@[replica];
            let sh2t = launch.sh2t_config.net_map@[replica];
            let acs = launch.acs_config.net_map@[replica];
            let ctrbc = launch.ctrbc_config.net_map@[replica];
            let acs_2 = launch.acs_2_config.net_map@[replica];
            &&& acss_ab.ip_spec() == own.ip_spec()
            &&& sh2t.ip_spec() == own.ip_spec()
            &&& acs.ip_spec() == own.ip_spec()
            &&& ctrbc.ip_spec() == own.ip_spec()
            &&& acs_2.ip_spec() == own.ip_spec()
            &&& acss_ab.port_spec() as int == own.port_spec() as int
            &&& sh2t.port_spec() as int == own.port_spec() as int + 600
            &&& acs.port_spec() as int == own.port_spec() as int + 1200
            &&& ctrbc.port_spec() as int == own.port_spec() as int + 1800
            &&& acs_2.port_spec() as int == own.port_spec() as int + 1950
        },
{
    service_differs_in_ports(launch.acss_ab_config, config, PORT_ACSS_AB, replica);
    service_differs_in_ports(launch.sh2t_config, config, PORT_SH2T, replica);
    service_differs_in_ports(launch.acs_config, config, PORT_ACS, replica);
    service_differs_in_ports(launch.ctrbc_config, config, PORT_CTRBC, replica);
    service_differs_in_ports(launch.acs_2_config, config, PORT_ACS_2, replica);
}

/// A node listens at every local IPv4 address: to the parties on the port on which they expect it,
/// and to the client on the port that is configured for that. The client is the one peer of the
/// second address book, under number zero.
pub proof fn listens_where_expected<H>(
    launch: Launch<H>,
    config: Node,
    per_batch: usize,
    mixing_batch_size: usize,
    compression_factor: usize,
    byz: bool,
    replica: Replica,
)
    requires
        is_launch(launch, config, per_batch, mixing_batch_size, compression_factor, byz),
    ensures
        launch.my_address.port_spec() == launch.consensus_addrs@[config.id].port_spec(),
        launch.syncer_l_address.port_spec() == config.client_port,
        launch.my_address.ip_spec() == IpAddr::V4(Ipv4Addr { a: 0, b: 0, c: 0, d: 0 }),
        launch.syncer_l_address.ip_spec() == launch.my_address.ip_spec(),
        launch.syncer_map@.contains_key(replica) <==> replica == 0,
        launch.syncer_map@[0] == config.client_addr,
{
}

/// A node starts with what its configuration says, with its keys, and with nothing done.
pub proof fn starts_as_configured<H>(
    launch: Launch<H>,
    config: Node,
    per_batch: usize,
    mixing_batch_size: usize,
    compression_factor: usize,
    byz: bool,
    i: int,
)
    requires
        is_launch(launch, config, per_batch, mixing_batch_size, compression_factor, byz),
        0 <= i < 16,
    ensures
        launch.context.myid == config.id,
        launch.context.num_nodes == config.num_nodes,
        launch.context.num_faults == config.num_faults,
        launch.context.byz == byz,
        launch.context.sec_key_map@ == config.sk_map@,
        launch.context.k_value == mixing_batch_size,
        launch.context.per_batch_maximum == per_batch,
        launch.context.compression_factor == compression_factor,
        launch.context.cancel_handlers@.dom() == Set::<u64>::empty(),
        launch.context.phase == Phase::Created,
        launch.context.use_fft == false,
        launch.context.input_acss_id_offset == 500,
        launch.context.threshold == 10000,
        launch.context.delinearization_depth == 5000,
        launch.context.preprocessing_mult_depth == 0,
        launch.context.multiplication_switch_threshold == 0,
        launch.hash_keys@[0]@.len() == 16 && launch.hash_keys@[0]@[i] == 5,
        launch.hash_keys@[1]@.len() == 16 && launch.hash_keys@[1]@[i] == 29,
        launch.hash_keys@[2]@.len() == 16 && launch.hash_keys@[2]@[i] == 23,
{
    assert(launch.context.cancel_handlers@.dom() =~= Set::<u64>::empty());
}

/// How the sizes that a node starts with hang together. `depth` is the logarithm of the number of
/// inputs, rounded down. The node supplies the inputs that follow on those of the parties with
/// lower numbers, as few as will do; it proposes its part of the sharings, rounded down, and twenty
/// more, in whole batches; and it counts its broadcasts from the first number that is its own.
pub proof fn starting_sizes<H>(
    launch: Launch<H>,
    config: Node,
    per_batch: usize,
    mixing_batch_size: usize,
    compression_factor: usize,
    byz: bool,
    depth: nat,
)
    requires
        launchable(config, per_batch, mixing_batch_size),
        is_launch(launch, config, per_batch, mixing_batch_size, compression_factor, byz),
        pow2(depth) <= mixing_batch_size < pow2(depth + 1),
    ensures
        ({
            let context = launch.context;
            let k = mixing_batch_size as int;
            let parties = config.num_faults as int + 1;
            let quorum = 2 * config.num_faults as int + 1;
            let supplied = context.inputs@.len() as int;
            let total = context.total_sharings as int;
            let batches = context.tot_batches as int;
            let masks = context.output_mask_size as int;
            &&& context.log_k == depth
            &&& context.max_depth == depth * depth
            &&& quorum * (supplied - 1) <= k < quorum * supplied
            &&& forall|x: int|
                0 <= x < supplied ==> #[trigger] context.inputs@[x] as int == config.id as int
                    * supplied + x
            &&& parties * (total - 20) <= k * depth * depth < parties * (total - 19)
            &&& batches >= 1
            &&& total >= per_batch ==> batches * per_batch <= total
            &&& total < per_batch ==> batches == 1
            &&& total < (batches + 1) * per_batch
            &&& parties * masks <= 2 * k < parties * (masks + 1)
            &&& context.total_sharings_for_coins == 10 * config.num_nodes
            &&& context.max_id == 10000 * config.id
            &&& context.max_id == context.threshold * config.id
        }),
{
    let k = mixing_batch_size as nat;
    let num_faults = config.num_faults as nat;
    let parties = num_faults as int + 1;
    log2_unique(k, depth);
    share_is_least(k, num_faults);
    proposals_are_no_more(k, num_faults, depth);
    batches_bounds(sharings_to_propose(k, num_faults), per_batch as nat);
    vstd::arithmetic::div_mod::lemma_fundamental_div_mod(2 * k as int, parties);
    vstd::arithmetic::div_mod::lemma_mod_bound(2 * k as int, parties);
    vstd::arithmetic::mul::lemma_mul_is_distributive_add(parties, (2 * k as int) / parties, 1);
}

} // verus!
