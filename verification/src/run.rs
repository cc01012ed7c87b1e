//! The event loop of a node: what it does about each thing that happens to it.
use crate::context::{handlers, with_handler, Context, Phase, Transmission};
use crate::node::Replica;
use vstd::prelude::*;

verus! {

/// The replica number under which the client is reached.
pub const CLIENT: Replica = 0;

/// What a message between client and node says.
#[derive(Clone, Copy, Debug, PartialEq, Eq, Structural)]
pub enum SyncState {
    /// The node is there.
    ALIVE,
    /// The computation is to start.
    START,
    /// The node is to stop.
    STOP,
    /// Anything else that client and nodes tell each other.
    OTHER,
}

/// A message between client and node.
pub struct SyncMsg {
    pub sender: Replica,
    pub state: SyncState,
    pub value: Vec<u8>,
}

/// What can happen to a node. `M` is a message of another party, `F` a serialised element of the
/// field, `S` a share of verifiable secret sharing, and `H` the handle of a message that was sent.
/// Where a channel delivers, `None` says that it has closed.
pub enum Event<M, F, S, H> {
    /// The loop begins.
    Launched,
    /// The announcement was sent.
    Announced(H),
    /// The exit channel has resolved: a value was sent (`true`), or its sender is gone (`false`).
    Exit(bool),
    /// The network.
    Network(Option<M>),
    /// Secret sharing: the instance, its dealer, and the shares, unless the dealer has aborted.
    AcssAb(Option<(usize, Replica, Option<Vec<F>>)>),
    /// Sharing of degree twice the faults: the instance, its dealer, and the shares, unless the
    /// dealer has aborted.
    Sh2t(Option<(usize, Replica, Option<Vec<F>>)>),
    /// The first agreement on a common subset: the instance and the parties agreed on.
    Acs(Option<(usize, Vec<usize>)>),
    /// Reliable broadcast: the instance, its sender, and what was broadcast.
    Ctrbc(Option<(usize, Replica, Vec<u8>)>),
    /// The second agreement on a common subset: the instance and the parties agreed on.
    Acs2(Option<(usize, Vec<usize>)>),
    /// Verifiable secret sharing: whether this is a share from a dealer (`true`), which then comes
    /// second, or one that a party has sent for reconstruction (`false`), which then comes third.
    Avss(Option<(bool, Option<(Replica, S)>, Option<(Replica, Replica, S)>)>),
    /// The client.
    Sync(Option<SyncMsg>),
}

/// Why an event loop has failed.
#[derive(Clone, Copy, Debug, PartialEq, Eq, Structural)]
pub enum RunError {
    /// The sender of the exit channel is gone.
    ExitDropped,
    /// One of the channels from the network, the services or the client has closed.
    NetworkClosed,
}

impl RunError {
    /// What the error says.
    pub fn message(&self) -> (text: &'static str)
        ensures
            *self == RunError::ExitDropped ==> text@ == "channel closed"@,
            *self == RunError::NetworkClosed ==> text@ == "Networking layer has closed"@,
    {
        match self {
            RunError::ExitDropped => "channel closed",
            RunError::NetworkClosed => "Networking layer has closed",
        }
    }
}

/// What a node does about an event before it waits for the next.
pub enum Action<M, F, S> {
    /// Send this to the client, and report that it was sent.
    Announce(Transmission<SyncMsg>),
    /// Nothing.
    Listen,
    /// Process a message of another party.
    ProcessMsg(M),
    /// Handle the end of the sharing of a party's inputs.
    HandleInputAcssTermination(usize, Replica, Option<Vec<F>>),
    /// Handle the end of the sharing of random values.
    HandleAcssTermMsg(usize, Replica, Option<Vec<F>>),
    /// Handle the end of a sharing of degree twice the faults.
    HandleSh2tTermMsg(usize, Replica, Option<Vec<F>>),
    /// Handle the parties that were agreed on first.
    HandleAcsOutput(Vec<usize>),
    /// Handle a broadcast of outputs.
    HandleOutputDeliveryCtrbc(usize, Replica, Vec<u8>),
    /// Handle the parties that were agreed on at the end.
    HandleProtEndBaOutput(Vec<usize>),
    /// Handle a share from its dealer.
    HandleAvssShareOutput(Replica, S),
    /// Handle a share of the first party's secret that the second has sent.
    HandleAvssShareOracleOutput(Replica, Replica, S),
    /// Start the computation with the sharing of random values.
    InitRandSh,
    /// Leave the loop with this result.
    Finish(Result<(), RunError>),
}

/// Whether an event ends the loop.
pub open spec fn ends_run<M, F, S, H>(event: Event<M, F, S, H>) -> bool {
    match event {
        Event::Launched => false,
        Event::Announced(canc) => false,
        Event::Exit(signalled) => true,
        Event::Network(msg) => msg is None,
        Event::AcssAb(msg) => msg is None,
        Event::Sh2t(msg) => msg is None,
        Event::Acs(output) => output is None,
        Event::Ctrbc(output) => output is None,
        Event::Acs2(output) => output is None,
        Event::Avss(output) => output is None,
        Event::Sync(None) => true,
        Event::Sync(Some(msg)) => msg.state == SyncState::STOP,
    }
}

/// Whether an event can happen at this point of the loop. A share of verifiable secret sharing is
/// where its flag says that it is.
pub open spec fn can_happen<M, F, S, H>(phase: Phase, event: Event<M, F, S, H>) -> bool {
    match event {
        Event::Launched => phase == Phase::Created,
        Event::Announced(canc) => phase == Phase::Announcing,
        Event::Avss(Some((sharing, share, reconstruction))) => {
            &&& phase == Phase::Listening
            &&& sharing ==> share is Some
            &&& !sharing ==> reconstruction is Some
        },
        _ => phase == Phase::Listening,
    }
}

/// Where the loop is after an event.
pub open spec fn phase_after<M, F, S, H>(event: Event<M, F, S, H>) -> Phase {
    if event is Launched {
        Phase::Announcing
    } else if ends_run(event) {
        Phase::Finished
    } else {
        Phase::Listening
    }
}

/// The handles that are kept after an event.
pub open spec fn handlers_after<M, F, S, H>(
    kept: Map<u64, Seq<H>>,
    event: Event<M, F, S, H>,
) -> Map<u64, Seq<H>> {
    match event {
        Event::Announced(canc) => with_handler(kept, canc),
        _ => kept,
    }
}

/// Whether `action` is what a node does about `event`, given its number and the first instance
/// number under which inputs are shared.
pub open spec fn answers<M, F, S, H>(
    action: Action<M, F, S>,
    event: Event<M, F, S, H>,
    myid: Replica,
    input_acss_id_offset: usize,
) -> bool {
    match event {
        Event::Launched => {
            &&& action matches Action::Announce(message)
            &&& message.replica == 0
            &&& message.payload.sender == myid
            &&& message.payload.state == SyncState::ALIVE
            &&& message.payload.value@.len() == 0
        },
        Event::Announced(canc) => action is Listen,
        Event::Exit(true) => action == Action::<M, F, S>::Finish(Ok(())),
        Event::Exit(false) => action == Action::<M, F, S>::Finish(Err(RunError::ExitDropped)),
        Event::Network(Some(msg)) => action == Action::<M, F, S>::ProcessMsg(msg),
        Event::AcssAb(Some((instance, dealer, shares))) => if instance >= input_acss_id_offset {
            action == Action::<M, F, S>::HandleInputAcssTermination(instance, dealer, shares)
        } else {
            action == Action::<M, F, S>::HandleAcssTermMsg(instance, dealer, shares)
        },
        Event::Sh2t(Some((instance, dealer, shares))) => action == Action::<
            M,
            F,
            S,
        >::HandleSh2tTermMsg(instance, dealer, shares),
        Event::Acs(Some((instance, parties))) => action == Action::<M, F, S>::HandleAcsOutput(
            parties,
        ),
        Event::Ctrbc(Some((instance, sender, value))) => action == Action::<
            M,
            F,
            S,
        >::HandleOutputDeliveryCtrbc(instance, sender, value),
        Event::Acs2(Some((instance, parties))) => action == Action::<
            M,
            F,
            S,
        >::HandleProtEndBaOutput(parties),
        Event::Avss(Some((true, share, reconstruction))) => {
            &&& share matches Some((origin, avss_share))
            &&& action == Action::<M, F, S>::HandleAvssShareOutput(origin, avss_share)
        },
        Event::Avss(Some((false, share, reconstruction))) => {
            &&& reconstruction matches Some((origin, share_sender, avss_share))
            &&& action == Action::<M, F, S>::HandleAvssShareOracleOutput(
                origin,
                share_sender,
                avss_share,
            )
        },
        Event::Sync(Some(msg)) => match msg.state {
            SyncState::START => action is InitRandSh,
            SyncState::STOP => action == Action::<M, F, S>::Finish(Ok(())),
            SyncState::ALIVE | SyncState::OTHER => action is Listen,
        },
        _ => action == Action::<M, F, S>::Finish(Err(RunError::NetworkClosed)),
    }
}

impl<H> Context<H> {
    /// One turn of the event loop: takes note of what has happened, and says what to do about it.
    pub fn run<M, F, S>(&mut self, event: Event<M, F, S, H>) -> (action: Action<M, F, S>)
        requires
            can_happen(old(self).phase, event),
        ensures
            answers(action, event, old(self).myid, old(self).input_acss_id_offset),
            handlers(final(self).cancel_handlers@) == handlers_after(
                handlers(old(self).cancel_handlers@),
                event,
            ),
            *final(self) == (Context {
                phase: phase_after(event),
                cancel_handlers: final(self).cancel_handlers,
                ..*old(self)
            }),
    {
        let action = match event {
            Event::Launched => {
                self.phase = Phase::Announcing;
                return Action::Announce(
                    Transmission {
                        replica: CLIENT,
                        payload: SyncMsg {
                            sender: self.myid,
                            state: SyncState::ALIVE,
                            value: Vec::new(),
                        },
                    },
                );
            },
            Event::Announced(canc) => {
                self.add_cancel_handler(canc);
                self.phase = Phase::Listening;
                return Action::Listen;
            },
            Event::Exit(signalled) => if signalled {
                Action::Finish(Ok(()))
            } else {
                Action::Finish(Err(RunError::ExitDropped))
            },
            Event::Network(Some(msg)) => Action::ProcessMsg(msg),
            Event::AcssAb(Some((instance, dealer, shares))) => if instance
                >= self.input_acss_id_offset {
                Action::HandleInputAcssTermination(instance, dealer, shares)
            } else {
                Action::HandleAcssTermMsg(instance, dealer, shares)
            },
            Event::Sh2t(Some((instance, dealer, shares))) => Action::HandleSh2tTermMsg(
                instance,
                dealer,
                shares,
            ),
            Event::Acs(Some((_, parties))) => Action::HandleAcsOutput(parties),
            Event::Ctrbc(Some((instance, sender, value))) => Action::HandleOutputDeliveryCtrbc(
                instance,
                sender,
                value,
            ),
            Event::Acs2(Some((_, parties))) => Action::HandleProtEndBaOutput(parties),
            Event::Avss(Some((sharing, share, reconstruction))) => if sharing {
                let (origin, avss_share) = share.unwrap();
                Action::HandleAvssShareOutput(origin, avss_share)
            } else {
                let (origin, share_sender, avss_share) = reconstruction.unwrap();
                Action::HandleAvssShareOracleOutput(origin, share_sender, avss_share)
            },
            Event::Sync(Some(msg)) => match msg.state {
                SyncState::START => Action::InitRandSh,
                SyncState::STOP => Action::Finish(Ok(())),
                SyncState::ALIVE | SyncState::OTHER => Action::Listen,
            },
            _ => Action::Finish(Err(RunError::NetworkClosed)),
        };
        match action {
            Action::Finish(_) => {
                self.phase = Phase::Finished;
            },
            _ => {
                self.phase = Phase::Listening;
            },
        }
        action
    }

    /// Tests whether an event can happen at this point of the loop.
    pub fn can_run<M, F, S>(&self, event: &Event<M, F, S, H>) -> (ok: bool)
        ensures
            ok == can_happen(self.phase, *event),
    {
        match event {
            Event::Launched => self.phase == Phase::Created,
            Event::Announced(_) => self.phase == Phase::Announcing,
            Event::Avss(Some((sharing, share, reconstruction))) => self.phase == Phase::Listening
                && (if *sharing {
                share.is_some()
            } else {
                reconstruction.is_some()
            }),
            _ => self.phase == Phase::Listening,
        }
    }
}

/// Where the loop is when the event number `i` happens.
pub open spec fn phase_before<M, F, S, H>(
    start: Phase,
    events: Seq<Event<M, F, S, H>>,
    i: int,
) -> Phase {
    if i == 0 {
        start
    } else {
        phase_after(events[i - 1])
    }
}

/// Whether the event number `i` can happen when its turn comes.
pub open spec fn can_happen_at<M, F, S, H>(
    start: Phase,
    events: Seq<Event<M, F, S, H>>,
    i: int,
) -> bool {
    can_happen(phase_before(start, events, i), events[i])
}

/// Whether these events can happen one after the other.
pub open spec fn can_happen_in_turn<M, F, S, H>(
    start: Phase,
    events: Seq<Event<M, F, S, H>>,
) -> bool {
    forall|i: int| 0 <= i < events.len() ==> #[trigger] can_happen_at(start, events, i)
}

/// The handles that the loop itself keeps in the course of these events.
pub open spec fn handlers_over<M, F, S, H>(
    kept: Map<u64, Seq<H>>,
    events: Seq<Event<M, F, S, H>>,
) -> Map<u64, Seq<H>>
    decreases events.len(),
{
    if events.len() == 0 {
        kept
    } else {
        handlers_after(handlers_over(kept, events.drop_last()), events.last())
    }
}

/// The loop is left exactly at the events that end it, and then it says with which result: without
/// an error if it was told to, on the exit channel or by the client, and with one if the exit
/// channel's sender is gone or another channel has closed.
pub proof fn finishes_at_the_end<M, F, S, H>(
    action: Action<M, F, S>,
    event: Event<M, F, S, H>,
    myid: Replica,
    input_acss_id_offset: usize,
)
    requires
        answers(action, event, myid, input_acss_id_offset),
    ensures
        action is Finish <==> ends_run(event),
        action == Action::<M, F, S>::Finish(Ok(())) <==> {
            ||| event == Event::<M, F, S, H>::Exit(true)
            ||| event matches Event::Sync(Some(msg)) && msg.state == SyncState::STOP
        },
        action == Action::<M, F, S>::Finish(Err(RunError::ExitDropped)) <==> event == Event::<
            M,
            F,
            S,
            H,
        >::Exit(false),
{
}

/// No event follows one that ends the loop.
pub proof fn nothing_follows_the_end<M, F, S, H>(
    start: Phase,
    events: Seq<Event<M, F, S, H>>,
    i: int,
)
    requires
        can_happen_in_turn(start, events),
        0 <= i < events.len(),
        ends_run(events[i]),
    ensures
        i == events.len() - 1,
{
    if i + 1 < events.len() {
        assert(can_happen_at(start, events, i + 1));
    }
}

/// A loop that has only been created first tells the client that the node is alive, and hears of
/// nothing else before that was sent. It does so once.
pub proof fn announces_first<M, F, S, H>(events: Seq<Event<M, F, S, H>>, i: int)
    requires
        can_happen_in_turn(Phase::Created, events),
        0 <= i < events.len(),
    ensures
        i == 0 <==> events[i] is Launched,
        i == 1 <==> events[i] is Announced,
{
    assert(can_happen_at(Phase::Created, events, i));
    if i > 0 {
        assert(can_happen_at(Phase::Created, events, i - 1));
    }
    if i > 1 {
        assert(can_happen_at(Phase::Created, events, i - 2));
    }
}

/// Of its own accord the loop keeps one handle, that of the announcement.
pub proof fn keeps_one_handler<M, F, S, H>(
    kept: Map<u64, Seq<H>>,
    events: Seq<Event<M, F, S, H>>,
)
    requires
        can_happen_in_turn(Phase::Created, events),
    ensures
        events.len() < 2 ==> handlers_over(kept, events) == kept,
        events.len() >= 2 ==> {
            &&& events[1] matches Event::Announced(canc)
            &&& handlers_over(kept, events) == with_handler(kept, canc)
        },
    decreases events.len(),
{
    if events.len() > 0 {
        let before = events.drop_last();
        let last = events.len() - 1;
        assert forall|i: int| 0 <= i < before.len() implies #[trigger] can_happen_at(
            Phase::Created,
            before,
            i,
        ) by {
            assert(can_happen_at(Phase::Created, events, i));
        }
        keeps_one_handler(kept, before);
        announces_first(events, last);
        if last >= 1 {
            announces_first(events, 1);
        }
    }
}

/// From where something is received that a node handles.
pub enum Channel {
    Network,
    AcssAb,
    Sh2t,
    Acs,
    Ctrbc,
    Acs2,
    Avss,
    Client,
}

/// What an event brings for a node to handle, or what an action handles.
pub enum Parcel<M, F, S> {
    Message(M),
    Acss(usize, Replica, Option<Vec<F>>),
    Sh2t(usize, Replica, Option<Vec<F>>),
    Parties(Vec<usize>),
    Value(usize, Replica, Vec<u8>),
    FinalParties(Vec<usize>),
    Share(Replica, S),
    Reconstruction(Replica, Replica, S),
    Start,
}

/// The channel on which a parcel comes.
pub open spec fn channel_of<M, F, S>(parcel: Parcel<M, F, S>) -> Channel {
    match parcel {
        Parcel::Message(msg) => Channel::Network,
        Parcel::Acss(instance, dealer, shares) => Channel::AcssAb,
        Parcel::Sh2t(instance, dealer, shares) => Channel::Sh2t,
        Parcel::Parties(parties) => Channel::Acs,
        Parcel::Value(instance, sender, value) => Channel::Ctrbc,
        Parcel::FinalParties(parties) => Channel::Acs2,
        Parcel::Share(origin, share) => Channel::Avss,
        Parcel::Reconstruction(origin, share_sender, share) => Channel::Avss,
        Parcel::Start => Channel::Client,
    }
}

/// What an event brings for the node to handle, if it brings anything. Of what the client says,
/// only that the computation is to start is handled.
pub open spec fn brought<M, F, S, H>(event: Event<M, F, S, H>) -> Option<Parcel<M, F, S>> {
    match event {
        Event::Network(Some(msg)) => Some(Parcel::Message(msg)),
        Event::AcssAb(Some((instance, dealer, shares))) => Some(
            Parcel::Acss(instance, dealer, shares),
        ),
        Event::Sh2t(Some((instance, dealer, shares))) => Some(
            Parcel::Sh2t(instance, dealer, shares),
        ),
        Event::Acs(Some((instance, parties))) => Some(Parcel::Parties(parties)),
        Event::Ctrbc(Some((instance, sender, value))) => Some(
            Parcel::Value(instance, sender, value),
        ),
        Event::Acs2(Some((instance, parties))) => Some(Parcel::FinalParties(parties)),
        Event::Avss(Some((true, Some((origin, share)), reconstruction))) => Some(
            Parcel::Share(origin, share),
        ),
        Event::Avss(Some((false, share, Some((origin, share_sender, sent))))) => Some(
            Parcel::Reconstruction(origin, share_sender, sent),
        ),
        Event::Sync(Some(msg)) => if msg.state == SyncState::START {
            Some(Parcel::Start)
        } else {
            None
        },
        _ => None,
    }
}

/// What an action handles, if it handles anything.
pub open spec fn handled<M, F, S>(action: Action<M, F, S>) -> Option<Parcel<M, F, S>> {
    match action {
        Action::ProcessMsg(msg) => Some(Parcel::Message(msg)),
        Action::HandleInputAcssTermination(instance, dealer, shares) => Some(
            Parcel::Acss(instance, dealer, shares),
        ),
        Action::HandleAcssTermMsg(instance, dealer, shares) => Some(
            Parcel::Acss(instance, dealer, shares),
        ),
        Action::HandleSh2tTermMsg(instance, dealer, shares) => Some(
            Parcel::Sh2t(instance, dealer, shares),
        ),
        Action::HandleAcsOutput(parties) => Some(Parcel::Parties(parties)),
        Action::HandleOutputDeliveryCtrbc(instance, sender, value) => Some(
            Parcel::Value(instance, sender, value),
        ),
        Action::HandleProtEndBaOutput(parties) => Some(Parcel::FinalParties(parties)),
        Action::HandleAvssShareOutput(origin, share) => Some(Parcel::Share(origin, share)),
        Action::HandleAvssShareOracleOutput(origin, share_sender, share) => Some(
            Parcel::Reconstruction(origin, share_sender, share),
        ),
        Action::InitRandSh => Some(Parcel::Start),
        Action::Announce(message) => None,
        Action::Listen => None,
        Action::Finish(result) => None,
    }
}

/// The parcels with one more, if there is one and it came on this channel.
pub open spec fn with_parcel<M, F, S>(
    parcels: Seq<Parcel<M, F, S>>,
    parcel: Option<Parcel<M, F, S>>,
    channel: Channel,
) -> Seq<Parcel<M, F, S>> {
    match parcel {
        Some(parcel) => if channel_of(parcel) == channel {
            parcels.push(parcel)
        } else {
            parcels
        },
        None => parcels,
    }
}

/// What the events bring on a channel, in order.
pub open spec fn brought_on<M, F, S, H>(
    events: Seq<Event<M, F, S, H>>,
    channel: Channel,
) -> Seq<Parcel<M, F, S>>
    decreases events.len(),
{
    if events.len() == 0 {
        Seq::empty()
    } else {
        with_parcel(brought_on(events.drop_last(), channel), brought(events.last()), channel)
    }
}

/// What the actions handle of what came on a channel, in order.
pub open spec fn handled_on<M, F, S>(
    actions: Seq<Action<M, F, S>>,
    channel: Channel,
) -> Seq<Parcel<M, F, S>>
    decreases actions.len(),
{
    if actions.len() == 0 {
        Seq::empty()
    } else {
        with_parcel(handled_on(actions.drop_last(), channel), handled(actions.last()), channel)
    }
}

/// An action handles exactly what the event brought that it answers.
pub proof fn handles_what_is_brought<M, F, S, H>(
    action: Action<M, F, S>,
    event: Event<M, F, S, H>,
    myid: Replica,
    input_acss_id_offset: usize,
)
    requires
        answers(action, event, myid, input_acss_id_offset),
    ensures
        handled(action) == brought(event),
{
}

/// Whatever comes on a channel is handled, each thing once and in the order in which it came, and
/// nothing else is.
pub proof fn handles_each_in_order<M, F, S, H>(
    events: Seq<Event<M, F, S, H>>,
    actions: Seq<Action<M, F, S>>,
    channel: Channel,
    myid: Replica,
    input_acss_id_offset: usize,
)
    requires
        actions.len() == events.len(),
        forall|i: int|
            #![trigger actions[i]]
            #![trigger events[i]]
            0 <= i < events.len() ==> answers(actions[i], events[i], myid, input_acss_id_offset),
    ensures
        handled_on(actions, channel) == brought_on(events, channel),
    decreases events.len(),
{
    if events.len() > 0 {
        let before = events.drop_last();
        let done = actions.drop_last();
        assert forall|i: int|
            #![trigger done[i]]
            #![trigger before[i]]
            0 <= i < before.len() implies answers(done[i], before[i], myid, input_acss_id_offset) by {
            assert(done[i] == actions[i]);
            assert(before[i] == events[i]);
        }
        handles_each_in_order(before, done, channel, myid, input_acss_id_offset);
        handles_what_is_brought(actions.last(), events.last(), myid, input_acss_id_offset);
    }
}

/// Which handler hears of the end of a sharing depends on its instance number alone: that of
/// inputs from the offset on, and that of random values below it, whoever the dealer is and
/// whether or not there are shares. The handler gets the instance, the dealer and the shares.
pub proof fn sharing_goes_by_instance<M, F, S, H>(
    action: Action<M, F, S>,
    instance: usize,
    dealer: Replica,
    shares: Option<Vec<F>>,
    myid: Replica,
    input_acss_id_offset: usize,
)
    requires
        answers(
            action,
            Event::<M, F, S, H>::AcssAb(Some((instance, dealer, shares))),
            myid,
            input_acss_id_offset,
        ),
    ensures
        action is HandleInputAcssTermination <==> instance as int >= input_acss_id_offset as int,
        action is HandleAcssTermMsg <==> (instance as int) < input_acss_id_offset as int,
        action matches Action::HandleInputAcssTermination(i, d, s) ==> i == instance && d == dealer
            && s == shares,
        action matches Action::HandleAcssTermMsg(i, d, s) ==> i == instance && d == dealer && s
            == shares,
{
}

/// Two sharings with the same instance number end at the same handler.
pub proof fn same_instance_same_handler<M, F, S, H>(
    first: Action<M, F, S>,
    second: Action<M, F, S>,
    instance: usize,
    dealers: (Replica, Replica),
    shares: (Option<Vec<F>>, Option<Vec<F>>),
    myid: Replica,
    input_acss_id_offset: usize,
)
    requires
        answers(
            first,
            Event::<M, F, S, H>::AcssAb(Some((instance, dealers.0, shares.0))),
            myid,
            input_acss_id_offset,
        ),
        answers(
            second,
            Event::<M, F, S, H>::AcssAb(Some((instance, dealers.1, shares.1))),
            myid,
            input_acss_id_offset,
        ),
    ensures
        first is HandleInputAcssTermination <==> second is HandleInputAcssTermination,
        first is HandleAcssTermMsg <==> second is HandleAcssTermMsg,
{
}

/// Each handler is called exactly for what its own channel delivers, and gets what was delivered.
pub proof fn handlers_hear_their_own_channel<M, F, S, H>(
    action: Action<M, F, S>,
    event: Event<M, F, S, H>,
    myid: Replica,
    input_acss_id_offset: usize,
)
    requires
        answers(action, event, myid, input_acss_id_offset),
    ensures
        action is ProcessMsg <==> (event matches Event::Network(msg) && msg is Some),
        event matches Event::Network(Some(msg)) ==> action == Action::<M, F, S>::ProcessMsg(msg),
        action is HandleInputAcssTermination || action is HandleAcssTermMsg <==> (
        event matches Event::AcssAb(msg) && msg is Some),
        action is HandleSh2tTermMsg <==> (event matches Event::Sh2t(msg) && msg is Some),
        event matches Event::Sh2t(Some((instance, dealer, shares))) ==> action == Action::<
            M,
            F,
            S,
        >::HandleSh2tTermMsg(instance, dealer, shares),
        action is HandleOutputDeliveryCtrbc <==> (event matches Event::Ctrbc(output)
            && output is Some),
        event matches Event::Ctrbc(Some((instance, sender, value))) ==> action == Action::<
            M,
            F,
            S,
        >::HandleOutputDeliveryCtrbc(instance, sender, value),
        action is HandleAcsOutput <==> (event matches Event::Acs(output) && output is Some),
        action is HandleProtEndBaOutput <==> (event matches Event::Acs2(output) && output is Some),
        event matches Event::Acs(Some((instance, parties))) ==> action == Action::<M, F, S>::HandleAcsOutput(
            parties,
        ),
        event matches Event::Acs2(Some((instance, parties))) ==> action == Action::<
            M,
            F,
            S,
        >::HandleProtEndBaOutput(parties),
        action is HandleAvssShareOutput <==> (event matches Event::Avss(Some((sharing, s, r)))
            && sharing),
        action is HandleAvssShareOracleOutput <==> (event matches Event::Avss(Some((sharing, s, r)))
            && !sharing),
        event matches Event::Avss(Some((sharing, share, sent))) ==> {
            &&& sharing ==> (action matches Action::HandleAvssShareOutput(origin, avss_share)
                && share == Some((origin, avss_share)))
            &&& !sharing ==> (action matches Action::HandleAvssShareOracleOutput(
                origin,
                share_sender,
                avss_share,
            ) && sent == Some((origin, share_sender, avss_share)))
        },
        action is InitRandSh <==> (event matches Event::Sync(Some(msg)) && msg.state
            == SyncState::START),
{
}

/// The node says that it is alive exactly when its loop begins: to the client, in its own name and
/// with nothing else. It does nothing exactly when that was sent, and when the client says
/// anything but that it is to start or to stop.
pub proof fn announces_itself<M, F, S, H>(
    action: Action<M, F, S>,
    event: Event<M, F, S, H>,
    myid: Replica,
    input_acss_id_offset: usize,
)
    requires
        answers(action, event, myid, input_acss_id_offset),
    ensures
        action is Announce <==> event is Launched,
        action matches Action::Announce(message) ==> {
            &&& message.replica == 0
            &&& message.payload.sender == myid
            &&& message.payload.state == SyncState::ALIVE
            &&& message.payload.value@ == Seq::<u8>::empty()
        },
        action is Listen <==> {
            ||| event is Announced
            ||| event matches Event::Sync(Some(msg)) && msg.state != SyncState::START && msg.state
                != SyncState::STOP
        },
{
    if let Action::Announce(message) = action {
        assert(message.payload.value@ =~= Seq::<u8>::empty());
    }
}

/// The loop fails for want of a channel exactly when one of those from the network, the services
/// and the client has closed, whichever it is.
pub proof fn fails_exactly_when_closed<M, F, S, H>(
    action: Action<M, F, S>,
    event: Event<M, F, S, H>,
    myid: Replica,
    input_acss_id_offset: usize,
)
    requires
        answers(action, event, myid, input_acss_id_offset),
    ensures
        action == Action::<M, F, S>::Finish(Err(RunError::NetworkClosed)) <==> {
            ||| event == Event::<M, F, S, H>::Network(None)
            ||| event == Event::<M, F, S, H>::AcssAb(None)
            ||| event == Event::<M, F, S, H>::Sh2t(None)
            ||| event == Event::<M, F, S, H>::Acs(None)
            ||| event == Event::<M, F, S, H>::Ctrbc(None)
            ||| event == Event::<M, F, S, H>::Acs2(None)
            ||| event == Event::<M, F, S, H>::Avss(None)
            ||| event == Event::<M, F, S, H>::Sync(None)
        },
        action == Action::<M, F, S>::Finish(Err(RunError::ExitDropped)) <==> event == Event::<
            M,
            F,
            S,
            H,
        >::Exit(false),
        action == Action::<M, F, S>::Finish(Ok(())) <==> {
            ||| event == Event::<M, F, S, H>::Exit(true)
            ||| event matches Event::Sync(Some(msg)) && msg.state == SyncState::STOP
        },
{
}

/// What a node does about an event other than the beginning depends on nothing but the event and
/// the offset, and there is only one thing to do.
pub proof fn one_answer<M, F, S, H>(
    first: Action<M, F, S>,
    second: Action<M, F, S>,
    event: Event<M, F, S, H>,
    one: Replica,
    other: Replica,
    input_acss_id_offset: usize,
)
    requires
        answers(first, event, one, input_acss_id_offset),
        answers(second, event, other, input_acss_id_offset),
        !(event is Launched),
    ensures
        first == second,
{
}

/// Where the loop is after an event goes with what the node does about it: it waits for the
/// announcement to be sent while it announces itself, it is over where it is left, and it listens
/// in every other case.
pub proof fn phase_goes_with_action<M, F, S, H>(
    action: Action<M, F, S>,
    event: Event<M, F, S, H>,
    myid: Replica,
    input_acss_id_offset: usize,
)
    requires
        answers(action, event, myid, input_acss_id_offset),
    ensures
        phase_after(event) == Phase::Announcing <==> action is Announce,
        phase_after(event) == Phase::Finished <==> action is Finish,
        phase_after(event) == Phase::Listening <==> !(action is Announce) && !(action is Finish),
{
}

/// While it listens, a node hears of everything: of whatever a channel delivers, of its closing and
/// of the exit channel. Only a share that is not where its flag says is ruled out. It hears of
/// nothing else before, and of nothing after.
pub proof fn hears_everything_while_listening<M, F, S, H>(event: Event<M, F, S, H>)
    ensures
        can_happen(Phase::Listening, event) <==> {
            &&& !(event is Launched)
            &&& !(event is Announced)
            &&& event matches Event::Avss(Some((sharing, share, reconstruction))) ==> if sharing {
                share is Some
            } else {
                reconstruction is Some
            }
        },
        can_happen(Phase::Created, event) <==> event is Launched,
        can_happen(Phase::Announcing, event) <==> event is Announced,
        !can_happen(Phase::Finished, event),
{
}

/// Of its own accord the loop keeps a handle only when the announcement was sent, and then that
/// one, as the last of those under key zero. All others stay as they are.
pub proof fn keeps_the_announcement<M, F, S, H>(
    kept: Map<u64, Seq<H>>,
    event: Event<M, F, S, H>,
    slot: u64,
)
    ensures
        !(event is Announced) ==> handlers_after(kept, event) == kept,
        event matches Event::Announced(canc) ==> {
            let after = handlers_after(kept, event);
            &&& after.contains_key(0)
            &&& after[0].len() > 0
            &&& after[0].last() == canc
            &&& kept.contains_key(0) ==> after[0].drop_last() == kept[0]
            &&& !kept.contains_key(0) ==> after[0].len() == 1
            &&& slot != 0 ==> after.contains_key(slot) == kept.contains_key(slot)
            &&& slot != 0 && kept.contains_key(slot) ==> after[slot] == kept[slot]
        },
{
    if let Event::Announced(canc) = event {
        if kept.contains_key(0) {
            assert(kept[0].push(canc).drop_last() =~= kept[0]);
        }
    }
}

} // verus!
