//! What a connection session decides: how it answers each frame that its
//! client sends, what it sends for each event that the hub relays, and when
//! it ends. The session's tasks do the reading, the storing and the sending;
//! every choice between them is made here.

use crate::codec::{decode_client_frame, parse_client_frame, ClientFrame, ClientFrameView, DecodeError};
use crate::feed::{find_entry, FeedStore, FeedView, Op};
use crate::frames::{
    all_feed_bytes, all_fit, created_bytes, deleted_bytes, encode_all_feed, encode_created,
    encode_deleted, lemma_all_feed_round_trip, lemma_created_round_trip, parse_server_frame,
    wires, ServerFrameView, WireEntryView,
};
use crate::msg::{MsgType, MsgView};
use crate::upload::upload_verdict;
use vstd::prelude::*;

verus! {

/// How many events the hub keeps for a subscriber that has fallen behind.
/// Older ones are dropped for it; a publisher never waits.
pub const HUB_SLOTS: usize = 128;

/// A change of the feed, told to every session. It names the entry and does
/// not carry it.
#[derive(Clone, Copy, Debug, PartialEq, Eq, Structural)]
pub enum BroadcastEvent {
    /// The entry with this identity is there to show.
    Create(i32),
    /// The entry with this identity is gone.
    Delete(i32),
}

/// What a session does after it has read a frame.
#[derive(Debug)]
pub enum Reaction {
    /// Nothing: the frame asked for nothing, or what it asked was turned
    /// away. The session goes on.
    Nothing,
    /// Publish the event to the hub.
    Publish(BroadcastEvent),
    /// Store the bytes under the name, then settle the upload with the feed.
    Store { name: String, data: Vec<u8> },
}

/// A reaction as plain values.
pub enum ReactionView {
    Nothing,
    Publish(BroadcastEvent),
    Store { name: Seq<char>, data: Seq<u8> },
}

impl View for Reaction {
    type V = ReactionView;

    open spec fn view(&self) -> ReactionView {
        match self {
            Reaction::Nothing => ReactionView::Nothing,
            Reaction::Publish(event) => ReactionView::Publish(*event),
            Reaction::Store { name, data } => ReactionView::Store { name: name@, data: data@ },
        }
    }
}

/// Whether `reaction` and the feed `after` are the answer to `frame` of a
/// feed that stood as `before`.
///
/// A request for the whole feed and a frame with an unknown opcode ask for
/// nothing. A request for one entry has its identity announced again. A text
/// becomes an entry and is announced, unless the feed turns it away. A file
/// is handed on to be stored if the feed, its size and its name allow it; the
/// feed changes only when the upload is settled.
pub open spec fn reacts(
    before: FeedView,
    frame: ClientFrameView,
    reaction: ReactionView,
    after: FeedView,
) -> bool {
    match frame {
        ClientFrameView::QueryAll => reaction == ReactionView::Nothing && after == before,
        ClientFrameView::Unknown { .. } => reaction == ReactionView::Nothing && after == before,
        ClientFrameView::QuerySingle { id } => reaction == ReactionView::Publish(
            BroadcastEvent::Create(id),
        ) && after == before,
        ClientFrameView::SendText { text } => if before.takes(text) {
            &&& reaction == ReactionView::Publish(BroadcastEvent::Create(before.next_id as i32))
            &&& exists|t: u128|
                after == #[trigger] before.step(
                    Op::Post { msg_type: MsgType::Text, text, create_time: t },
                )
        } else {
            reaction == ReactionView::Nothing && after == before
        },
        ClientFrameView::SendFile { name, data } => after == before && match upload_verdict(
            before,
            name,
            data.len() as int,
        ) {
            Ok(_) => reaction == (ReactionView::Store { name, data }),
            Err(_) => reaction == ReactionView::Nothing,
        },
    }
}

/// The frame that a session sends for an event: for an entry to show, its
/// announcement as the feed holds it now; for a removal, the identity.
pub open spec fn relay_bytes(feed: FeedView, event: BroadcastEvent) -> Seq<u8> {
    match event {
        BroadcastEvent::Create(id) => created_bytes(wire_of(find_entry(feed.entries, id))),
        BroadcastEvent::Delete(id) => deleted_bytes(id),
    }
}

/// The travelling part of an entry that may be missing.
pub open spec fn wire_of(entry: Option<MsgView>) -> Option<WireEntryView> {
    match entry {
        Some(e) => Some(e.wire()),
        None => None,
    }
}

/// Answers one frame of a client.
pub fn dispatch(store: &mut FeedStore, frame: ClientFrame) -> (reaction: Reaction)
    requires
        old(store).wf(),
    ensures
        final(store).wf(),
        reacts(old(store)@, frame@, reaction@, final(store)@),
{
    match frame {
        ClientFrame::QueryAll => Reaction::Nothing,
        ClientFrame::Unknown { opcode } => Reaction::Nothing,
        ClientFrame::QuerySingle { id } => Reaction::Publish(BroadcastEvent::Create(id)),
        ClientFrame::SendText { text } => match store.append(MsgType::Text, text) {
            Some(m) => Reaction::Publish(BroadcastEvent::Create(m.id)),
            None => Reaction::Nothing,
        },
        ClientFrame::SendFile { name, data } => match store.admit_upload(
            name.as_str(),
            data.len(),
        ) {
            Ok(_) => Reaction::Store { name, data },
            Err(_) => Reaction::Nothing,
        },
    }
}

/// Reads the bytes of one message and answers the frame they hold. Bytes
/// that are no frame are refused and leave the feed as it was; the session
/// that sent them is to be closed.
pub fn on_message(store: &mut FeedStore, data: Vec<u8>) -> (r: Result<Reaction, DecodeError>)
    requires
        old(store).wf(),
    ensures
        final(store).wf(),
        match parse_client_frame(data@) {
            Ok(frame) => r matches Ok(reaction) && reacts(
                old(store)@,
                frame,
                reaction@,
                final(store)@,
            ),
            Err(e) => r matches Err(x) && x == e && final(store)@ == old(store)@,
        },
{
    match decode_client_frame(data) {
        Ok(frame) => Ok(dispatch(store, frame)),
        Err(e) => Err(e),
    }
}

/// The frame to send for an event that the hub relayed.
pub fn relay_frame(store: &FeedStore, event: BroadcastEvent) -> (frame: Vec<u8>)
    requires
        store.wf(),
    ensures
        frame@ == relay_bytes(store@, event),
{
    match event {
        BroadcastEvent::Create(id) => {
            let found = store.find_by_id(id);
            proof {
                lemma_found_entry_is_member(store@.entries, id);
            }
            match &found {
                Some(m) => encode_created(Some(m)),
                None => encode_created(None),
            }
        },
        BroadcastEvent::Delete(id) => encode_deleted(id),
    }
}

/// The frame that opens a session: the feed as it stands.
pub fn greeting(store: &FeedStore) -> (frame: Vec<u8>)
    requires
        store.wf(),
    ensures
        frame@ == all_feed_bytes(wires(store@.entries)),
{
    let all = store.snapshot();
    assert forall|i: int| 0 <= i < all@.len() implies (#[trigger] all@[i]).fits() by {
        assert(all@[i]@ == store@.entries[i]);
    }
    encode_all_feed(&all)
}

/// What the stream of a client's messages brought next.
#[derive(Debug)]
pub enum Inbound {
    /// A binary message: the bytes of one frame.
    Binary(Vec<u8>),
    /// A message of another kind. The protocol has no use for it.
    Other,
    /// The stream has ended or failed.
    Ended,
}

/// How the task that reads a client's messages goes on.
#[derive(Debug)]
pub enum DecoderStep {
    /// Do what the reaction says, then read on.
    Go(Reaction),
    /// Stop reading: the stream is over, or it brought bytes that are no
    /// frame, for the reason given.
    Stop(Option<DecodeError>),
}

/// Decides how the reading task goes on after what the stream brought. Bytes
/// that are no frame end the session; a message that is not binary is passed
/// over.
pub fn decoder_step(store: &mut FeedStore, inbound: Inbound) -> (step: DecoderStep)
    requires
        old(store).wf(),
    ensures
        final(store).wf(),
        match inbound {
            Inbound::Binary(data) => match parse_client_frame(data@) {
                Ok(frame) => step matches DecoderStep::Go(reaction) && reacts(
                    old(store)@,
                    frame,
                    reaction@,
                    final(store)@,
                ),
                Err(e) => step matches DecoderStep::Stop(Some(x)) && x == e && final(store)@
                    == old(store)@,
            },
            Inbound::Other => step matches DecoderStep::Go(Reaction::Nothing) && final(store)@
                == old(store)@,
            Inbound::Ended => step matches DecoderStep::Stop(None) && final(store)@ == old(
                store,
            )@,
        },
{
    match inbound {
        Inbound::Binary(data) => match on_message(store, data) {
            Ok(reaction) => DecoderStep::Go(reaction),
            Err(e) => DecoderStep::Stop(Some(e)),
        },
        Inbound::Other => DecoderStep::Go(Reaction::Nothing),
        Inbound::Ended => DecoderStep::Stop(None),
    }
}

/// What a session's subscription to the hub brought next.
#[derive(Clone, Copy, Debug, PartialEq, Eq, Structural)]
pub enum HubNews {
    /// The next event.
    Event(BroadcastEvent),
    /// The session fell behind and this many events were dropped for it.
    Lagged(u64),
    /// The hub is gone.
    Closed,
}

/// How the task that relays the hub's events goes on.
#[derive(Debug)]
pub enum RelayStep {
    /// Send the frame, then wait for the next event.
    Send(Vec<u8>),
    /// Wait for the next event.
    Skip,
    /// Stop relaying.
    Stop,
}

/// Decides how the relaying task goes on after what the subscription
/// brought. A session that fell behind sees a gap in the events and goes on;
/// it is not stopped and it stops nobody.
pub fn relay_step(store: &FeedStore, news: HubNews) -> (step: RelayStep)
    requires
        store.wf(),
    ensures
        match news {
            HubNews::Event(event) => step matches RelayStep::Send(frame) && frame@
                == relay_bytes(store@, event),
            HubNews::Lagged(_) => step is Skip,
            HubNews::Closed => step is Stop,
        },
{
    match news {
        HubNews::Event(event) => RelayStep::Send(relay_frame(store, event)),
        HubNews::Lagged(_) => RelayStep::Skip,
        HubNews::Closed => RelayStep::Stop,
    }
}

/// An entry that was found stands in the run and has the identity that was
/// asked for; where none was found, no entry of the run has it.
pub proof fn lemma_found_entry_is_member(es: Seq<MsgView>, id: i32)
    ensures
        match find_entry(es, id) {
            Some(e) => e.id == id && exists|i: int| 0 <= i < es.len() && #[trigger] es[i] == e,
            None => forall|i: int| 0 <= i < es.len() ==> (#[trigger] es[i]).id != id,
        },
    decreases es.len(),
{
    if es.len() == 0 {
    } else if es[0].id == id {
        assert(es[0] == es[0]);
    } else {
        let tail = es.drop_first();
        lemma_found_entry_is_member(tail, id);
        match find_entry(tail, id) {
            Some(e) => {
                let i = choose|i: int| 0 <= i < tail.len() && #[trigger] tail[i] == e;
                assert(es[i + 1] == e);
            },
            None => {
                assert forall|i: int| 0 <= i < es.len() implies (#[trigger] es[i]).id != id by {
                    if i > 0 {
                        assert(tail[i - 1] == es[i]);
                    }
                }
            },
        }
    }
}

/// A session that decodes what another session relays for a new entry finds
/// the entry's identity, kind and text as the feed holds them.
pub proof fn lemma_relay_round_trip(feed: FeedView, event: BroadcastEvent)
    requires
        feed.wf(),
    ensures
        parse_server_frame(relay_bytes(feed, event)) == Ok::<ServerFrameView, DecodeError>(
            match event {
                BroadcastEvent::Create(id) => ServerFrameView::Created(
                    wire_of(find_entry(feed.entries, id)),
                ),
                BroadcastEvent::Delete(id) => ServerFrameView::Deleted(id),
            },
        ),
{
    match event {
        BroadcastEvent::Create(id) => {
            lemma_found_entry_is_member(feed.entries, id);
            lemma_created_round_trip(wire_of(find_entry(feed.entries, id)));
        },
        BroadcastEvent::Delete(id) => {
            crate::frames::lemma_deleted_round_trip(id);
        },
    }
}

/// A session that decodes the opening frame finds every entry of the feed, in
/// the feed's order.
pub proof fn lemma_greeting_round_trip(feed: FeedView)
    requires
        feed.wf(),
    ensures
        parse_server_frame(all_feed_bytes(wires(feed.entries))) == Ok::<
            ServerFrameView,
            DecodeError,
        >(ServerFrameView::AllFeed(wires(feed.entries))),
{
    assert(all_fit(wires(feed.entries))) by {
        assert forall|i: int| 0 <= i < wires(feed.entries).len() implies crate::msg::fits_wire(
            (#[trigger] wires(feed.entries)[i]).text,
        ) by {
            assert(wires(feed.entries)[i] == feed.entries[i].wire());
        }
    }
    lemma_all_feed_round_trip(wires(feed.entries));
}

/// A text or a file sent to a full feed has no effect at all: the feed stays
/// as it was, its counter too, and no event is published.
pub proof fn lemma_full_feed_reacts_with_nothing(
    before: FeedView,
    frame: ClientFrameView,
    reaction: ReactionView,
    after: FeedView,
)
    requires
        before.is_full(),
        frame is SendText || frame is SendFile,
        reacts(before, frame, reaction, after),
    ensures
        reaction == ReactionView::Nothing,
        after == before,
{
}

/// Where a session stands in its life.
#[derive(Clone, Copy, Debug, PartialEq, Eq, Structural)]
pub enum SessionState {
    /// The connection is accepted; nothing was sent yet.
    Open,
    /// The opening frame is sent and both tasks run.
    Running,
    /// One task has ended and the other is being stopped.
    Closing,
    /// Both tasks are gone and the subscription is given back.
    Closed,
}

/// What happens to a session.
#[derive(Clone, Copy, Debug, PartialEq, Eq, Structural)]
pub enum SessionEvent {
    /// The connection was upgraded to a stream of frames.
    Upgraded,
    /// The task that reads the client's frames has ended.
    DecoderEnded,
    /// The task that relays the hub's events has ended.
    RelayEnded,
    /// The stopped task is gone and what the session held is given back.
    Released,
}

/// What the session's owner does next.
#[derive(Clone, Copy, Debug, PartialEq, Eq, Structural)]
pub enum SessionAction {
    /// Send the opening frame and start both tasks.
    Start,
    /// Stop the task that relays events.
    AbortRelay,
    /// Stop the task that reads frames.
    AbortDecoder,
    /// Nothing.
    Nothing,
}

/// The state that follows `state` on `event`, and what is to be done. An
/// event that does not belong to the state changes nothing.
pub open spec fn spec_advance(state: SessionState, event: SessionEvent) -> (
    SessionState,
    SessionAction,
) {
    match (state, event) {
        (SessionState::Open, SessionEvent::Upgraded) => (
            SessionState::Running,
            SessionAction::Start,
        ),
        (SessionState::Running, SessionEvent::DecoderEnded) => (
            SessionState::Closing,
            SessionAction::AbortRelay,
        ),
        (SessionState::Running, SessionEvent::RelayEnded) => (
            SessionState::Closing,
            SessionAction::AbortDecoder,
        ),
        (SessionState::Closing, SessionEvent::Released) => (
            SessionState::Closed,
            SessionAction::Nothing,
        ),
        _ => (state, SessionAction::Nothing),
    }
}

/// Moves a session on by one event.
pub fn advance(state: SessionState, event: SessionEvent) -> (next: (SessionState, SessionAction))
    ensures
        next == spec_advance(state, event),
{
    match (state, event) {
        (SessionState::Open, SessionEvent::Upgraded) => (
            SessionState::Running,
            SessionAction::Start,
        ),
        (SessionState::Running, SessionEvent::DecoderEnded) => (
            SessionState::Closing,
            SessionAction::AbortRelay,
        ),
        (SessionState::Running, SessionEvent::RelayEnded) => (
            SessionState::Closing,
            SessionAction::AbortDecoder,
        ),
        (SessionState::Closing, SessionEvent::Released) => (
            SessionState::Closed,
            SessionAction::Nothing,
        ),
        _ => (state, SessionAction::Nothing),
    }
}

/// How far a session has come: it never goes back.
pub open spec fn stage(state: SessionState) -> int {
    match state {
        SessionState::Open => 0,
        SessionState::Running => 1,
        SessionState::Closing => 2,
        SessionState::Closed => 3,
    }
}

/// When either task of a running session ends, the session starts to close
/// and the other task is stopped; once closed, a session stays closed and
/// asks for nothing; and no event takes a session back.
pub proof fn lemma_session_only_moves_on(state: SessionState, event: SessionEvent)
    ensures
        stage(spec_advance(state, event).0) >= stage(state),
        state == SessionState::Running && event == SessionEvent::DecoderEnded ==> spec_advance(
            state,
            event,
        ) == (SessionState::Closing, SessionAction::AbortRelay),
        state == SessionState::Running && event == SessionEvent::RelayEnded ==> spec_advance(
            state,
            event,
        ) == (SessionState::Closing, SessionAction::AbortDecoder),
        state == SessionState::Closed ==> spec_advance(state, event) == (
            SessionState::Closed,
            SessionAction::Nothing,
        ),
{
}

} // verus!
