//! The message protocol between the main thread and a worker.
//!
//! Every message carries a type. The main thread sends requests typed by the
//! flavour of the worker; the worker answers with responses. Streams of
//! messages end with a special null message, so the receiving side knows
//! when a stream, a callback run or a channel is over.

use vstd::prelude::*;

verus! {

/// The flavour of a worker request.
#[derive(Clone, Copy, PartialEq, Eq, Structural, Debug)]
pub enum WorkerRequestType {
    Future,
    Stream,
    Callback,
    Channel,
}

/// A serialized request for a worker of some flavour.
#[derive(Debug)]
pub struct WorkerRequest {
    pub request_type: WorkerRequestType,
    pub request_data: Vec<u8>,
}

/// The type of a message between the main thread and a worker.
#[derive(Clone, Copy, PartialEq, Eq, Structural, Debug)]
pub enum WorkerMsgType {
    ReqFuture,
    ReqStream,
    ReqCallback,
    ReqChannel,
    Response,
}

/// The type of the requests that the main thread sends to a worker of the
/// given flavour.
pub open spec fn spec_request_message_type(flavour: WorkerRequestType) -> WorkerMsgType {
    match flavour {
        WorkerRequestType::Future => WorkerMsgType::ReqFuture,
        WorkerRequestType::Stream => WorkerMsgType::ReqStream,
        WorkerRequestType::Callback => WorkerMsgType::ReqCallback,
        WorkerRequestType::Channel => WorkerMsgType::ReqChannel,
    }
}

/// The handler that a worker runs for a message of the given type: the one
/// of the worker's flavour for a request, none for a response.
pub open spec fn spec_handler_for(msg_type: WorkerMsgType) -> Option<WorkerRequestType> {
    match msg_type {
        WorkerMsgType::ReqFuture => Some(WorkerRequestType::Future),
        WorkerMsgType::ReqStream => Some(WorkerRequestType::Stream),
        WorkerMsgType::ReqCallback => Some(WorkerRequestType::Callback),
        WorkerMsgType::ReqChannel => Some(WorkerRequestType::Channel),
        WorkerMsgType::Response => None,
    }
}

/// The type of the requests that the main thread sends to a worker of the
/// given flavour.
pub fn request_message_type(flavour: WorkerRequestType) -> (t: WorkerMsgType)
    ensures
        t == spec_request_message_type(flavour),
{
    match flavour {
        WorkerRequestType::Future => WorkerMsgType::ReqFuture,
        WorkerRequestType::Stream => WorkerMsgType::ReqStream,
        WorkerRequestType::Callback => WorkerMsgType::ReqCallback,
        WorkerRequestType::Channel => WorkerMsgType::ReqChannel,
    }
}

/// The handler that a worker runs for a message: the one of the flavour of
/// a request, none for a response, which a worker never receives.
pub fn handler_for(msg_type: WorkerMsgType) -> (h: Option<WorkerRequestType>)
    ensures
        h == spec_handler_for(msg_type),
{
    match msg_type {
        WorkerMsgType::ReqFuture => Some(WorkerRequestType::Future),
        WorkerMsgType::ReqStream => Some(WorkerRequestType::Stream),
        WorkerMsgType::ReqCallback => Some(WorkerRequestType::Callback),
        WorkerMsgType::ReqChannel => Some(WorkerRequestType::Channel),
        WorkerMsgType::Response => None,
    }
}

/// A request that the main thread sends for a flavour of worker is handled
/// by the handler of that flavour, and a response is handled by none.
pub proof fn lemma_requests_reach_their_handler(flavour: WorkerRequestType)
    ensures
        spec_handler_for(spec_request_message_type(flavour)) == Some(flavour),
        spec_handler_for(WorkerMsgType::Response) is None,
{
}

/// What the receiving side does with one incoming message of a stream or a
/// channel.
#[derive(Clone, Copy, PartialEq, Eq, Structural, Debug)]
pub enum InboxAction {
    /// Hand the message's data on to the reader.
    Deliver,
    /// The stream is over: close the reader's side.
    Close,
    /// The reader's side is closed: drop the message.
    Drop,
}

/// The receiving side of a stream or a channel of responses.
pub struct ResponseInbox {
    open: bool,
}

/// One step of an inbox: its next openness and what it does.
pub open spec fn spec_inbox_step(open: bool, is_null: bool) -> (bool, InboxAction) {
    if is_null {
        (false, InboxAction::Close)
    } else if open {
        (true, InboxAction::Deliver)
    } else {
        (false, InboxAction::Drop)
    }
}

/// What an inbox does with a sequence of messages, each given by whether it
/// is the null message.
pub open spec fn spec_inbox_run(open: bool, msgs: Seq<bool>) -> Seq<InboxAction>
    decreases msgs.len(),
{
    if msgs.len() == 0 {
        Seq::empty()
    } else {
        let (next, action) = spec_inbox_step(open, msgs[0]);
        seq![action] + spec_inbox_run(next, msgs.drop_first())
    }
}

impl View for ResponseInbox {
    type V = bool;

    /// Whether the reader's side is still open.
    closed spec fn view(&self) -> bool {
        self.open
    }
}

impl ResponseInbox {
    /// An inbox whose reader's side is open.
    pub fn new() -> (inbox: Self)
        ensures
            inbox@,
    {
        ResponseInbox { open: true }
    }

    /// Handles an incoming message: the null message closes the reader's
    /// side; any other message goes to the reader while it is open and is
    /// dropped after.
    pub fn on_message(&mut self, is_null: bool) -> (action: InboxAction)
        ensures
            (final(self)@, action) == spec_inbox_step(old(self)@, is_null),
    {
        if is_null {
            self.open = false;
            InboxAction::Close
        } else if self.open {
            InboxAction::Deliver
        } else {
            InboxAction::Drop
        }
    }
}

/// `n` messages that are not null.
pub open spec fn data_messages(n: nat) -> Seq<bool> {
    Seq::new(n, |i: int| false)
}

/// An open inbox delivers every message of a stream, in order, and closes
/// at the null message that ends it; whatever arrives after is dropped.
pub proof fn lemma_inbox_delivers_stream(n: nat, rest: Seq<bool>)
    ensures
        spec_inbox_run(true, data_messages(n) + seq![true] + rest) == Seq::new(
            n,
            |i: int| InboxAction::Deliver,
        ) + seq![InboxAction::Close] + spec_inbox_run(false, rest),
    decreases n,
{
    let msgs = data_messages(n) + seq![true] + rest;
    if n == 0 {
        assert(msgs.drop_first() =~= rest);
        assert(Seq::new(0, |i: int| InboxAction::Deliver) + seq![InboxAction::Close] =~= seq![
            InboxAction::Close,
        ]);
    } else {
        assert(msgs.drop_first() =~= data_messages((n - 1) as nat) + seq![true] + rest);
        lemma_inbox_delivers_stream((n - 1) as nat, rest);
        assert(Seq::new(n, |i: int| InboxAction::Deliver) =~= seq![InboxAction::Deliver] + Seq::new(
            (n - 1) as nat,
            |i: int| InboxAction::Deliver,
        ));
    }
}

/// A closed inbox drops every message that is not null.
pub proof fn lemma_closed_inbox_drops(n: nat)
    ensures
        spec_inbox_run(false, data_messages(n)) == Seq::new(n, |i: int| InboxAction::Drop),
    decreases n,
{
    if n > 0 {
        assert(data_messages(n).drop_first() =~= data_messages((n - 1) as nat));
        lemma_closed_inbox_drops((n - 1) as nat);
        assert(Seq::new(n, |i: int| InboxAction::Drop) =~= seq![InboxAction::Drop] + Seq::new(
            (n - 1) as nat,
            |i: int| InboxAction::Drop,
        ));
    } else {
        assert(Seq::new(0, |i: int| InboxAction::Drop) =~= Seq::<InboxAction>::empty());
    }
}

/// What a channel worker does with one message from the main thread.
#[derive(Clone, Copy, PartialEq, Eq, Structural, Debug)]
pub enum ChannelAction {
    /// The main thread dropped its sender: close the worker's receiver.
    CloseRequests,
    /// The first message carries the init data: start the worker function.
    Initialize,
    /// Forward the request to the running worker function.
    Forward,
    /// The receiver is closed: ignore the message.
    Ignore,
}

/// The worker side of a channel.
pub struct ChannelWorkerState {
    requests_open: bool,
    initialized: bool,
}

/// One step of the worker side of a channel, on a message that is null or not.
pub open spec fn spec_channel_step(
    requests_open: bool,
    initialized: bool,
    is_null: bool,
) -> ((bool, bool), ChannelAction) {
    if is_null {
        ((false, initialized), ChannelAction::CloseRequests)
    } else if !requests_open {
        ((false, initialized), ChannelAction::Ignore)
    } else if initialized {
        ((true, true), ChannelAction::Forward)
    } else {
        ((true, true), ChannelAction::Initialize)
    }
}

/// What the worker side of a channel does with a sequence of messages.
pub open spec fn spec_channel_run(
    requests_open: bool,
    initialized: bool,
    msgs: Seq<bool>,
) -> Seq<ChannelAction>
    decreases msgs.len(),
{
    if msgs.len() == 0 {
        Seq::empty()
    } else {
        let (next, action) = spec_channel_step(requests_open, initialized, msgs[0]);
        seq![action] + spec_channel_run(next.0, next.1, msgs.drop_first())
    }
}

impl View for ChannelWorkerState {
    type V = (bool, bool);

    /// Whether the receiver of requests is open, and whether the worker
    /// function has been started.
    closed spec fn view(&self) -> (bool, bool) {
        (self.requests_open, self.initialized)
    }
}

impl ChannelWorkerState {
    /// A channel that has received nothing yet.
    pub fn new() -> (state: Self)
        ensures
            state@ == (true, false),
    {
        ChannelWorkerState { requests_open: true, initialized: false }
    }

    /// Handles a message from the main thread: the null message closes the
    /// requests; while they are open, the first other message starts the
    /// worker function with its init data and every later one is forwarded
    /// to it; after they are closed, messages are ignored.
    pub fn on_message(&mut self, is_null: bool) -> (action: ChannelAction)
        ensures
            (final(self)@, action) == spec_channel_step(old(self)@.0, old(self)@.1, is_null),
    {
        if is_null {
            self.requests_open = false;
            ChannelAction::CloseRequests
        } else if !self.requests_open {
            ChannelAction::Ignore
        } else if self.initialized {
            ChannelAction::Forward
        } else {
            self.initialized = true;
            ChannelAction::Initialize
        }
    }
}

/// A started channel forwards every request while its requests are open.
proof fn lemma_started_channel_forwards(n: nat, rest: Seq<bool>)
    ensures
        spec_channel_run(true, true, data_messages(n) + rest) == Seq::new(
            n,
            |i: int| ChannelAction::Forward,
        ) + spec_channel_run(true, true, rest),
    decreases n,
{
    let msgs = data_messages(n) + rest;
    if n == 0 {
        assert(msgs =~= rest);
        assert(Seq::new(0, |i: int| ChannelAction::Forward) + spec_channel_run(true, true, rest)
            =~= spec_channel_run(true, true, rest));
    } else {
        assert(msgs.drop_first() =~= data_messages((n - 1) as nat) + rest);
        lemma_started_channel_forwards((n - 1) as nat, rest);
        assert(Seq::new(n, |i: int| ChannelAction::Forward) =~= seq![ChannelAction::Forward]
            + Seq::new((n - 1) as nat, |i: int| ChannelAction::Forward));
    }
}

/// The main thread sends the init data first, then the requests, then the
/// null message when its sender is dropped. The worker starts its function
/// with the first, forwards every request, and closes its receiver at the
/// last.
pub proof fn lemma_channel_session(n: nat)
    ensures
        spec_channel_run(true, false, seq![false] + data_messages(n) + seq![true]) == seq![
            ChannelAction::Initialize,
        ] + Seq::new(n, |i: int| ChannelAction::Forward) + seq![ChannelAction::CloseRequests],
{
    let msgs = seq![false] + data_messages(n) + seq![true];
    assert(msgs.drop_first() =~= data_messages(n) + seq![true]);
    lemma_started_channel_forwards(n, seq![true]);
    assert(seq![true].drop_first() =~= Seq::<bool>::empty());
    reveal_with_fuel(spec_channel_run, 2);
    assert(spec_channel_run(true, true, seq![true]) =~= seq![ChannelAction::CloseRequests]);
}


/// Each flavour's requests carry the message type named after it, so no two
/// flavours share a message type, and none is a response.
pub proof fn lemma_request_message_types(a: WorkerRequestType, b: WorkerRequestType)
    ensures
        (a == WorkerRequestType::Future) == (spec_request_message_type(a) == WorkerMsgType::ReqFuture),
        (a == WorkerRequestType::Stream) == (spec_request_message_type(a) == WorkerMsgType::ReqStream),
        (a == WorkerRequestType::Callback) == (spec_request_message_type(a) == WorkerMsgType::ReqCallback),
        (a == WorkerRequestType::Channel) == (spec_request_message_type(a) == WorkerMsgType::ReqChannel),
        spec_request_message_type(a) != WorkerMsgType::Response,
        a != b ==> spec_request_message_type(a) != spec_request_message_type(b),
{
}

/// The null message closes an inbox, open or not.
pub proof fn lemma_null_closes_inbox(open: bool)
    ensures
        spec_inbox_step(open, true) == (false, InboxAction::Close),
{
}

/// The null message closes the requests of a channel in any state, and
/// leaves whether the worker function was started as it was.
pub proof fn lemma_null_closes_channel(requests_open: bool, initialized: bool)
    ensures
        spec_channel_step(requests_open, initialized, true) == ((false, initialized), ChannelAction::CloseRequests),
{
}

/// Once its requests are closed, a channel ignores every later message that
/// is not null.
pub proof fn lemma_closed_channel_ignores(initialized: bool, n: nat)
    ensures
        spec_channel_run(false, initialized, data_messages(n)) == Seq::new(n, |i: int| ChannelAction::Ignore),
    decreases n,
{
    if n > 0 {
        assert(data_messages(n).drop_first() =~= data_messages((n - 1) as nat));
        lemma_closed_channel_ignores(initialized, (n - 1) as nat);
        assert(Seq::new(n, |i: int| ChannelAction::Ignore) =~= seq![ChannelAction::Ignore] + Seq::new(
            (n - 1) as nat,
            |i: int| ChannelAction::Ignore,
        ));
    } else {
        assert(Seq::new(0, |i: int| ChannelAction::Ignore) =~= Seq::<ChannelAction>::empty());
    }
}
} // verus!
