use leptos_workers::protocol::{
    handler_for, request_message_type, ChannelAction, ChannelWorkerState, InboxAction, ResponseInbox,
    WorkerMsgType, WorkerRequest, WorkerRequestType,
};

#[test]
fn requests_reach_the_handler_of_their_flavour() {
    for f in [WorkerRequestType::Future, WorkerRequestType::Stream, WorkerRequestType::Callback, WorkerRequestType::Channel] {
        assert_eq!(handler_for(request_message_type(f)), Some(f));
    }
    assert_eq!(request_message_type(WorkerRequestType::Future), WorkerMsgType::ReqFuture);
    assert_eq!(request_message_type(WorkerRequestType::Stream), WorkerMsgType::ReqStream);
    assert_eq!(request_message_type(WorkerRequestType::Callback), WorkerMsgType::ReqCallback);
    assert_eq!(request_message_type(WorkerRequestType::Channel), WorkerMsgType::ReqChannel);
}

#[test]
fn responses_have_no_handler_on_the_worker() {
    assert_eq!(handler_for(WorkerMsgType::Response), None);
}

#[test]
fn inbox_delivers_a_stream_then_closes() {
    let mut inbox = ResponseInbox::new();
    assert_eq!(inbox.on_message(false), InboxAction::Deliver);
    assert_eq!(inbox.on_message(false), InboxAction::Deliver);
    assert_eq!(inbox.on_message(true), InboxAction::Close);
    assert_eq!(inbox.on_message(false), InboxAction::Drop);
    assert_eq!(inbox.on_message(true), InboxAction::Close);
}

#[test]
fn empty_stream_closes_at_once() {
    let mut inbox = ResponseInbox::new();
    assert_eq!(inbox.on_message(true), InboxAction::Close);
}

#[test]
fn channel_session_initializes_forwards_and_closes() {
    let mut state = ChannelWorkerState::new();
    assert_eq!(state.on_message(false), ChannelAction::Initialize);
    assert_eq!(state.on_message(false), ChannelAction::Forward);
    assert_eq!(state.on_message(false), ChannelAction::Forward);
    assert_eq!(state.on_message(true), ChannelAction::CloseRequests);
    assert_eq!(state.on_message(false), ChannelAction::Ignore);
}

#[test]
fn channel_closed_before_init_never_initializes() {
    let mut state = ChannelWorkerState::new();
    assert_eq!(state.on_message(true), ChannelAction::CloseRequests);
    assert_eq!(state.on_message(false), ChannelAction::Ignore);
}

#[test]
fn worker_request_carries_its_data() {
    let r = WorkerRequest { request_type: WorkerRequestType::Stream, request_data: vec![1, 2, 3] };
    assert_eq!(r.request_type, WorkerRequestType::Stream);
    assert_eq!(r.request_data, vec![1, 2, 3]);
}
