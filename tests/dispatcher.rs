use proxy_wasm::dispatcher::{
    action_or_continue, flag_or_true, grpc_close_call, grpc_message_call, DispatchError,
    Dispatcher, HandlerCall,
};
use proxy_wasm::traits::{HttpContext, NewRootContext, NewStreamContext, RootContext, StreamContext};
use proxy_wasm::types::{Action, ContextType, PeerType};
use std::cell::RefCell;
use std::rc::Rc;

type Log = Rc<RefCell<Vec<String>>>;

struct TestRoot {
    log: Log,
    declared: Option<ContextType>,
    builds_streams: bool,
}

struct TestHttp {
    id: u32,
    log: Log,
}

struct TestStream;

impl RootContext for TestRoot {
    fn create_http_context(&self, context_id: u32) -> Option<Box<dyn HttpContext>> {
        Some(Box::new(TestHttp { id: context_id, log: self.log.clone() }))
    }

    fn create_stream_context(&self, _context_id: u32) -> Option<Box<dyn StreamContext>> {
        if self.builds_streams {
            Some(Box::new(TestStream))
        } else {
            None
        }
    }

    fn get_type(&self) -> Option<ContextType> {
        self.declared
    }
}

impl HttpContext for TestHttp {
    fn on_http_request_headers(&mut self, num_headers: usize, _end_of_stream: bool) -> Action {
        self.log.borrow_mut().push(format!("{} headers {}", self.id, num_headers));
        Action::Pause
    }

    fn on_http_call_response(
        &mut self,
        token_id: u32,
        num_headers: usize,
        body_size: usize,
        num_trailers: usize,
    ) {
        self.log.borrow_mut().push(format!(
            "{} response {} {} {} {}",
            self.id, token_id, num_headers, body_size, num_trailers
        ));
    }
}

impl StreamContext for TestStream {
    fn on_new_connection(&mut self) -> Action {
        Action::Pause
    }
}

struct RootFactory {
    log: Log,
}

impl NewRootContext for RootFactory {
    fn create(&self, _context_id: u32) -> Box<dyn RootContext> {
        Box::new(TestRoot { log: self.log.clone(), declared: None, builds_streams: true })
    }
}

struct StreamFactory;

impl NewStreamContext for StreamFactory {
    fn create(&self, _context_id: u32, _root_context_id: u32) -> Box<dyn StreamContext> {
        Box::new(TestStream)
    }
}

fn with_root(log: &Log) -> Dispatcher {
    let mut d = Dispatcher::new();
    d.set_root_context(Box::new(RootFactory { log: log.clone() }));
    assert_eq!(d.on_create_context(1, 0), Ok(()));
    d
}

#[test]
fn root_then_http_request_headers_returns_declared_action() {
    let log: Log = Rc::new(RefCell::new(Vec::new()));
    let mut d = with_root(&log);
    assert_eq!(d.on_vm_start(1, 0), Ok(true));
    assert_eq!(d.on_configure(1, 0), Ok(true));
    assert_eq!(d.create_http_context(2, 1), Ok(()));
    assert_eq!(d.on_http_request_headers(2, 3, false), Ok(Action::Pause));
    assert_eq!(d.active_id(), 2);
    assert_eq!(*log.borrow(), vec!["2 headers 3".to_string()]);
}

#[test]
fn http_call_token_resolves_to_issuing_instance_once() {
    let log: Log = Rc::new(RefCell::new(Vec::new()));
    let mut d = with_root(&log);
    assert_eq!(d.create_http_context(2, 1), Ok(()));
    assert_eq!(d.create_http_context(3, 1), Ok(()));
    assert_eq!(d.on_http_request_headers(2, 1, false), Ok(Action::Pause));
    // the out-call issued during that handler is correlated under the cursor
    assert_eq!(d.register_callout(77), Ok(()));
    assert_eq!(d.http_call_owner(77), Some(2));
    assert_eq!(d.on_http_request_headers(3, 1, false), Ok(Action::Pause));
    assert_eq!(d.on_http_call_response(77, 2, 128, 0), Ok(()));
    assert_eq!(d.active_id(), 2);
    assert_eq!(log.borrow().last().unwrap(), "2 response 77 2 128 0");
    assert_eq!(d.http_call_owner(77), None);
    assert_eq!(d.on_http_call_response(77, 2, 128, 0), Err(DispatchError::UnknownToken));
}

#[test]
fn deleting_twice_fails_with_unknown_id() {
    let log: Log = Rc::new(RefCell::new(Vec::new()));
    let mut d = with_root(&log);
    assert_eq!(d.create_stream_context(5, 1), Ok(()));
    assert_eq!(d.on_delete(5), Ok(()));
    assert_eq!(d.on_delete(5), Err(DispatchError::UnknownId));
}

#[test]
fn duplicate_ids_are_rejected_in_any_variant() {
    let log: Log = Rc::new(RefCell::new(Vec::new()));
    let mut d = with_root(&log);
    assert_eq!(d.create_root_context(1), Err(DispatchError::DuplicateId));
    assert_eq!(d.create_http_context(2, 1), Ok(()));
    assert_eq!(d.create_stream_context(2, 1), Err(DispatchError::DuplicateId));
    assert_eq!(d.create_root_context(2), Err(DispatchError::DuplicateId));
    // the HTTP instance under 2 is still the one that answers
    assert_eq!(d.on_http_request_headers(2, 0, true), Ok(Action::Pause));
    assert_eq!(d.on_new_connection(2), Err(DispatchError::UnknownContextId));
}

#[test]
fn unknown_parent_when_parent_is_not_a_live_root() {
    let log: Log = Rc::new(RefCell::new(Vec::new()));
    let mut d = with_root(&log);
    assert_eq!(d.create_http_context(2, 9), Err(DispatchError::UnknownParent));
    assert_eq!(d.create_http_context(2, 1), Ok(()));
    assert_eq!(d.create_stream_context(3, 2), Err(DispatchError::UnknownParent));
    assert_eq!(d.on_delete(1), Ok(()));
    assert_eq!(d.create_stream_context(3, 1), Err(DispatchError::UnknownParent));
}

#[test]
fn creation_without_factory_follows_root_declaration() {
    let log: Log = Rc::new(RefCell::new(Vec::new()));
    let mut d = with_root(&log);
    assert_eq!(d.on_create_context(4, 1), Err(DispatchError::AmbiguousContextType));
    assert_eq!(d.on_create_context(4, 8), Err(DispatchError::UnknownParent));
    d.set_stream_context(Box::new(StreamFactory));
    assert_eq!(d.on_create_context(4, 1), Ok(()));
    assert_eq!(d.on_new_connection(4), Ok(Action::Pause));
    assert_eq!(d.on_downstream_data(4, 10, false), Ok(Action::Continue));
    assert_eq!(d.on_upstream_close(4, PeerType::Remote), Ok(()));
}

#[test]
fn root_may_decline_a_child() {
    let log: Log = Rc::new(RefCell::new(Vec::new()));
    let mut d = Dispatcher::new();
    assert_eq!(d.create_root_context(1), Ok(()));
    // a root with default handlers builds no child
    assert_eq!(d.create_stream_context(2, 1), Err(DispatchError::FactoryDeclined));
    assert_eq!(d.create_http_context(2, 1), Err(DispatchError::FactoryDeclined));
    assert_eq!(d.on_done(1), Ok(true));
    assert_eq!(d.on_tick(1), Ok(()));
    assert!(log.borrow().is_empty());
}

#[test]
fn grpc_stream_token_survives_messages_until_close() {
    let log: Log = Rc::new(RefCell::new(Vec::new()));
    let mut d = with_root(&log);
    assert_eq!(d.create_http_context(2, 1), Ok(()));
    assert_eq!(d.on_http_request_headers(2, 0, false), Ok(Action::Pause));
    assert_eq!(d.register_grpc_stream(5), Ok(()));
    assert_eq!(d.register_grpc_stream(5), Err(DispatchError::DuplicateToken));
    assert_eq!(d.on_tick(1), Ok(()));
    assert_eq!(d.on_grpc_receive_initial_metadata(5, 3), Ok(()));
    assert_eq!(d.active_id(), 2);
    assert_eq!(d.on_grpc_receive(5, 10), Ok(()));
    assert_eq!(d.on_grpc_receive(5, 10), Ok(()));
    assert_eq!(d.on_grpc_receive_trailing_metadata(5, 1), Ok(()));
    assert_eq!(d.grpc_stream_owner(5), Some(2));
    assert_eq!(d.on_grpc_close(5, 0), Ok(()));
    assert_eq!(d.grpc_stream_owner(5), None);
    assert_eq!(d.on_grpc_close(5, 0), Err(DispatchError::UnknownToken));
    assert_eq!(d.on_grpc_receive(5, 1), Err(DispatchError::UnknownToken));
}

#[test]
fn grpc_call_token_is_consumed_by_first_completion() {
    let log: Log = Rc::new(RefCell::new(Vec::new()));
    let mut d = with_root(&log);
    assert_eq!(d.on_tick(1), Ok(()));
    assert_eq!(d.register_grpc_callout(8), Ok(()));
    assert_eq!(d.grpc_owner(8), Some(1));
    assert_eq!(d.on_grpc_receive(8, 4), Ok(()));
    assert_eq!(d.on_grpc_receive(8, 4), Err(DispatchError::UnknownToken));
    assert_eq!(d.register_grpc_callout(9), Ok(()));
    assert_eq!(d.on_grpc_close(9, 14), Ok(()));
    assert_eq!(d.on_grpc_close(9, 14), Err(DispatchError::UnknownToken));
}

#[test]
fn completion_for_deleted_instance_fails_and_consumes_token() {
    let log: Log = Rc::new(RefCell::new(Vec::new()));
    let mut d = with_root(&log);
    assert_eq!(d.create_http_context(2, 1), Ok(()));
    assert_eq!(d.on_log(2), Ok(()));
    assert_eq!(d.register_callout(3), Ok(()));
    assert_eq!(d.on_delete(2), Ok(()));
    assert_eq!(d.on_http_call_response(3, 0, 0, 0), Err(DispatchError::UnknownContextId));
    assert_eq!(d.on_http_call_response(3, 0, 0, 0), Err(DispatchError::UnknownToken));
}

#[test]
fn events_for_unknown_ids_fail_without_moving_cursor() {
    let mut d = Dispatcher::new();
    assert_eq!(d.on_vm_start(1, 0), Err(DispatchError::UnknownContextId));
    assert_eq!(d.on_http_request_body(1, 0, true), Err(DispatchError::UnknownContextId));
    assert_eq!(d.on_foreign_function(1, 2, 3), Err(DispatchError::UnknownContextId));
    assert_eq!(d.on_grpc_receive_initial_metadata(1, 0), Err(DispatchError::UnknownToken));
    assert_eq!(d.active_id(), 0);
}

#[test]
fn host_sees_safe_defaults_on_failure() {
    assert_eq!(action_or_continue(Err(DispatchError::UnknownContextId)), Action::Continue);
    assert_eq!(action_or_continue(Ok(Action::Pause)), Action::Pause);
    assert!(flag_or_true(Err(DispatchError::UnknownContextId)));
    assert!(!flag_or_true(Ok(false)));
}

#[test]
fn adopting_a_built_child_registers_it() {
    let mut d = Dispatcher::new();
    assert_eq!(d.create_root_context(1), Ok(()));
    assert_eq!(d.adopt_stream(2, None), Err(DispatchError::FactoryDeclined));
    assert!(!d.is_live(2));
    assert_eq!(d.adopt_stream(2, Some(Box::new(TestStream))), Ok(()));
    assert!(d.is_live(2));
    assert_eq!(d.adopt_stream(2, Some(Box::new(TestStream))), Err(DispatchError::DuplicateId));
    assert_eq!(d.on_new_connection(2), Ok(Action::Pause));
}

#[test]
fn declared_child_type_decides_the_variant() {
    let log: Log = Rc::new(RefCell::new(Vec::new()));
    let mut d = with_root(&log);
    assert_eq!(d.create_declared_context(2, 1, None), Err(DispatchError::AmbiguousContextType));
    assert_eq!(d.create_declared_context(2, 9, None), Err(DispatchError::UnknownParent));
    assert_eq!(d.create_declared_context(2, 1, Some(ContextType::HttpContext)), Ok(()));
    assert_eq!(d.create_declared_context(2, 1, None), Err(DispatchError::DuplicateId));
    assert_eq!(d.create_declared_context(3, 1, Some(ContextType::StreamContext)), Ok(()));
    assert_eq!(d.on_http_request_headers(2, 4, true), Ok(Action::Pause));
    assert_eq!(d.on_new_connection(3), Ok(Action::Pause));
}

#[test]
fn dispatcher_records_each_handler_call() {
    let log: Log = Rc::new(RefCell::new(Vec::new()));
    let mut d = with_root(&log);
    assert_eq!(d.last_handler_call(), None);
    assert_eq!(d.create_http_context(2, 1), Ok(()));
    assert_eq!(d.on_http_request_headers(2, 3, false), Ok(Action::Pause));
    assert_eq!(
        d.last_handler_call(),
        Some(HandlerCall::RequestHeaders { num_headers: 3, end_of_stream: false })
    );
    assert_eq!(d.on_http_request_body(9, 1, true), Err(DispatchError::UnknownContextId));
    assert_eq!(
        d.last_handler_call(),
        Some(HandlerCall::RequestHeaders { num_headers: 3, end_of_stream: false })
    );
    assert_eq!(d.register_grpc_callout(4), Ok(()));
    assert_eq!(d.on_grpc_receive(4, 64), Ok(()));
    assert_eq!(
        d.last_handler_call(),
        Some(HandlerCall::GrpcCallResponse { token: 4, status_code: 0, response_size: 64 })
    );
    assert_eq!(d.register_grpc_stream(5), Ok(()));
    assert_eq!(d.on_grpc_receive(5, 8), Ok(()));
    assert_eq!(
        d.last_handler_call(),
        Some(HandlerCall::GrpcStreamMessage { token: 5, message_size: 8 })
    );
    assert_eq!(d.on_grpc_close(5, 2), Ok(()));
    assert_eq!(
        d.last_handler_call(),
        Some(HandlerCall::GrpcStreamClose { token: 5, status_code: 2 })
    );
}

#[test]
fn grpc_calls_pass_zero_for_the_missing_argument() {
    assert_eq!(
        grpc_message_call(true, 7, 100),
        HandlerCall::GrpcCallResponse { token: 7, status_code: 0, response_size: 100 }
    );
    assert_eq!(
        grpc_message_call(false, 7, 100),
        HandlerCall::GrpcStreamMessage { token: 7, message_size: 100 }
    );
    assert_eq!(
        grpc_close_call(true, 7, 13),
        HandlerCall::GrpcCallResponse { token: 7, status_code: 13, response_size: 0 }
    );
    assert_eq!(grpc_close_call(false, 7, 13), HandlerCall::GrpcStreamClose { token: 7, status_code: 13 });
}

#[test]
fn cancelled_tokens_are_unknown_afterwards() {
    let log: Log = Rc::new(RefCell::new(Vec::new()));
    let mut d = with_root(&log);
    assert_eq!(d.on_tick(1), Ok(()));
    assert_eq!(d.register_callout(1), Ok(()));
    assert_eq!(d.register_grpc_callout(2), Ok(()));
    assert_eq!(d.register_grpc_stream(3), Ok(()));
    assert_eq!(d.grpc_call_owner(2), Some(1));
    assert_eq!(d.cancel_http_call(1), Some(1));
    assert_eq!(d.cancel_grpc_call(2), Some(1));
    assert_eq!(d.close_grpc_stream(3), Some(1));
    assert_eq!(d.cancel_http_call(1), None);
    assert_eq!(d.on_http_call_response(1, 0, 0, 0), Err(DispatchError::UnknownToken));
    assert_eq!(d.on_grpc_receive(2, 0), Err(DispatchError::UnknownToken));
    assert_eq!(d.on_grpc_close(3, 0), Err(DispatchError::UnknownToken));
}
