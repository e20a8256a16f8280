//! The handler interfaces an extension implements, one per instance variant.
//! Each carries the completion handlers of out-calls beside its own. Every
//! handler has a default that lets traffic continue untouched.
use crate::types::{Action, ContextType, PeerType};
use vstd::prelude::*;

verus! {

/// One per configured plugin; the factory of the other variants.
pub trait RootContext {
    fn on_http_call_response(
        &mut self,
        _token_id: u32,
        _num_headers: usize,
        _body_size: usize,
        _num_trailers: usize,
    ) {
    }

    fn on_grpc_call_response(&mut self, _token_id: u32, _status_code: u32, _response_size: usize) {
    }

    fn on_grpc_stream_initial_metadata(&mut self, _token_id: u32, _num_elements: u32) {
    }

    fn on_grpc_stream_message(&mut self, _token_id: u32, _message_size: usize) {
    }

    fn on_grpc_stream_trailing_metadata(&mut self, _token_id: u32, _num_elements: u32) {
    }

    fn on_grpc_stream_close(&mut self, _token_id: u32, _status_code: u32) {
    }

    fn on_foreign_function(&mut self, _function_id: u32, _arguments_size: usize) {
    }

    fn on_done(&mut self) -> bool {
        true
    }

    fn on_vm_start(&mut self, _vm_configuration_size: usize) -> bool {
        true
    }

    fn on_configure(&mut self, _plugin_configuration_size: usize) -> bool {
        true
    }

    fn on_tick(&mut self) {
    }

    fn on_queue_ready(&mut self, _queue_id: u32) {
    }

    fn on_log(&mut self) {
    }

    fn create_http_context(&self, _context_id: u32) -> Option<Box<dyn HttpContext>> {
        None
    }

    fn create_stream_context(&self, _context_id: u32) -> Option<Box<dyn StreamContext>> {
        None
    }

    fn get_type(&self) -> Option<ContextType> {
        None
    }
}

/// One per L4 connection.
pub trait StreamContext {
    fn on_http_call_response(
        &mut self,
        _token_id: u32,
        _num_headers: usize,
        _body_size: usize,
        _num_trailers: usize,
    ) {
    }

    fn on_grpc_call_response(&mut self, _token_id: u32, _status_code: u32, _response_size: usize) {
    }

    fn on_grpc_stream_initial_metadata(&mut self, _token_id: u32, _num_elements: u32) {
    }

    fn on_grpc_stream_message(&mut self, _token_id: u32, _message_size: usize) {
    }

    fn on_grpc_stream_trailing_metadata(&mut self, _token_id: u32, _num_elements: u32) {
    }

    fn on_grpc_stream_close(&mut self, _token_id: u32, _status_code: u32) {
    }

    fn on_foreign_function(&mut self, _function_id: u32, _arguments_size: usize) {
    }

    fn on_done(&mut self) -> bool {
        true
    }

    fn on_new_connection(&mut self) -> Action {
        Action::Continue
    }

    fn on_downstream_data(&mut self, _data_size: usize, _end_of_stream: bool) -> Action {
        Action::Continue
    }

    fn on_downstream_close(&mut self, _peer_type: PeerType) {
    }

    fn on_upstream_data(&mut self, _data_size: usize, _end_of_stream: bool) -> Action {
        Action::Continue
    }

    fn on_upstream_close(&mut self, _peer_type: PeerType) {
    }

    fn on_log(&mut self) {
    }
}

/// One per L7 request/response exchange.
pub trait HttpContext {
    fn on_http_call_response(
        &mut self,
        _token_id: u32,
        _num_headers: usize,
        _body_size: usize,
        _num_trailers: usize,
    ) {
    }

    fn on_grpc_call_response(&mut self, _token_id: u32, _status_code: u32, _response_size: usize) {
    }

    fn on_grpc_stream_initial_metadata(&mut self, _token_id: u32, _num_elements: u32) {
    }

    fn on_grpc_stream_message(&mut self, _token_id: u32, _message_size: usize) {
    }

    fn on_grpc_stream_trailing_metadata(&mut self, _token_id: u32, _num_elements: u32) {
    }

    fn on_grpc_stream_close(&mut self, _token_id: u32, _status_code: u32) {
    }

    fn on_foreign_function(&mut self, _function_id: u32, _arguments_size: usize) {
    }

    fn on_done(&mut self) -> bool {
        true
    }

    fn on_http_request_headers(&mut self, _num_headers: usize, _end_of_stream: bool) -> Action {
        Action::Continue
    }

    fn on_http_request_body(&mut self, _body_size: usize, _end_of_stream: bool) -> Action {
        Action::Continue
    }

    fn on_http_request_trailers(&mut self, _num_trailers: usize) -> Action {
        Action::Continue
    }

    fn on_http_response_headers(&mut self, _num_headers: usize, _end_of_stream: bool) -> Action {
        Action::Continue
    }

    fn on_http_response_body(&mut self, _body_size: usize, _end_of_stream: bool) -> Action {
        Action::Continue
    }

    fn on_http_response_trailers(&mut self, _num_trailers: usize) -> Action {
        Action::Continue
    }

    fn on_log(&mut self) {
    }
}

/// An instance whose handlers all keep their defaults.
pub struct Noop;

impl RootContext for Noop {

}

impl StreamContext for Noop {

}

impl HttpContext for Noop {

}

/// Process-wide constructor of root instances. Left as it is, it builds an
/// instance whose handlers keep their defaults.
pub trait NewRootContext {
    fn create(&self, _context_id: u32) -> Box<dyn RootContext> {
        Box::new(Noop)
    }
}

/// Process-wide constructor of stream instances; it receives both ids.
/// Left as it is, it builds an instance whose handlers keep their defaults.
pub trait NewStreamContext {
    fn create(&self, _context_id: u32, _root_context_id: u32) -> Box<dyn StreamContext> {
        Box::new(Noop)
    }
}

/// Process-wide constructor of HTTP instances; it receives both ids.
/// Left as it is, it builds an instance whose handlers keep their defaults.
pub trait NewHttpContext {
    fn create(&self, _context_id: u32, _root_context_id: u32) -> Box<dyn HttpContext> {
        Box::new(Noop)
    }
}

/// A metric defined in the host, known by the id the host assigned.
pub trait Metric {
    fn id(&self) -> u32;
}

} // verus!
