//! The dispatcher: the registry of live instances, the three out-call
//! correlation tables and the active-instance cursor, with one entry point per
//! host event.
//!
//! Handlers never see the dispatcher, so each entry point changes the
//! dispatcher's view exactly as the `after_*` spec functions below say,
//! whatever the handler does; only what the handler returns is its own.
use crate::table::{ContextKind, Instance, InstanceTable, TokenTable};
use crate::traits::{
    HttpContext, NewHttpContext, NewRootContext, NewStreamContext, Noop, RootContext,
    StreamContext,
};
use crate::types::{Action, ContextType, PeerType};
use vstd::prelude::*;

verus! {

/// Why a host event could not be handed to an instance.
#[derive(Clone, Copy, Debug, PartialEq, Eq, Structural)]
pub enum DispatchError {
    /// An instance with this id is already live.
    DuplicateId,
    /// The parent id does not name a live root.
    UnknownParent,
    /// No live instance has this id (deletion).
    UnknownId,
    /// No live instance of the variant the event needs has this id.
    UnknownContextId,
    /// The completion's token is in no correlation table.
    UnknownToken,
    /// The token was already registered; it now names the current instance.
    DuplicateToken,
    /// The parent root built no child.
    FactoryDeclined,
    /// No factory is registered and the parent root declares no child type.
    AmbiguousContextType,
}

/// What the dispatcher holds, as mathematical values.
pub struct DispatcherView {
    pub instances: Map<u32, ContextKind>,
    pub callouts: Map<u32, u32>,
    pub grpc_callouts: Map<u32, u32>,
    pub grpc_streams: Map<u32, u32>,
    pub active_id: u32,
    pub root_factory: bool,
    pub stream_factory: bool,
    pub http_factory: bool,
}

/// `r` is `Ok` exactly when `e` is `None`, and carries `e` otherwise.
pub open spec fn outcome<T>(r: Result<T, DispatchError>, e: Option<DispatchError>) -> bool {
    match e {
        None => r is Ok,
        Some(err) => r matches Err(x) && x == err,
    }
}

pub open spec fn is_live_root(s: DispatcherView, id: u32) -> bool {
    s.instances.contains_key(id) && s.instances[id] == ContextKind::Root
}

/// The error a creation meets before any factory runs; `parent` is `None` for
/// a root.
pub open spec fn creation_error(s: DispatcherView, id: u32, parent: Option<u32>) -> Option<
    DispatchError,
> {
    if parent matches Some(p) && !is_live_root(s, p) {
        Some(DispatchError::UnknownParent)
    } else if s.instances.contains_key(id) {
        Some(DispatchError::DuplicateId)
    } else {
        None
    }
}

pub open spec fn with_instance(s: DispatcherView, id: u32, kind: ContextKind) -> DispatcherView {
    DispatcherView { instances: s.instances.insert(id, kind), ..s }
}

/// What registering a built child of variant `kind` under `id` gives: no
/// child is `FactoryDeclined`, a live `id` is `DuplicateId`, and otherwise the
/// child is registered. A failure changes nothing.
pub open spec fn adoption(
    old: DispatcherView,
    new: DispatcherView,
    r: Result<(), DispatchError>,
    id: u32,
    built: bool,
    kind: ContextKind,
) -> bool {
    if !built {
        r == Err::<(), DispatchError>(DispatchError::FactoryDeclined) && new == old
    } else if old.instances.contains_key(id) {
        r == Err::<(), DispatchError>(DispatchError::DuplicateId) && new == old
    } else {
        r is Ok && new == with_instance(old, id, kind)
    }
}

/// What creating a child of variant `kind` under `parent` gives: the error
/// `creation_error` names, else the child; only without a registered factory
/// (`factory` false) may the parent root decline. A failure changes nothing.
pub open spec fn child_created(
    old: DispatcherView,
    new: DispatcherView,
    r: Result<(), DispatchError>,
    id: u32,
    parent: u32,
    kind: ContextKind,
    factory: bool,
) -> bool {
    match creation_error(old, id, Some(parent)) {
        Some(e) => r == Err::<(), DispatchError>(e) && new == old,
        None => (r is Ok && new == with_instance(old, id, kind)) || (!factory && r == Err::<
            (),
            DispatchError,
        >(DispatchError::FactoryDeclined) && new == old),
    }
}

/// What creating the child a root declares gives: an HTTP or stream child as
/// `child_created` says, or, when it declares none, the error
/// `creation_error` names, else `AmbiguousContextType`, with nothing changed.
pub open spec fn declared_outcome(
    old: DispatcherView,
    new: DispatcherView,
    r: Result<(), DispatchError>,
    id: u32,
    parent: u32,
    declared: Option<ContextType>,
) -> bool {
    match declared {
        Some(ContextType::HttpContext) => child_created(
            old,
            new,
            r,
            id,
            parent,
            ContextKind::Http,
            old.http_factory,
        ),
        Some(ContextType::StreamContext) => child_created(
            old,
            new,
            r,
            id,
            parent,
            ContextKind::Stream,
            old.stream_factory,
        ),
        None => new == old && r == Err::<(), DispatchError>(
            match creation_error(old, id, Some(parent)) {
                Some(e) => e,
                None => DispatchError::AmbiguousContextType,
            },
        ),
    }
}

pub open spec fn focus(s: DispatcherView, id: u32) -> DispatcherView {
    DispatcherView { active_id: id, ..s }
}

/// An event for instance `id` is accepted when `id` is live, and of variant
/// `kind` where the event names one.
pub open spec fn accepts(s: DispatcherView, id: u32, kind: Option<ContextKind>) -> bool {
    s.instances.contains_key(id) && (kind matches Some(k) ==> s.instances[id] == k)
}

pub open spec fn context_event_error(s: DispatcherView, id: u32, kind: Option<ContextKind>) -> Option<
    DispatchError,
> {
    if accepts(s, id, kind) {
        None
    } else {
        Some(DispatchError::UnknownContextId)
    }
}

/// The view after an event addressed to instance `id`: the cursor moves to
/// `id` when the event is accepted.
pub open spec fn after_context_event(s: DispatcherView, id: u32, kind: Option<ContextKind>) -> DispatcherView {
    if accepts(s, id, kind) {
        focus(s, id)
    } else {
        s
    }
}

pub open spec fn after_delete(s: DispatcherView, id: u32) -> DispatcherView {
    DispatcherView { instances: s.instances.remove(id), ..s }
}

pub open spec fn after_register_callout(s: DispatcherView, token: u32) -> DispatcherView {
    DispatcherView { callouts: s.callouts.insert(token, s.active_id), ..s }
}

pub open spec fn after_register_grpc_callout(s: DispatcherView, token: u32) -> DispatcherView {
    DispatcherView { grpc_callouts: s.grpc_callouts.insert(token, s.active_id), ..s }
}

pub open spec fn after_register_grpc_stream(s: DispatcherView, token: u32) -> DispatcherView {
    DispatcherView { grpc_streams: s.grpc_streams.insert(token, s.active_id), ..s }
}

/// Hands a completion to instance `id`: the cursor moves there if it is live.
pub open spec fn deliver_to(s: DispatcherView, id: u32) -> DispatcherView {
    if s.instances.contains_key(id) {
        focus(s, id)
    } else {
        s
    }
}

pub open spec fn delivery_error(s: DispatcherView, id: u32) -> Option<DispatchError> {
    if s.instances.contains_key(id) {
        None
    } else {
        Some(DispatchError::UnknownContextId)
    }
}

/// An HTTP callout's completion consumes its token.
pub open spec fn after_http_call_response(s: DispatcherView, token: u32) -> DispatcherView {
    if s.callouts.contains_key(token) {
        deliver_to(DispatcherView { callouts: s.callouts.remove(token), ..s }, s.callouts[token])
    } else {
        s
    }
}

pub open spec fn http_call_response_error(s: DispatcherView, token: u32) -> Option<DispatchError> {
    if s.callouts.contains_key(token) {
        delivery_error(s, s.callouts[token])
    } else {
        Some(DispatchError::UnknownToken)
    }
}

/// The error of a gRPC message or close: the unary table is tried first, then
/// the stream table.
pub open spec fn grpc_event_error(s: DispatcherView, token: u32) -> Option<DispatchError> {
    if s.grpc_callouts.contains_key(token) {
        delivery_error(s, s.grpc_callouts[token])
    } else if s.grpc_streams.contains_key(token) {
        delivery_error(s, s.grpc_streams[token])
    } else {
        Some(DispatchError::UnknownToken)
    }
}

/// A gRPC message consumes a unary call's token but not a stream's.
pub open spec fn after_grpc_receive(s: DispatcherView, token: u32) -> DispatcherView {
    if s.grpc_callouts.contains_key(token) {
        deliver_to(
            DispatcherView { grpc_callouts: s.grpc_callouts.remove(token), ..s },
            s.grpc_callouts[token],
        )
    } else if s.grpc_streams.contains_key(token) {
        deliver_to(s, s.grpc_streams[token])
    } else {
        s
    }
}

/// A gRPC close consumes the token of a unary call or of a stream.
pub open spec fn after_grpc_close(s: DispatcherView, token: u32) -> DispatcherView {
    if s.grpc_callouts.contains_key(token) {
        deliver_to(
            DispatcherView { grpc_callouts: s.grpc_callouts.remove(token), ..s },
            s.grpc_callouts[token],
        )
    } else if s.grpc_streams.contains_key(token) {
        deliver_to(
            DispatcherView { grpc_streams: s.grpc_streams.remove(token), ..s },
            s.grpc_streams[token],
        )
    } else {
        s
    }
}

/// Stream metadata leaves the stream's token in place.
pub open spec fn after_grpc_metadata(s: DispatcherView, token: u32) -> DispatcherView {
    if s.grpc_streams.contains_key(token) {
        deliver_to(s, s.grpc_streams[token])
    } else {
        s
    }
}

pub open spec fn grpc_metadata_error(s: DispatcherView, token: u32) -> Option<DispatchError> {
    if s.grpc_streams.contains_key(token) {
        delivery_error(s, s.grpc_streams[token])
    } else {
        Some(DispatchError::UnknownToken)
    }
}

/// A handler call the dispatcher makes: which handler runs and with which
/// arguments.
#[derive(Clone, Copy, Debug, PartialEq, Eq, Structural)]
pub enum HandlerCall {
    HttpCallResponse { token: u32, num_headers: usize, body_size: usize, num_trailers: usize },
    GrpcCallResponse { token: u32, status_code: u32, response_size: usize },
    GrpcStreamInitialMetadata { token: u32, num_elements: u32 },
    GrpcStreamMessage { token: u32, message_size: usize },
    GrpcStreamTrailingMetadata { token: u32, num_elements: u32 },
    GrpcStreamClose { token: u32, status_code: u32 },
    ForeignFunction { function_id: u32, arguments_size: usize },
    Done,
    Log,
    VmStart { vm_configuration_size: usize },
    Configure { plugin_configuration_size: usize },
    Tick,
    QueueReady { queue_id: u32 },
    NewConnection,
    DownstreamData { data_size: usize, end_of_stream: bool },
    DownstreamClose { peer_type: PeerType },
    UpstreamData { data_size: usize, end_of_stream: bool },
    UpstreamClose { peer_type: PeerType },
    RequestHeaders { num_headers: usize, end_of_stream: bool },
    RequestBody { body_size: usize, end_of_stream: bool },
    RequestTrailers { num_trailers: usize },
    ResponseHeaders { num_headers: usize, end_of_stream: bool },
    ResponseBody { body_size: usize, end_of_stream: bool },
    ResponseTrailers { num_trailers: usize },
}

/// The call a gRPC message makes: the response of a unary call, with status
/// 0, or a message of a stream.
pub open spec fn grpc_message(unary: bool, token: u32, size: usize) -> HandlerCall {
    if unary {
        HandlerCall::GrpcCallResponse { token, status_code: 0, response_size: size }
    } else {
        HandlerCall::GrpcStreamMessage { token, message_size: size }
    }
}

/// The call a gRPC close makes: the response of a unary call, with an empty
/// body, or the close of a stream.
pub open spec fn grpc_close(unary: bool, token: u32, status_code: u32) -> HandlerCall {
    if unary {
        HandlerCall::GrpcCallResponse { token, status_code, response_size: 0 }
    } else {
        HandlerCall::GrpcStreamClose { token, status_code }
    }
}

pub fn grpc_message_call(unary: bool, token: u32, size: usize) -> (c: HandlerCall)
    ensures
        c == grpc_message(unary, token, size),
{
    if unary {
        HandlerCall::GrpcCallResponse { token, status_code: 0, response_size: size }
    } else {
        HandlerCall::GrpcStreamMessage { token, message_size: size }
    }
}

pub fn grpc_close_call(unary: bool, token: u32, status_code: u32) -> (c: HandlerCall)
    ensures
        c == grpc_close(unary, token, status_code),
{
    if unary {
        HandlerCall::GrpcCallResponse { token, status_code, response_size: 0 }
    } else {
        HandlerCall::GrpcStreamClose { token, status_code }
    }
}

fn complete_root(root: &mut Box<dyn RootContext>, c: HandlerCall) {
    match c {
        HandlerCall::HttpCallResponse { token, num_headers, body_size, num_trailers } => {
            root.on_http_call_response(token, num_headers, body_size, num_trailers)
        },
        HandlerCall::GrpcCallResponse { token, status_code, response_size } => {
            root.on_grpc_call_response(token, status_code, response_size)
        },
        HandlerCall::GrpcStreamInitialMetadata { token, num_elements } => {
            root.on_grpc_stream_initial_metadata(token, num_elements)
        },
        HandlerCall::GrpcStreamMessage { token, message_size } => {
            root.on_grpc_stream_message(token, message_size)
        },
        HandlerCall::GrpcStreamTrailingMetadata { token, num_elements } => {
            root.on_grpc_stream_trailing_metadata(token, num_elements)
        },
        HandlerCall::GrpcStreamClose { token, status_code } => {
            root.on_grpc_stream_close(token, status_code)
        },
        HandlerCall::ForeignFunction { function_id, arguments_size } => {
            root.on_foreign_function(function_id, arguments_size)
        },
        _ => {},
    }
}

fn complete_stream(stream: &mut Box<dyn StreamContext>, c: HandlerCall) {
    match c {
        HandlerCall::HttpCallResponse { token, num_headers, body_size, num_trailers } => {
            stream.on_http_call_response(token, num_headers, body_size, num_trailers)
        },
        HandlerCall::GrpcCallResponse { token, status_code, response_size } => {
            stream.on_grpc_call_response(token, status_code, response_size)
        },
        HandlerCall::GrpcStreamInitialMetadata { token, num_elements } => {
            stream.on_grpc_stream_initial_metadata(token, num_elements)
        },
        HandlerCall::GrpcStreamMessage { token, message_size } => {
            stream.on_grpc_stream_message(token, message_size)
        },
        HandlerCall::GrpcStreamTrailingMetadata { token, num_elements } => {
            stream.on_grpc_stream_trailing_metadata(token, num_elements)
        },
        HandlerCall::GrpcStreamClose { token, status_code } => {
            stream.on_grpc_stream_close(token, status_code)
        },
        HandlerCall::ForeignFunction { function_id, arguments_size } => {
            stream.on_foreign_function(function_id, arguments_size)
        },
        _ => {},
    }
}

fn complete_http(http: &mut Box<dyn HttpContext>, c: HandlerCall) {
    match c {
        HandlerCall::HttpCallResponse { token, num_headers, body_size, num_trailers } => {
            http.on_http_call_response(token, num_headers, body_size, num_trailers)
        },
        HandlerCall::GrpcCallResponse { token, status_code, response_size } => {
            http.on_grpc_call_response(token, status_code, response_size)
        },
        HandlerCall::GrpcStreamInitialMetadata { token, num_elements } => {
            http.on_grpc_stream_initial_metadata(token, num_elements)
        },
        HandlerCall::GrpcStreamMessage { token, message_size } => {
            http.on_grpc_stream_message(token, message_size)
        },
        HandlerCall::GrpcStreamTrailingMetadata { token, num_elements } => {
            http.on_grpc_stream_trailing_metadata(token, num_elements)
        },
        HandlerCall::GrpcStreamClose { token, status_code } => {
            http.on_grpc_stream_close(token, status_code)
        },
        HandlerCall::ForeignFunction { function_id, arguments_size } => {
            http.on_foreign_function(function_id, arguments_size)
        },
        _ => {},
    }
}

/// The registry, the correlation tables and the cursor. Exactly one exists
/// per execution context.
pub struct Dispatcher {
    new_root: Option<Box<dyn NewRootContext>>,
    new_stream: Option<Box<dyn NewStreamContext>>,
    new_http: Option<Box<dyn NewHttpContext>>,
    instances: InstanceTable,
    active_id: u32,
    last_call: Option<HandlerCall>,
    callouts: TokenTable,
    grpc_callouts: TokenTable,
    grpc_streams: TokenTable,
}

impl View for Dispatcher {
    type V = DispatcherView;

    closed spec fn view(&self) -> DispatcherView {
        DispatcherView {
            instances: self.instances@,
            callouts: self.callouts@,
            grpc_callouts: self.grpc_callouts@,
            grpc_streams: self.grpc_streams@,
            active_id: self.active_id,
            root_factory: self.new_root is Some,
            stream_factory: self.new_stream is Some,
            http_factory: self.new_http is Some,
        }
    }
}

impl Dispatcher {
    /// An empty registry with no factory, empty tables and the cursor at 0.
    pub fn new() -> (r: Dispatcher)
        ensures
            r@.instances.is_empty(),
            r@.callouts.is_empty(),
            r@.grpc_callouts.is_empty(),
            r@.grpc_streams.is_empty(),
            r@.active_id == 0,
            !r@.root_factory && !r@.stream_factory && !r@.http_factory,
            r.last_call() is None,
    {
        let r = Dispatcher {
            new_root: None,
            new_stream: None,
            new_http: None,
            instances: InstanceTable::new(),
            active_id: 0,
            last_call: None,
            callouts: TokenTable::new(),
            grpc_callouts: TokenTable::new(),
            grpc_streams: TokenTable::new(),
        };
        assert(r@.instances =~= Map::empty());
        assert(r@.callouts =~= Map::empty());
        assert(r@.grpc_callouts =~= Map::empty());
        assert(r@.grpc_streams =~= Map::empty());
        r
    }

    /// The last handler call made, to instance `self@.active_id`.
    pub closed spec fn last_call(&self) -> Option<HandlerCall> {
        self.last_call
    }

    /// The last handler call made, to the instance the cursor names.
    pub fn last_handler_call(&self) -> (r: Option<HandlerCall>)
        ensures
            r == self.last_call(),
    {
        self.last_call
    }

    /// The id of the instance currently executing.
    pub fn active_id(&self) -> (r: u32)
        ensures
            r == self@.active_id,
    {
        self.active_id
    }

    pub fn set_root_context(&mut self, factory: Box<dyn NewRootContext>)
        ensures
            final(self)@ == (DispatcherView { root_factory: true, ..old(self)@ }),
    {
        self.new_root = Some(factory);
    }

    pub fn set_stream_context(&mut self, factory: Box<dyn NewStreamContext>)
        ensures
            final(self)@ == (DispatcherView { stream_factory: true, ..old(self)@ }),
    {
        self.new_stream = Some(factory);
    }

    pub fn set_http_context(&mut self, factory: Box<dyn NewHttpContext>)
        ensures
            final(self)@ == (DispatcherView { http_factory: true, ..old(self)@ }),
    {
        self.new_http = Some(factory);
    }

    /// Correlates an HTTP callout token with the active instance.
    pub fn register_callout(&mut self, token_id: u32) -> (r: Result<(), DispatchError>)
        ensures
            final(self)@ == after_register_callout(old(self)@, token_id),
            outcome(
                r,
                if old(self)@.callouts.contains_key(token_id) {
                    Some(DispatchError::DuplicateToken)
                } else {
                    None
                },
            ),
    {
        match self.callouts.insert(token_id, self.active_id) {
            Some(_) => Err(DispatchError::DuplicateToken),
            None => Ok(()),
        }
    }

    /// Correlates a gRPC unary call token with the active instance.
    pub fn register_grpc_callout(&mut self, token_id: u32) -> (r: Result<(), DispatchError>)
        ensures
            final(self)@ == after_register_grpc_callout(old(self)@, token_id),
            outcome(
                r,
                if old(self)@.grpc_callouts.contains_key(token_id) {
                    Some(DispatchError::DuplicateToken)
                } else {
                    None
                },
            ),
    {
        match self.grpc_callouts.insert(token_id, self.active_id) {
            Some(_) => Err(DispatchError::DuplicateToken),
            None => Ok(()),
        }
    }

    /// Correlates a gRPC stream token with the active instance.
    pub fn register_grpc_stream(&mut self, token_id: u32) -> (r: Result<(), DispatchError>)
        ensures
            final(self)@ == after_register_grpc_stream(old(self)@, token_id),
            outcome(
                r,
                if old(self)@.grpc_streams.contains_key(token_id) {
                    Some(DispatchError::DuplicateToken)
                } else {
                    None
                },
            ),
    {
        match self.grpc_streams.insert(token_id, self.active_id) {
            Some(_) => Err(DispatchError::DuplicateToken),
            None => Ok(()),
        }
    }

    /// Whether an instance with id `id` is live.
    pub fn is_live(&self, id: u32) -> (r: bool)
        ensures
            r == self@.instances.contains_key(id),
    {
        self.instances.get(id).is_some()
    }

    fn is_root(&self, id: u32) -> (r: bool)
        ensures
            r == is_live_root(self@, id),
    {
        match self.instances.get(id) {
            Some(Instance::Root(_)) => true,
            _ => false,
        }
    }

    /// Creates a root through the registered factory, or a root with default
    /// handlers when none is registered.
    pub fn create_root_context(&mut self, context_id: u32) -> (r: Result<(), DispatchError>)
        ensures
            outcome(r, creation_error(old(self)@, context_id, None)),
            final(self)@ == if r is Ok {
                with_instance(old(self)@, context_id, ContextKind::Root)
            } else {
                old(self)@
            },
    {
        if self.is_live(context_id) {
            return Err(DispatchError::DuplicateId);
        }
        let root: Box<dyn RootContext> = match &self.new_root {
            Some(factory) => factory.create(context_id),
            None => Box::new(Noop),
        };
        self.instances.insert(context_id, Instance::Root(root));
        Ok(())
    }

    /// Registers the stream instance built for `context_id`, if one was built.
    pub fn adopt_stream(&mut self, context_id: u32, built: Option<Box<dyn StreamContext>>) -> (r:
        Result<(), DispatchError>)
        ensures
            adoption(old(self)@, final(self)@, r, context_id, built is Some, ContextKind::Stream),
    {
        match built {
            Some(stream) => {
                if self.is_live(context_id) {
                    Err(DispatchError::DuplicateId)
                } else {
                    self.instances.insert(context_id, Instance::Stream(stream));
                    Ok(())
                }
            },
            None => Err(DispatchError::FactoryDeclined),
        }
    }

    /// Registers the HTTP instance built for `context_id`, if one was built.
    pub fn adopt_http(&mut self, context_id: u32, built: Option<Box<dyn HttpContext>>) -> (r:
        Result<(), DispatchError>)
        ensures
            adoption(old(self)@, final(self)@, r, context_id, built is Some, ContextKind::Http),
    {
        match built {
            Some(http) => {
                if self.is_live(context_id) {
                    Err(DispatchError::DuplicateId)
                } else {
                    self.instances.insert(context_id, Instance::Http(http));
                    Ok(())
                }
            },
            None => Err(DispatchError::FactoryDeclined),
        }
    }

    /// Creates a stream instance under a live root: through the registered
    /// factory, else through the root itself, whose answer `adopt_stream`
    /// registers.
    pub fn create_stream_context(&mut self, context_id: u32, root_context_id: u32) -> (r: Result<
        (),
        DispatchError,
    >)
        ensures
            child_created(
                old(self)@,
                final(self)@,
                r,
                context_id,
                root_context_id,
                ContextKind::Stream,
                old(self)@.stream_factory,
            ),
            (r == Err::<(), DispatchError>(DispatchError::UnknownParent)) <==> !is_live_root(
                old(self)@,
                root_context_id,
            ),
    {
        if !self.is_root(root_context_id) {
            return Err(DispatchError::UnknownParent);
        }
        if self.is_live(context_id) {
            return Err(DispatchError::DuplicateId);
        }
        let built: Option<Box<dyn StreamContext>> = match &self.new_stream {
            Some(factory) => Some(factory.create(context_id, root_context_id)),
            None => match self.instances.get(root_context_id) {
                Some(Instance::Root(root)) => root.create_stream_context(context_id),
                _ => None,
            },
        };
        self.adopt_stream(context_id, built)
    }

    /// Creates an HTTP instance under a live root: through the registered
    /// factory, else through the root itself, whose answer `adopt_http`
    /// registers.
    pub fn create_http_context(&mut self, context_id: u32, root_context_id: u32) -> (r: Result<
        (),
        DispatchError,
    >)
        ensures
            child_created(
                old(self)@,
                final(self)@,
                r,
                context_id,
                root_context_id,
                ContextKind::Http,
                old(self)@.http_factory,
            ),
            (r == Err::<(), DispatchError>(DispatchError::UnknownParent)) <==> !is_live_root(
                old(self)@,
                root_context_id,
            ),
    {
        if !self.is_root(root_context_id) {
            return Err(DispatchError::UnknownParent);
        }
        if self.is_live(context_id) {
            return Err(DispatchError::DuplicateId);
        }
        let built: Option<Box<dyn HttpContext>> = match &self.new_http {
            Some(factory) => Some(factory.create(context_id, root_context_id)),
            None => match self.instances.get(root_context_id) {
                Some(Instance::Root(root)) => root.create_http_context(context_id),
                _ => None,
            },
        };
        self.adopt_http(context_id, built)
    }

    /// Creates the child variant a parent root declares: HTTP, stream, or,
    /// when it declares none, no instance at all.
    pub fn create_declared_context(
        &mut self,
        context_id: u32,
        root_context_id: u32,
        declared: Option<ContextType>,
    ) -> (r: Result<(), DispatchError>)
        ensures
            declared_outcome(old(self)@, final(self)@, r, context_id, root_context_id, declared),
    {
        match declared {
            Some(ContextType::HttpContext) => self.create_http_context(context_id, root_context_id),
            Some(ContextType::StreamContext) => self.create_stream_context(
                context_id,
                root_context_id,
            ),
            None => {
                if !self.is_root(root_context_id) {
                    Err(DispatchError::UnknownParent)
                } else if self.is_live(context_id) {
                    Err(DispatchError::DuplicateId)
                } else {
                    Err(DispatchError::AmbiguousContextType)
                }
            },
        }
    }

    /// Creates an instance when the host names no variant: a root when
    /// `root_context_id` is 0; otherwise an HTTP instance if an HTTP factory is
    /// registered, else a stream instance if a stream factory is, else the
    /// variant the parent root declares.
    pub fn on_create_context(&mut self, context_id: u32, root_context_id: u32) -> (r: Result<
        (),
        DispatchError,
    >)
        ensures
            root_context_id == 0 ==> outcome(r, creation_error(old(self)@, context_id, None)),
            root_context_id == 0 ==> final(self)@ == if r is Ok {
                with_instance(old(self)@, context_id, ContextKind::Root)
            } else {
                old(self)@
            },
            root_context_id != 0 && old(self)@.http_factory ==> child_created(
                old(self)@,
                final(self)@,
                r,
                context_id,
                root_context_id,
                ContextKind::Http,
                true,
            ),
            root_context_id != 0 && !old(self)@.http_factory && old(self)@.stream_factory
                ==> child_created(
                old(self)@,
                final(self)@,
                r,
                context_id,
                root_context_id,
                ContextKind::Stream,
                true,
            ),
            root_context_id != 0 && !old(self)@.http_factory && !old(self)@.stream_factory
                && !is_live_root(old(self)@, root_context_id) ==> r == Err::<(), DispatchError>(
                DispatchError::UnknownParent,
            ) && final(self)@ == old(self)@,
            root_context_id != 0 && !old(self)@.http_factory && !old(self)@.stream_factory
                && is_live_root(old(self)@, root_context_id) ==> exists|declared: Option<
                ContextType,
            >|
                declared_outcome(
                    old(self)@,
                    final(self)@,
                    r,
                    context_id,
                    root_context_id,
                    declared,
                ),
    {
        if root_context_id == 0 {
            self.create_root_context(context_id)
        } else if self.new_http.is_some() {
            self.create_http_context(context_id, root_context_id)
        } else if self.new_stream.is_some() {
            self.create_stream_context(context_id, root_context_id)
        } else {
            let declared = match self.instances.get(root_context_id) {
                Some(Instance::Root(root)) => Some(root.get_type()),
                _ => None,
            };
            match declared {
                Some(d) => self.create_declared_context(context_id, root_context_id, d),
                None => Err(DispatchError::UnknownParent),
            }
        }
    }

    /// The instance that issued the HTTP callout `token_id`, if it is pending.
    pub fn http_call_owner(&self, token_id: u32) -> (r: Option<u32>)
        ensures
            r is Some <==> self@.callouts.contains_key(token_id),
            r matches Some(id) ==> id == self@.callouts[token_id],
    {
        self.callouts.get(token_id)
    }

    /// The instance a gRPC message or close for `token_id` goes to: the
    /// unary call table is tried first, then the stream table.
    pub fn grpc_owner(&self, token_id: u32) -> (r: Option<u32>)
        ensures
            r == if self@.grpc_callouts.contains_key(token_id) {
                Some(self@.grpc_callouts[token_id])
            } else if self@.grpc_streams.contains_key(token_id) {
                Some(self@.grpc_streams[token_id])
            } else {
                None::<u32>
            },
    {
        match self.grpc_callouts.get(token_id) {
            Some(id) => Some(id),
            None => self.grpc_streams.get(token_id),
        }
    }

    /// The instance that issued the unary gRPC call `token_id`, if pending.
    pub fn grpc_call_owner(&self, token_id: u32) -> (r: Option<u32>)
        ensures
            r is Some <==> self@.grpc_callouts.contains_key(token_id),
            r matches Some(id) ==> id == self@.grpc_callouts[token_id],
    {
        self.grpc_callouts.get(token_id)
    }

    /// Forgets the HTTP callout `token_id`, as after a cancellation: a later
    /// completion for it is an unknown token. Returns the instance it named.
    pub fn cancel_http_call(&mut self, token_id: u32) -> (r: Option<u32>)
        ensures
            r == if old(self)@.callouts.contains_key(token_id) {
                Some(old(self)@.callouts[token_id])
            } else {
                None::<u32>
            },
            final(self)@ == (DispatcherView {
                callouts: old(self)@.callouts.remove(token_id),
                ..old(self)@
            }),
    {
        self.callouts.remove(token_id)
    }

    /// Forgets the unary gRPC call `token_id`, as after a cancellation.
    pub fn cancel_grpc_call(&mut self, token_id: u32) -> (r: Option<u32>)
        ensures
            r == if old(self)@.grpc_callouts.contains_key(token_id) {
                Some(old(self)@.grpc_callouts[token_id])
            } else {
                None::<u32>
            },
            final(self)@ == (DispatcherView {
                grpc_callouts: old(self)@.grpc_callouts.remove(token_id),
                ..old(self)@
            }),
    {
        self.grpc_callouts.remove(token_id)
    }

    /// Forgets the gRPC stream `token_id`, as after it is closed or cancelled.
    pub fn close_grpc_stream(&mut self, token_id: u32) -> (r: Option<u32>)
        ensures
            r == if old(self)@.grpc_streams.contains_key(token_id) {
                Some(old(self)@.grpc_streams[token_id])
            } else {
                None::<u32>
            },
            final(self)@ == (DispatcherView {
                grpc_streams: old(self)@.grpc_streams.remove(token_id),
                ..old(self)@
            }),
    {
        self.grpc_streams.remove(token_id)
    }

    /// The instance that opened the gRPC stream `token_id`, if it is open.
    pub fn grpc_stream_owner(&self, token_id: u32) -> (r: Option<u32>)
        ensures
            r is Some <==> self@.grpc_streams.contains_key(token_id),
            r matches Some(id) ==> id == self@.grpc_streams[token_id],
    {
        self.grpc_streams.get(token_id)
    }

    /// Removes a live instance.
    pub fn on_delete(&mut self, context_id: u32) -> (r: Result<(), DispatchError>)
        ensures
            outcome(
                r,
                if old(self)@.instances.contains_key(context_id) {
                    None
                } else {
                    Some(DispatchError::UnknownId)
                },
            ),
            final(self)@ == after_delete(old(self)@, context_id),
    {
        match self.instances.remove(context_id) {
            Some(_) => Ok(()),
            None => Err(DispatchError::UnknownId),
        }
    }

    /// Takes the instance an event is addressed to out of the registry and
    /// moves the cursor to it.
    fn checkout(&mut self, id: u32, kind: Option<ContextKind>) -> (r: Option<Instance>)
        ensures
            r is Some <==> accepts(old(self)@, id, kind),
            r matches Some(i) ==> i.kind() == old(self)@.instances[id] && final(self)@ == (
            DispatcherView { instances: old(self)@.instances.remove(id), ..focus(old(self)@, id) }),
            r is None ==> final(self)@ == old(self)@,
            final(self).last_call() == old(self).last_call(),
    {
        let accepted = match (self.instances.get(id), kind) {
            (None, _) => false,
            (Some(_), None) => true,
            (Some(Instance::Root(_)), Some(ContextKind::Root)) => true,
            (Some(Instance::Stream(_)), Some(ContextKind::Stream)) => true,
            (Some(Instance::Http(_)), Some(ContextKind::Http)) => true,
            _ => false,
        };
        if accepted {
            self.active_id = id;
            self.instances.remove(id)
        } else {
            None
        }
    }

    /// Puts an instance taken by `checkout` back.
    fn checkin(&mut self, id: u32, inst: Instance)
        ensures
            final(self)@ == (DispatcherView {
                instances: old(self)@.instances.insert(id, inst.kind()),
                ..old(self)@
            }),
            final(self).last_call() == old(self).last_call(),
    {
        self.instances.insert(id, inst);
    }

    /// Runs `on_vm_start` of the live root `context_id`.
    pub fn on_vm_start(&mut self, context_id: u32, vm_configuration_size: usize) -> (r: Result<bool, DispatchError>)
        ensures
            outcome(r, context_event_error(old(self)@, context_id, Some(ContextKind::Root))),
            final(self)@ == after_context_event(old(self)@, context_id, Some(ContextKind::Root)),
            r is Ok ==> final(self).last_call() == Some(HandlerCall::VmStart { vm_configuration_size }),
            r is Err ==> final(self).last_call() == old(self).last_call(),
    {
        let ghost s0 = self@;
        match self.checkout(context_id, Some(ContextKind::Root)) {
            Some(Instance::Root(mut root)) => {
                self.last_call = Some(HandlerCall::VmStart { vm_configuration_size });
                let result = root.on_vm_start(vm_configuration_size);
                self.checkin(context_id, Instance::Root(root));
                assert(self@.instances =~= s0.instances);
                Ok(result)
            },
            Some(other) => {
                self.checkin(context_id, other);
                Err(DispatchError::UnknownContextId)
            },
            None => Err(DispatchError::UnknownContextId),
        }
    }

    /// Runs `on_configure` of the live root `context_id`.
    pub fn on_configure(&mut self, context_id: u32, plugin_configuration_size: usize) -> (r: Result<bool, DispatchError>)
        ensures
            outcome(r, context_event_error(old(self)@, context_id, Some(ContextKind::Root))),
            final(self)@ == after_context_event(old(self)@, context_id, Some(ContextKind::Root)),
            r is Ok ==> final(self).last_call() == Some(HandlerCall::Configure { plugin_configuration_size }),
            r is Err ==> final(self).last_call() == old(self).last_call(),
    {
        let ghost s0 = self@;
        match self.checkout(context_id, Some(ContextKind::Root)) {
            Some(Instance::Root(mut root)) => {
                self.last_call = Some(HandlerCall::Configure { plugin_configuration_size });
                let result = root.on_configure(plugin_configuration_size);
                self.checkin(context_id, Instance::Root(root));
                assert(self@.instances =~= s0.instances);
                Ok(result)
            },
            Some(other) => {
                self.checkin(context_id, other);
                Err(DispatchError::UnknownContextId)
            },
            None => Err(DispatchError::UnknownContextId),
        }
    }

    /// Runs `on_tick` of the live root `context_id`.
    pub fn on_tick(&mut self, context_id: u32) -> (r: Result<(), DispatchError>)
        ensures
            outcome(r, context_event_error(old(self)@, context_id, Some(ContextKind::Root))),
            final(self)@ == after_context_event(old(self)@, context_id, Some(ContextKind::Root)),
            r is Ok ==> final(self).last_call() == Some(HandlerCall::Tick),
            r is Err ==> final(self).last_call() == old(self).last_call(),
    {
        let ghost s0 = self@;
        match self.checkout(context_id, Some(ContextKind::Root)) {
            Some(Instance::Root(mut root)) => {
                self.last_call = Some(HandlerCall::Tick);
                let result = root.on_tick();
                self.checkin(context_id, Instance::Root(root));
                assert(self@.instances =~= s0.instances);
                Ok(result)
            },
            Some(other) => {
                self.checkin(context_id, other);
                Err(DispatchError::UnknownContextId)
            },
            None => Err(DispatchError::UnknownContextId),
        }
    }

    /// Runs `on_queue_ready` of the live root `context_id`.
    pub fn on_queue_ready(&mut self, context_id: u32, queue_id: u32) -> (r: Result<(), DispatchError>)
        ensures
            outcome(r, context_event_error(old(self)@, context_id, Some(ContextKind::Root))),
            final(self)@ == after_context_event(old(self)@, context_id, Some(ContextKind::Root)),
            r is Ok ==> final(self).last_call() == Some(HandlerCall::QueueReady { queue_id }),
            r is Err ==> final(self).last_call() == old(self).last_call(),
    {
        let ghost s0 = self@;
        match self.checkout(context_id, Some(ContextKind::Root)) {
            Some(Instance::Root(mut root)) => {
                self.last_call = Some(HandlerCall::QueueReady { queue_id });
                let result = root.on_queue_ready(queue_id);
                self.checkin(context_id, Instance::Root(root));
                assert(self@.instances =~= s0.instances);
                Ok(result)
            },
            Some(other) => {
                self.checkin(context_id, other);
                Err(DispatchError::UnknownContextId)
            },
            None => Err(DispatchError::UnknownContextId),
        }
    }

    /// Runs `on_new_connection` of the live stream instance `context_id`.
    pub fn on_new_connection(&mut self, context_id: u32) -> (r: Result<Action, DispatchError>)
        ensures
            outcome(r, context_event_error(old(self)@, context_id, Some(ContextKind::Stream))),
            final(self)@ == after_context_event(old(self)@, context_id, Some(ContextKind::Stream)),
            r is Ok ==> final(self).last_call() == Some(HandlerCall::NewConnection),
            r is Err ==> final(self).last_call() == old(self).last_call(),
    {
        let ghost s0 = self@;
        match self.checkout(context_id, Some(ContextKind::Stream)) {
            Some(Instance::Stream(mut stream)) => {
                self.last_call = Some(HandlerCall::NewConnection);
                let result = stream.on_new_connection();
                self.checkin(context_id, Instance::Stream(stream));
                assert(self@.instances =~= s0.instances);
                Ok(result)
            },
            Some(other) => {
                self.checkin(context_id, other);
                Err(DispatchError::UnknownContextId)
            },
            None => Err(DispatchError::UnknownContextId),
        }
    }

    /// Runs `on_downstream_data` of the live stream instance `context_id`.
    pub fn on_downstream_data(&mut self, context_id: u32, data_size: usize, end_of_stream: bool) -> (r: Result<Action, DispatchError>)
        ensures
            outcome(r, context_event_error(old(self)@, context_id, Some(ContextKind::Stream))),
            final(self)@ == after_context_event(old(self)@, context_id, Some(ContextKind::Stream)),
            r is Ok ==> final(self).last_call() == Some(HandlerCall::DownstreamData { data_size, end_of_stream }),
            r is Err ==> final(self).last_call() == old(self).last_call(),
    {
        let ghost s0 = self@;
        match self.checkout(context_id, Some(ContextKind::Stream)) {
            Some(Instance::Stream(mut stream)) => {
                self.last_call = Some(HandlerCall::DownstreamData { data_size, end_of_stream });
                let result = stream.on_downstream_data(data_size, end_of_stream);
                self.checkin(context_id, Instance::Stream(stream));
                assert(self@.instances =~= s0.instances);
                Ok(result)
            },
            Some(other) => {
                self.checkin(context_id, other);
                Err(DispatchError::UnknownContextId)
            },
            None => Err(DispatchError::UnknownContextId),
        }
    }

    /// Runs `on_downstream_close` of the live stream instance `context_id`.
    pub fn on_downstream_close(&mut self, context_id: u32, peer_type: PeerType) -> (r: Result<(), DispatchError>)
        ensures
            outcome(r, context_event_error(old(self)@, context_id, Some(ContextKind::Stream))),
            final(self)@ == after_context_event(old(self)@, context_id, Some(ContextKind::Stream)),
            r is Ok ==> final(self).last_call() == Some(HandlerCall::DownstreamClose { peer_type }),
            r is Err ==> final(self).last_call() == old(self).last_call(),
    {
        let ghost s0 = self@;
        match self.checkout(context_id, Some(ContextKind::Stream)) {
            Some(Instance::Stream(mut stream)) => {
                self.last_call = Some(HandlerCall::DownstreamClose { peer_type });
                let result = stream.on_downstream_close(peer_type);
                self.checkin(context_id, Instance::Stream(stream));
                assert(self@.instances =~= s0.instances);
                Ok(result)
            },
            Some(other) => {
                self.checkin(context_id, other);
                Err(DispatchError::UnknownContextId)
            },
            None => Err(DispatchError::UnknownContextId),
        }
    }

    /// Runs `on_upstream_data` of the live stream instance `context_id`.
    pub fn on_upstream_data(&mut self, context_id: u32, data_size: usize, end_of_stream: bool) -> (r: Result<Action, DispatchError>)
        ensures
            outcome(r, context_event_error(old(self)@, context_id, Some(ContextKind::Stream))),
            final(self)@ == after_context_event(old(self)@, context_id, Some(ContextKind::Stream)),
            r is Ok ==> final(self).last_call() == Some(HandlerCall::UpstreamData { data_size, end_of_stream }),
            r is Err ==> final(self).last_call() == old(self).last_call(),
    {
        let ghost s0 = self@;
        match self.checkout(context_id, Some(ContextKind::Stream)) {
            Some(Instance::Stream(mut stream)) => {
                self.last_call = Some(HandlerCall::UpstreamData { data_size, end_of_stream });
                let result = stream.on_upstream_data(data_size, end_of_stream);
                self.checkin(context_id, Instance::Stream(stream));
                assert(self@.instances =~= s0.instances);
                Ok(result)
            },
            Some(other) => {
                self.checkin(context_id, other);
                Err(DispatchError::UnknownContextId)
            },
            None => Err(DispatchError::UnknownContextId),
        }
    }

    /// Runs `on_upstream_close` of the live stream instance `context_id`.
    pub fn on_upstream_close(&mut self, context_id: u32, peer_type: PeerType) -> (r: Result<(), DispatchError>)
        ensures
            outcome(r, context_event_error(old(self)@, context_id, Some(ContextKind::Stream))),
            final(self)@ == after_context_event(old(self)@, context_id, Some(ContextKind::Stream)),
            r is Ok ==> final(self).last_call() == Some(HandlerCall::UpstreamClose { peer_type }),
            r is Err ==> final(self).last_call() == old(self).last_call(),
    {
        let ghost s0 = self@;
        match self.checkout(context_id, Some(ContextKind::Stream)) {
            Some(Instance::Stream(mut stream)) => {
                self.last_call = Some(HandlerCall::UpstreamClose { peer_type });
                let result = stream.on_upstream_close(peer_type);
                self.checkin(context_id, Instance::Stream(stream));
                assert(self@.instances =~= s0.instances);
                Ok(result)
            },
            Some(other) => {
                self.checkin(context_id, other);
                Err(DispatchError::UnknownContextId)
            },
            None => Err(DispatchError::UnknownContextId),
        }
    }

    /// Runs `on_http_request_headers` of the live HTTP instance `context_id`.
    pub fn on_http_request_headers(&mut self, context_id: u32, num_headers: usize, end_of_stream: bool) -> (r: Result<Action, DispatchError>)
        ensures
            outcome(r, context_event_error(old(self)@, context_id, Some(ContextKind::Http))),
            final(self)@ == after_context_event(old(self)@, context_id, Some(ContextKind::Http)),
            r is Ok ==> final(self).last_call() == Some(HandlerCall::RequestHeaders { num_headers, end_of_stream }),
            r is Err ==> final(self).last_call() == old(self).last_call(),
    {
        let ghost s0 = self@;
        match self.checkout(context_id, Some(ContextKind::Http)) {
            Some(Instance::Http(mut http)) => {
                self.last_call = Some(HandlerCall::RequestHeaders { num_headers, end_of_stream });
                let result = http.on_http_request_headers(num_headers, end_of_stream);
                self.checkin(context_id, Instance::Http(http));
                assert(self@.instances =~= s0.instances);
                Ok(result)
            },
            Some(other) => {
                self.checkin(context_id, other);
                Err(DispatchError::UnknownContextId)
            },
            None => Err(DispatchError::UnknownContextId),
        }
    }

    /// Runs `on_http_request_body` of the live HTTP instance `context_id`.
    pub fn on_http_request_body(&mut self, context_id: u32, body_size: usize, end_of_stream: bool) -> (r: Result<Action, DispatchError>)
        ensures
            outcome(r, context_event_error(old(self)@, context_id, Some(ContextKind::Http))),
            final(self)@ == after_context_event(old(self)@, context_id, Some(ContextKind::Http)),
            r is Ok ==> final(self).last_call() == Some(HandlerCall::RequestBody { body_size, end_of_stream }),
            r is Err ==> final(self).last_call() == old(self).last_call(),
    {
        let ghost s0 = self@;
        match self.checkout(context_id, Some(ContextKind::Http)) {
            Some(Instance::Http(mut http)) => {
                self.last_call = Some(HandlerCall::RequestBody { body_size, end_of_stream });
                let result = http.on_http_request_body(body_size, end_of_stream);
                self.checkin(context_id, Instance::Http(http));
                assert(self@.instances =~= s0.instances);
                Ok(result)
            },
            Some(other) => {
                self.checkin(context_id, other);
                Err(DispatchError::UnknownContextId)
            },
            None => Err(DispatchError::UnknownContextId),
        }
    }

    /// Runs `on_http_request_trailers` of the live HTTP instance `context_id`.
    pub fn on_http_request_trailers(&mut self, context_id: u32, num_trailers: usize) -> (r: Result<Action, DispatchError>)
        ensures
            outcome(r, context_event_error(old(self)@, context_id, Some(ContextKind::Http))),
            final(self)@ == after_context_event(old(self)@, context_id, Some(ContextKind::Http)),
            r is Ok ==> final(self).last_call() == Some(HandlerCall::RequestTrailers { num_trailers }),
            r is Err ==> final(self).last_call() == old(self).last_call(),
    {
        let ghost s0 = self@;
        match self.checkout(context_id, Some(ContextKind::Http)) {
            Some(Instance::Http(mut http)) => {
                self.last_call = Some(HandlerCall::RequestTrailers { num_trailers });
                let result = http.on_http_request_trailers(num_trailers);
                self.checkin(context_id, Instance::Http(http));
                assert(self@.instances =~= s0.instances);
                Ok(result)
            },
            Some(other) => {
                self.checkin(context_id, other);
                Err(DispatchError::UnknownContextId)
            },
            None => Err(DispatchError::UnknownContextId),
        }
    }

    /// Runs `on_http_response_headers` of the live HTTP instance `context_id`.
    pub fn on_http_response_headers(&mut self, context_id: u32, num_headers: usize, end_of_stream: bool) -> (r: Result<Action, DispatchError>)
        ensures
            outcome(r, context_event_error(old(self)@, context_id, Some(ContextKind::Http))),
            final(self)@ == after_context_event(old(self)@, context_id, Some(ContextKind::Http)),
            r is Ok ==> final(self).last_call() == Some(HandlerCall::ResponseHeaders { num_headers, end_of_stream }),
            r is Err ==> final(self).last_call() == old(self).last_call(),
    {
        let ghost s0 = self@;
        match self.checkout(context_id, Some(ContextKind::Http)) {
            Some(Instance::Http(mut http)) => {
                self.last_call = Some(HandlerCall::ResponseHeaders { num_headers, end_of_stream });
                let result = http.on_http_response_headers(num_headers, end_of_stream);
                self.checkin(context_id, Instance::Http(http));
                assert(self@.instances =~= s0.instances);
                Ok(result)
            },
            Some(other) => {
                self.checkin(context_id, other);
                Err(DispatchError::UnknownContextId)
            },
            None => Err(DispatchError::UnknownContextId),
        }
    }

    /// Runs `on_http_response_body` of the live HTTP instance `context_id`.
    pub fn on_http_response_body(&mut self, context_id: u32, body_size: usize, end_of_stream: bool) -> (r: Result<Action, DispatchError>)
        ensures
            outcome(r, context_event_error(old(self)@, context_id, Some(ContextKind::Http))),
            final(self)@ == after_context_event(old(self)@, context_id, Some(ContextKind::Http)),
            r is Ok ==> final(self).last_call() == Some(HandlerCall::ResponseBody { body_size, end_of_stream }),
            r is Err ==> final(self).last_call() == old(self).last_call(),
    {
        let ghost s0 = self@;
        match self.checkout(context_id, Some(ContextKind::Http)) {
            Some(Instance::Http(mut http)) => {
                self.last_call = Some(HandlerCall::ResponseBody { body_size, end_of_stream });
                let result = http.on_http_response_body(body_size, end_of_stream);
                self.checkin(context_id, Instance::Http(http));
                assert(self@.instances =~= s0.instances);
                Ok(result)
            },
            Some(other) => {
                self.checkin(context_id, other);
                Err(DispatchError::UnknownContextId)
            },
            None => Err(DispatchError::UnknownContextId),
        }
    }

    /// Runs `on_http_response_trailers` of the live HTTP instance `context_id`.
    pub fn on_http_response_trailers(&mut self, context_id: u32, num_trailers: usize) -> (r: Result<Action, DispatchError>)
        ensures
            outcome(r, context_event_error(old(self)@, context_id, Some(ContextKind::Http))),
            final(self)@ == after_context_event(old(self)@, context_id, Some(ContextKind::Http)),
            r is Ok ==> final(self).last_call() == Some(HandlerCall::ResponseTrailers { num_trailers }),
            r is Err ==> final(self).last_call() == old(self).last_call(),
    {
        let ghost s0 = self@;
        match self.checkout(context_id, Some(ContextKind::Http)) {
            Some(Instance::Http(mut http)) => {
                self.last_call = Some(HandlerCall::ResponseTrailers { num_trailers });
                let result = http.on_http_response_trailers(num_trailers);
                self.checkin(context_id, Instance::Http(http));
                assert(self@.instances =~= s0.instances);
                Ok(result)
            },
            Some(other) => {
                self.checkin(context_id, other);
                Err(DispatchError::UnknownContextId)
            },
            None => Err(DispatchError::UnknownContextId),
        }
    }
    /// Runs `on_done` of the live instance `context_id`, whatever its variant.
    pub fn on_done(&mut self, context_id: u32) -> (r: Result<bool, DispatchError>)
        ensures
            outcome(r, context_event_error(old(self)@, context_id, None)),
            final(self)@ == after_context_event(old(self)@, context_id, None),
            r is Ok ==> final(self).last_call() == Some(HandlerCall::Done),
            r is Err ==> final(self).last_call() == old(self).last_call(),
    {
        let ghost s0 = self@;
        let done = match self.checkout(context_id, None) {
            Some(Instance::Root(mut root)) => {
                self.last_call = Some(HandlerCall::Done);
                let done = root.on_done();
                self.checkin(context_id, Instance::Root(root));
                done
            },
            Some(Instance::Stream(mut stream)) => {
                self.last_call = Some(HandlerCall::Done);
                let done = stream.on_done();
                self.checkin(context_id, Instance::Stream(stream));
                done
            },
            Some(Instance::Http(mut http)) => {
                self.last_call = Some(HandlerCall::Done);
                let done = http.on_done();
                self.checkin(context_id, Instance::Http(http));
                done
            },
            None => {
                return Err(DispatchError::UnknownContextId);
            },
        };
        assert(self@.instances =~= s0.instances);
        Ok(done)
    }

    /// Runs `on_log` of the live instance `context_id`, whatever its variant.
    pub fn on_log(&mut self, context_id: u32) -> (r: Result<(), DispatchError>)
        ensures
            outcome(r, context_event_error(old(self)@, context_id, None)),
            final(self)@ == after_context_event(old(self)@, context_id, None),
            r is Ok ==> final(self).last_call() == Some(HandlerCall::Log),
            r is Err ==> final(self).last_call() == old(self).last_call(),
    {
        let ghost s0 = self@;
        match self.checkout(context_id, None) {
            Some(Instance::Root(mut root)) => {
                self.last_call = Some(HandlerCall::Log);
                root.on_log();
                self.checkin(context_id, Instance::Root(root));
            },
            Some(Instance::Stream(mut stream)) => {
                self.last_call = Some(HandlerCall::Log);
                stream.on_log();
                self.checkin(context_id, Instance::Stream(stream));
            },
            Some(Instance::Http(mut http)) => {
                self.last_call = Some(HandlerCall::Log);
                http.on_log();
                self.checkin(context_id, Instance::Http(http));
            },
            None => {
                return Err(DispatchError::UnknownContextId);
            },
        }
        assert(self@.instances =~= s0.instances);
        Ok(())
    }

    /// Runs `on_foreign_function` of the live instance `context_id`.
    pub fn on_foreign_function(&mut self, context_id: u32, function_id: u32, arguments_size: usize) -> (r: Result<(), DispatchError>)
        ensures
            outcome(r, context_event_error(old(self)@, context_id, None)),
            final(self)@ == after_context_event(old(self)@, context_id, None),
            r is Ok ==> final(self).last_call() == Some(
                HandlerCall::ForeignFunction { function_id, arguments_size },
            ),
            r is Err ==> final(self).last_call() == old(self).last_call(),
    {
        self.deliver(context_id, HandlerCall::ForeignFunction { function_id, arguments_size })
    }

    /// Delivers an HTTP callout's completion to the instance that issued it,
    /// consuming the token.
    pub fn on_http_call_response(
        &mut self,
        token_id: u32,
        num_headers: usize,
        body_size: usize,
        num_trailers: usize,
    ) -> (r: Result<(), DispatchError>)
        ensures
            outcome(r, http_call_response_error(old(self)@, token_id)),
            final(self)@ == after_http_call_response(old(self)@, token_id),
            r is Ok ==> final(self).last_call() == Some(
                HandlerCall::HttpCallResponse { token: token_id, num_headers, body_size, num_trailers },
            ),
            r is Err ==> final(self).last_call() == old(self).last_call(),
    {
        let ghost s0 = self@;
        match self.callouts.remove(token_id) {
            Some(context_id) => self.deliver(
                context_id,
                HandlerCall::HttpCallResponse { token: token_id, num_headers, body_size, num_trailers },
            ),
            None => {
                assert(self@.callouts =~= s0.callouts);
                Err(DispatchError::UnknownToken)
            },
        }
    }

    /// Delivers a gRPC stream's initial metadata; the token stays.
    pub fn on_grpc_receive_initial_metadata(&mut self, token_id: u32, headers: u32) -> (r: Result<(), DispatchError>)
        ensures
            outcome(r, grpc_metadata_error(old(self)@, token_id)),
            final(self)@ == after_grpc_metadata(old(self)@, token_id),
            r is Ok ==> final(self).last_call() == Some(
                HandlerCall::GrpcStreamInitialMetadata { token: token_id, num_elements: headers },
            ),
            r is Err ==> final(self).last_call() == old(self).last_call(),
    {
        match self.grpc_streams.get(token_id) {
            Some(context_id) => self.deliver(
                context_id,
                HandlerCall::GrpcStreamInitialMetadata { token: token_id, num_elements: headers },
            ),
            None => Err(DispatchError::UnknownToken),
        }
    }

    /// Delivers a gRPC message: the response of a unary call, which consumes
    /// its token, or a message of a stream, whose token stays.
    pub fn on_grpc_receive(&mut self, token_id: u32, response_size: usize) -> (r: Result<(), DispatchError>)
        ensures
            outcome(r, grpc_event_error(old(self)@, token_id)),
            final(self)@ == after_grpc_receive(old(self)@, token_id),
            r is Ok ==> final(self).last_call() == Some(
                grpc_message(old(self)@.grpc_callouts.contains_key(token_id), token_id, response_size),
            ),
            r is Err ==> final(self).last_call() == old(self).last_call(),
    {
        let ghost s0 = self@;
        match self.grpc_callouts.remove(token_id) {
            Some(context_id) => self.deliver(
                context_id,
                grpc_message_call(true, token_id, response_size),
            ),
            None => match self.grpc_streams.get(token_id) {
                Some(context_id) => self.deliver(
                    context_id,
                    grpc_message_call(false, token_id, response_size),
                ),
                None => {
                    assert(self@.grpc_callouts =~= s0.grpc_callouts);
                    Err(DispatchError::UnknownToken)
                },
            },
        }
    }

    /// Delivers a gRPC stream's trailing metadata; the token stays.
    pub fn on_grpc_receive_trailing_metadata(&mut self, token_id: u32, trailers: u32) -> (r: Result<(), DispatchError>)
        ensures
            outcome(r, grpc_metadata_error(old(self)@, token_id)),
            final(self)@ == after_grpc_metadata(old(self)@, token_id),
            r is Ok ==> final(self).last_call() == Some(
                HandlerCall::GrpcStreamTrailingMetadata { token: token_id, num_elements: trailers },
            ),
            r is Err ==> final(self).last_call() == old(self).last_call(),
    {
        match self.grpc_streams.get(token_id) {
            Some(context_id) => self.deliver(
                context_id,
                HandlerCall::GrpcStreamTrailingMetadata { token: token_id, num_elements: trailers },
            ),
            None => Err(DispatchError::UnknownToken),
        }
    }

    /// Delivers the close of a gRPC unary call or stream, consuming its token.
    pub fn on_grpc_close(&mut self, token_id: u32, status_code: u32) -> (r: Result<(), DispatchError>)
        ensures
            outcome(r, grpc_event_error(old(self)@, token_id)),
            final(self)@ == after_grpc_close(old(self)@, token_id),
            r is Ok ==> final(self).last_call() == Some(
                grpc_close(old(self)@.grpc_callouts.contains_key(token_id), token_id, status_code),
            ),
            r is Err ==> final(self).last_call() == old(self).last_call(),
    {
        let ghost s0 = self@;
        match self.grpc_callouts.remove(token_id) {
            Some(context_id) => self.deliver(
                context_id,
                grpc_close_call(true, token_id, status_code),
            ),
            None => {
                assert(self@.grpc_callouts =~= s0.grpc_callouts);
                match self.grpc_streams.remove(token_id) {
                    Some(context_id) => self.deliver(
                        context_id,
                        grpc_close_call(false, token_id, status_code),
                    ),
                    None => {
                        assert(self@.grpc_streams =~= s0.grpc_streams);
                        Err(DispatchError::UnknownToken)
                    },
                }
            },
        }
    }

    /// Runs the completion handler of instance `id`, whatever its variant.
    fn deliver(&mut self, id: u32, c: HandlerCall) -> (r: Result<(), DispatchError>)
        ensures
            final(self)@ == deliver_to(old(self)@, id),
            outcome(r, delivery_error(old(self)@, id)),
            r is Ok ==> final(self).last_call() == Some(c),
            r is Err ==> final(self).last_call() == old(self).last_call(),
    {
        let ghost s0 = self@;
        let recorded = self.checkout(id, None);
        if recorded.is_some() {
            self.last_call = Some(c);
        }
        match recorded {
            Some(Instance::Root(mut root)) => {
                complete_root(&mut root, c);
                self.checkin(id, Instance::Root(root));
            },
            Some(Instance::Stream(mut stream)) => {
                complete_stream(&mut stream, c);
                self.checkin(id, Instance::Stream(stream));
            },
            Some(Instance::Http(mut http)) => {
                complete_http(&mut http, c);
                self.checkin(id, Instance::Http(http));
            },
            None => {
                return Err(DispatchError::UnknownContextId);
            },
        }
        assert(self@.instances =~= s0.instances);
        Ok(())
    }
}

/// The ids live as instances of variant `kind`.
pub open spec fn live_ids(s: DispatcherView, kind: ContextKind) -> Set<u32> {
    Set::new(|id: u32| s.instances.contains_key(id) && s.instances[id] == kind)
}

/// Creating an id that is already live fails with `DuplicateId`, whichever
/// variant holds it and whichever is asked for, once the parent (if any) is a
/// live root. Every failed creation leaves the view as it was.
pub proof fn lemma_duplicate_id_rejected(
    s: DispatcherView,
    id: u32,
    kind: ContextKind,
    parent: Option<u32>,
)
    requires
        parent matches Some(p) ==> is_live_root(with_instance(s, id, kind), p),
    ensures
        creation_error(with_instance(s, id, kind), id, parent) == Some(DispatchError::DuplicateId),
{
}

/// Each live id is in exactly one of the three variant sets, and the three
/// together are the live ids.
pub proof fn lemma_variant_exclusive(s: DispatcherView, id: u32)
    ensures
        s.instances.contains_key(id) <==> (live_ids(s, ContextKind::Root).contains(id) || live_ids(
            s,
            ContextKind::Stream,
        ).contains(id) || live_ids(s, ContextKind::Http).contains(id)),
        !(live_ids(s, ContextKind::Root).contains(id) && live_ids(s, ContextKind::Stream).contains(
            id,
        )),
        !(live_ids(s, ContextKind::Root).contains(id) && live_ids(s, ContextKind::Http).contains(
            id,
        )),
        !(live_ids(s, ContextKind::Stream).contains(id) && live_ids(s, ContextKind::Http).contains(
            id,
        )),
{
}

/// A child creation fails with `UnknownParent` exactly when the parent is not
/// a live root.
pub proof fn lemma_unknown_parent(s: DispatcherView, id: u32, parent: u32)
    ensures
        (creation_error(s, id, Some(parent)) == Some(DispatchError::UnknownParent))
            <==> !is_live_root(s, parent),
{
}

/// The first completion of an HTTP callout consumes its token: a second one
/// fails with `UnknownToken`.
pub proof fn lemma_http_call_token_single_shot(s: DispatcherView, token: u32)
    requires
        s.callouts.contains_key(token),
    ensures
        !after_http_call_response(s, token).callouts.contains_key(token),
        http_call_response_error(after_http_call_response(s, token), token) == Some(
            DispatchError::UnknownToken,
        ),
{
}

/// The first message or close of a unary gRPC call consumes its token: any
/// later message or close fails with `UnknownToken`.
pub proof fn lemma_grpc_call_token_single_shot(s: DispatcherView, token: u32)
    requires
        s.grpc_callouts.contains_key(token),
        !s.grpc_streams.contains_key(token),
    ensures
        grpc_event_error(after_grpc_receive(s, token), token) == Some(DispatchError::UnknownToken),
        grpc_event_error(after_grpc_close(s, token), token) == Some(DispatchError::UnknownToken),
{
}

/// A gRPC stream's token survives its messages and metadata and is consumed by
/// its close.
pub proof fn lemma_grpc_stream_token_lifecycle(s: DispatcherView, token: u32)
    requires
        s.grpc_streams.contains_key(token),
        !s.grpc_callouts.contains_key(token),
    ensures
        after_grpc_receive(s, token).grpc_streams == s.grpc_streams,
        after_grpc_metadata(s, token).grpc_streams == s.grpc_streams,
        grpc_event_error(after_grpc_receive(s, token), token) == grpc_event_error(s, token),
        grpc_metadata_error(after_grpc_metadata(s, token), token) == grpc_metadata_error(s, token),
        !after_grpc_close(s, token).grpc_streams.contains_key(token),
        grpc_event_error(after_grpc_close(s, token), token) == Some(DispatchError::UnknownToken),
{
}

/// When an event for instance `id` is accepted, the cursor is at `id` while
/// its handler runs, so an out-call issued there is correlated with `id`.
pub proof fn lemma_cursor_at_dispatched_instance(
    s: DispatcherView,
    id: u32,
    kind: Option<ContextKind>,
    token: u32,
)
    requires
        context_event_error(s, id, kind) is None,
    ensures
        after_context_event(s, id, kind).active_id == id,
        after_register_callout(after_context_event(s, id, kind), token).callouts[token] == id,
        after_register_grpc_callout(after_context_event(s, id, kind), token).grpc_callouts[token]
            == id,
        after_register_grpc_stream(after_context_event(s, id, kind), token).grpc_streams[token]
            == id,
{
}

/// A delivered completion moves the cursor to the instance that issued the
/// out-call.
pub proof fn lemma_cursor_at_token_owner(s: DispatcherView, token: u32)
    ensures
        http_call_response_error(s, token) is None ==> after_http_call_response(s, token).active_id
            == s.callouts[token],
        grpc_event_error(s, token) is None && s.grpc_callouts.contains_key(token) ==> (
        after_grpc_receive(s, token).active_id == s.grpc_callouts[token] && after_grpc_close(
            s,
            token,
        ).active_id == s.grpc_callouts[token]),
        grpc_event_error(s, token) is None && !s.grpc_callouts.contains_key(token) ==> (
        after_grpc_receive(s, token).active_id == s.grpc_streams[token] && after_grpc_close(
            s,
            token,
        ).active_id == s.grpc_streams[token]),
        grpc_metadata_error(s, token) is None ==> after_grpc_metadata(s, token).active_id
            == s.grpc_streams[token],
{
}

/// What the host receives from a data handler: its action, or `Continue` when
/// the event could not be dispatched.
pub fn action_or_continue(r: Result<Action, DispatchError>) -> (a: Action)
    ensures
        a == match r {
            Ok(x) => x,
            Err(_) => Action::Continue,
        },
{
    match r {
        Ok(x) => x,
        Err(_) => Action::Continue,
    }
}

/// What the host receives from a lifecycle handler that answers with a flag:
/// the flag, or `true` when the event could not be dispatched.
pub fn flag_or_true(r: Result<bool, DispatchError>) -> (b: bool)
    ensures
        b == match r {
            Ok(x) => x,
            Err(_) => true,
        },
{
    match r {
        Ok(x) => x,
        Err(_) => true,
    }
}

} // verus!
