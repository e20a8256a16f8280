//! Event dispatch and out-call correlation for proxy extensions.
pub mod dispatcher;
pub mod http_client;
pub mod maps;
pub mod promise;
pub mod stats;
pub mod table;
pub mod traits;
pub mod types;

use dispatcher::Dispatcher;
use traits::{NewHttpContext, NewRootContext, NewStreamContext};
use vstd::prelude::*;

verus! {

/// Registers the factory of root instances with `dispatcher`.
pub fn set_root_context(dispatcher: &mut Dispatcher, callback: Box<dyn NewRootContext>)
    ensures
        final(dispatcher)@ == (dispatcher::DispatcherView { root_factory: true, ..old(dispatcher)@ }),
{
    dispatcher.set_root_context(callback);
}

/// Registers the factory of stream instances with `dispatcher`.
pub fn set_stream_context(dispatcher: &mut Dispatcher, callback: Box<dyn NewStreamContext>)
    ensures
        final(dispatcher)@ == (dispatcher::DispatcherView {
            stream_factory: true,
            ..old(dispatcher)@
        }),
{
    dispatcher.set_stream_context(callback);
}

/// Registers the factory of HTTP instances with `dispatcher`.
pub fn set_http_context(dispatcher: &mut Dispatcher, callback: Box<dyn NewHttpContext>)
    ensures
        final(dispatcher)@ == (dispatcher::DispatcherView { http_factory: true, ..old(dispatcher)@ }),
{
    dispatcher.set_http_context(callback);
}

} // verus!
