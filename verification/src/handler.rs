//! Handlers, and the one call signature that the router sees.
//!
//! A handler starts the work of one call and hands back a pending result of
//! type `P`, which the caller completes outside the router. The router never
//! looks into a pending result.

use vstd::prelude::*;
use std::sync::Arc;
use crate::json::JsonObject;

verus! {

/// One incoming call: the tool it targets, the service it runs against, and
/// the raw arguments.
pub struct ToolCallContext<'a, S> {
    /// The shared application state that the call runs against.
    pub service: &'a S,
    /// The name of the tool to call.
    pub name: String,
    /// The arguments of the call, not yet interpreted.
    pub arguments: Option<JsonObject>,
}

impl<'a, S> ToolCallContext<'a, S> {
    /// The context of a call of `name` against `service` with `arguments`.
    pub fn new(service: &'a S, name: String, arguments: Option<JsonObject>) -> (context: Self)
        ensures
            context.service == service,
            context.name == name,
            context.arguments == arguments,
    {
        ToolCallContext { service, name, arguments }
    }

    /// The name of the tool that the call targets.
    pub fn name(&self) -> (name: &str)
        ensures
            name@ == self.name@,
    {
        self.name.as_str()
    }
}

/// A handler that takes the whole context of a call and interprets the
/// arguments itself, decoding them into the input that it expects.
pub trait CallToolHandler<S, P>: Send + Sync {
    /// Whether `pending` is a result that this handler may give for `context`.
    /// A handler that states nothing of its results leaves this as it is.
    open spec fn outcome(&self, context: ToolCallContext<'_, S>, pending: P) -> bool {
        true
    }

    /// Starts the call.
    fn call(&self, context: ToolCallContext<'_, S>) -> (pending: P)
        ensures
            self.outcome(context, pending),
    ;
}

/// A handler for a tool that is registered at run time. It gets the service
/// and the raw arguments, and is alone responsible for interpreting them.
pub trait DynamicToolHandler<S, P>: Send + Sync {
    /// Whether `pending` is a result that this handler may give for these
    /// inputs. A handler that states nothing of its results leaves this as it
    /// is.
    open spec fn outcome(&self, service: &S, params: Option<JsonObject>, pending: P) -> bool {
        true
    }

    /// Starts the tool on `params` against `service`.
    fn call(&self, service: &S, params: Option<JsonObject>) -> (pending: P)
        ensures
            self.outcome(service, params, pending),
    ;
}



/// A shared typed handler is a typed handler: the call goes to the value
/// behind the pointer.
impl<S, P, H: CallToolHandler<S, P> + ?Sized> CallToolHandler<S, P> for Arc<H> {
    open spec fn outcome(&self, context: ToolCallContext<'_, S>, pending: P) -> bool {
        (**self).outcome(context, pending)
    }

    fn call(&self, context: ToolCallContext<'_, S>) -> (pending: P) {
        (**self).call(context)
    }
}

/// A shared dynamic handler is a dynamic handler: the call goes to the value
/// behind the pointer.
impl<S, P, H: DynamicToolHandler<S, P> + ?Sized> DynamicToolHandler<S, P> for Arc<H> {
    open spec fn outcome(&self, service: &S, params: Option<JsonObject>, pending: P) -> bool {
        (**self).outcome(service, params, pending)
    }

    fn call(&self, service: &S, params: Option<JsonObject>) -> (pending: P) {
        (**self).call(service, params)
    }
}

/// The two shapes of handler behind one call signature.
#[derive(Debug)]
pub enum ToolHandler<T, D> {
    /// A handler that decodes the arguments itself.
    Typed(T),
    /// A handler registered at run time, which gets the raw arguments.
    Dynamic(D),
}

impl<T, D> ToolHandler<T, D> {
    /// Whether `pending` is a result that the handler may give for `context`.
    /// A typed handler gets the context as it is; a dynamic handler gets the
    /// context's service and arguments, unchanged.
    pub open spec fn outcome<S, P>(&self, context: ToolCallContext<'_, S>, pending: P) -> bool where
        T: CallToolHandler<S, P>,
        D: DynamicToolHandler<S, P>,
     {
        match self {
            ToolHandler::Typed(handler) => handler.outcome(context, pending),
            ToolHandler::Dynamic(handler) => handler.outcome(
                context.service,
                context.arguments,
                pending,
            ),
        }
    }

    /// Starts the call that `context` describes.
    pub fn invoke<S, P>(&self, context: ToolCallContext<'_, S>) -> (pending: P) where
        T: CallToolHandler<S, P>,
        D: DynamicToolHandler<S, P>,

        ensures
            self.outcome(context, pending),
    {
        match self {
            ToolHandler::Typed(handler) => handler.call(context),
            ToolHandler::Dynamic(handler) => handler.call(context.service, context.arguments),
        }
    }
}

impl<T: Clone, D: Clone> Clone for ToolHandler<T, D> {
    fn clone(&self) -> (copy: Self)
        ensures
            match (*self, copy) {
                (ToolHandler::Typed(a), ToolHandler::Typed(b)) => cloned(a, b),
                (ToolHandler::Dynamic(a), ToolHandler::Dynamic(b)) => cloned(a, b),
                _ => false,
            },
    {
        match self {
            ToolHandler::Typed(handler) => ToolHandler::Typed(handler.clone()),
            ToolHandler::Dynamic(handler) => ToolHandler::Dynamic(handler.clone()),
        }
    }
}

} // verus!
