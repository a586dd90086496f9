//! The typed shape of handler: a tool that expects an input of its own type,
//! together with the way to decode that input from the raw arguments.

use vstd::prelude::*;
use std::sync::Arc;
use crate::handler::{CallToolHandler, ToolCallContext};
use crate::json::JsonObject;
use crate::model::{ErrorData, INVALID_PARAMS};

verus! {

/// A way to decode the raw arguments of a call into the input that a tool
/// expects.
pub trait ArgumentExtractor: Send + Sync {
    /// What the arguments are decoded into.
    type Input;

    /// Whether `decoded` is what the arguments may be decoded into. An
    /// extractor that states nothing of its results leaves this as it is.
    open spec fn extracts(
        &self,
        arguments: Option<JsonObject>,
        decoded: Result<Self::Input, String>,
    ) -> bool {
        true
    }

    /// Decodes the arguments, or says why they cannot be decoded.
    fn extract(&self, arguments: Option<JsonObject>) -> (decoded: Result<Self::Input, String>)
        ensures
            self.extracts(arguments, decoded),
    ;
}

/// A tool that takes an input of type `I`.
pub trait TypedTool<S, I, P>: Send + Sync {
    /// Whether `pending` is a result that the tool may give for this input.
    /// A tool that states nothing of its results leaves this as it is.
    open spec fn outcome(&self, service: &S, input: I, pending: P) -> bool {
        true
    }

    /// Starts the tool on `input` against `service`.
    fn call(&self, service: &S, input: I) -> (pending: P)
        ensures
            self.outcome(service, input, pending),
    ;
}

/// A way to hand back an error that is known before any tool has started, in
/// the form of a pending result.
pub trait Rejection<P>: Send + Sync {
    /// Whether `pending` may stand for `error`. A rejection that states
    /// nothing of its results leaves this as it is.
    open spec fn rejected(&self, error: ErrorData, pending: P) -> bool {
        true
    }

    /// The pending result that stands for `error`.
    fn reject(&self, error: ErrorData) -> (pending: P)
        ensures
            self.rejected(error, pending),
    ;
}

/// A shared extractor is an extractor: the work goes to the value behind the
/// pointer.
impl<H: ArgumentExtractor + ?Sized> ArgumentExtractor for Arc<H> {
    type Input = H::Input;

    open spec fn extracts(
        &self,
        arguments: Option<JsonObject>,
        decoded: Result<Self::Input, String>,
    ) -> bool {
        (**self).extracts(arguments, decoded)
    }

    fn extract(&self, arguments: Option<JsonObject>) -> (decoded: Result<Self::Input, String>) {
        (**self).extract(arguments)
    }
}

/// A shared typed tool is a typed tool: the call goes to the value behind the
/// pointer.
impl<S, I, P, H: TypedTool<S, I, P> + ?Sized> TypedTool<S, I, P> for Arc<H> {
    open spec fn outcome(&self, service: &S, input: I, pending: P) -> bool {
        (**self).outcome(service, input, pending)
    }

    fn call(&self, service: &S, input: I) -> (pending: P) {
        (**self).call(service, input)
    }
}

/// A shared rejection is a rejection: the work goes to the value behind the
/// pointer.
impl<P, H: Rejection<P> + ?Sized> Rejection<P> for Arc<H> {
    open spec fn rejected(&self, error: ErrorData, pending: P) -> bool {
        (**self).rejected(error, pending)
    }

    fn reject(&self, error: ErrorData) -> (pending: P) {
        (**self).reject(error)
    }
}

/// Whether `error` says that the parameters of a call are not acceptable, for
/// the given reason and without further data.
pub open spec fn is_invalid_params(error: ErrorData, reason: Seq<char>) -> bool {
    &&& error.code == INVALID_PARAMS
    &&& error.message@ == reason
    &&& error.data.is_none()
}

/// A typed tool behind the call signature of the router.
///
/// At each call the arguments are decoded first. Where that fails the tool is
/// not started, and the call is answered with an "invalid parameters" error
/// that holds the reason. Otherwise the tool gets the service and the decoded
/// input, and its result is the result of the call.
#[derive(Debug)]
pub struct TypedAdapter<F, E, R> {
    /// The tool.
    pub tool: F,
    /// How the arguments are decoded.
    pub extractor: E,
    /// How an error is handed back.
    pub rejection: R,
}

impl<S, P, F, E, R> CallToolHandler<S, P> for TypedAdapter<F, E, R> where
    E: ArgumentExtractor,
    F: TypedTool<S, E::Input, P>,
    R: Rejection<P>,
 {
    open spec fn outcome(&self, context: ToolCallContext<'_, S>, pending: P) -> bool {
        exists|decoded: Result<E::Input, String>| #[trigger]
            self.extractor.extracts(context.arguments, decoded) && match decoded {
                Ok(input) => self.tool.outcome(context.service, input, pending),
                Err(reason) => exists|error: ErrorData|
                    is_invalid_params(error, reason@) && #[trigger] self.rejection.rejected(
                        error,
                        pending,
                    ),
            }
    }

    fn call(&self, context: ToolCallContext<'_, S>) -> (pending: P) {
        let decoded = self.extractor.extract(context.arguments);
        match decoded {
            Ok(input) => self.tool.call(context.service, input),
            Err(reason) => {
                let error = ErrorData::invalid_params(reason.as_str(), None);
                let pending = self.rejection.reject(error);
                assert(is_invalid_params(error, reason@) && self.rejection.rejected(
                    error,
                    pending,
                ));
                pending
            },
        }
    }
}

} // verus!
