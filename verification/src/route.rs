//! Routes: a tool descriptor bound to the handler that serves the tool.

use vstd::prelude::*;
use crate::handler::{CallToolHandler, ToolHandler};
use crate::json::{any_object_schema, object_keys, object_of, JsonObject};
use crate::model::{object, Tool, ToolAnnotations};

verus! {

/// One tool with its handler. Routes are told apart by the name of their tool.
#[derive(Debug)]
pub struct ToolRoute<T, D> {
    /// The handler, behind the one call signature.
    pub call: ToolHandler<T, D>,
    /// The descriptor of the tool.
    pub attr: Tool,
}

impl<T, D> ToolRoute<T, D> {
    /// The route that serves `attr` with a typed handler.
    pub fn new(attr: Tool, call: T) -> (route: Self)
        ensures
            route.call == ToolHandler::<T, D>::Typed(call),
            route.attr == attr,
    {
        ToolRoute { call: ToolHandler::Typed(call), attr }
    }

    /// The route that serves `attr` with a handler that is already behind the
    /// one call signature.
    pub fn new_dyn(attr: Tool, call: ToolHandler<T, D>) -> (route: Self)
        ensures
            route.call == call,
            route.attr == attr,
    {
        ToolRoute { call, attr }
    }

    /// The name of the route's tool.
    pub fn name(&self) -> (name: &str)
        ensures
            name@ == self.attr.name@,
    {
        self.attr.name.as_str()
    }
}

impl<T: Clone, D: Clone> Clone for ToolRoute<T, D> {
    /// The copy has an equal descriptor and a clone of the handler.
    fn clone(&self) -> (copy: Self)
        ensures
            copy.attr == self.attr,
            cloned(self.call, copy.call),
    {
        ToolRoute { call: self.call.clone(), attr: self.attr.clone() }
    }
}

/// What can be turned into a route. The parameter `A` tells the ways of
/// conversion apart and has no other meaning: it is `()` for a route, the type
/// of the handler where a typed handler comes with its descriptor, and
/// [`ToolAttrGenerateFunctionAdapter`] for a function that makes a route.
pub trait IntoToolRoute<T, D, A>: Sized {
    /// Whether the value can be converted.
    open spec fn convertible(&self) -> bool {
        true
    }

    /// Whether `route` is a route that the value may turn into.
    open spec fn converts_to(self, route: ToolRoute<T, D>) -> bool {
        true
    }

    /// The route.
    fn into_tool_route(self) -> (route: ToolRoute<T, D>)
        requires
            self.convertible(),
        ensures
            self.converts_to(route),
    ;
}

/// A descriptor and a typed handler make the route that serves the one with
/// the other.
impl<T, D> IntoToolRoute<T, D, T> for (Tool, T) {
    open spec fn convertible(&self) -> bool {
        true
    }

    open spec fn converts_to(self, route: ToolRoute<T, D>) -> bool {
        route.attr == self.0 && route.call == ToolHandler::<T, D>::Typed(self.1)
    }

    fn into_tool_route(self) -> (route: ToolRoute<T, D>) {
        ToolRoute::new(self.0, self.1)
    }
}

/// A route is its own route.
impl<T, D> IntoToolRoute<T, D, ()> for ToolRoute<T, D> {
    open spec fn convertible(&self) -> bool {
        true
    }

    open spec fn converts_to(self, route: ToolRoute<T, D>) -> bool {
        route == self
    }

    fn into_tool_route(self) -> (route: ToolRoute<T, D>) {
        self
    }
}

/// Marks the conversion of a function that makes a route.
#[derive(Debug)]
pub struct ToolAttrGenerateFunctionAdapter;

/// A function that makes a route turns into the route that it makes.
impl<T, D, F> IntoToolRoute<T, D, ToolAttrGenerateFunctionAdapter> for F where
    F: Fn() -> ToolRoute<T, D>,
 {
    open spec fn convertible(&self) -> bool {
        call_requires(*self, ())
    }

    open spec fn converts_to(self, route: ToolRoute<T, D>) -> bool {
        call_ensures(self, (), route)
    }

    fn into_tool_route(self) -> (route: ToolRoute<T, D>) {
        (self)()
    }
}

/// A typed handler on its way to becoming a route: the handler, and the
/// descriptor as far as it has been filled in.
#[derive(Debug)]
pub struct WithToolAttr<C> {
    pub attr: Tool,
    pub call: C,
}

/// Starts a route from a typed handler, by naming the tool.
pub trait CallToolHandlerExt<S, P>: Sized + CallToolHandler<S, P> {
    /// The handler with a descriptor of the given name. The description is
    /// empty and there are no annotations; the input schema is the one that
    /// `schemars` gives for a JSON object with arbitrary members.
    fn name(self, name: String) -> (named: WithToolAttr<Self>)
        ensures
            named.call == self,
            named.attr.name == name,
            named.attr.description matches Some(text) && text@ == Seq::<char>::empty(),
            named.attr.annotations.is_none(),
    ;
}

impl<S, P, C: CallToolHandler<S, P>> CallToolHandlerExt<S, P> for C {
    fn name(self, name: String) -> (named: WithToolAttr<Self>) {
        proof {
            reveal_strlit("");
        }
        WithToolAttr { attr: Tool::new(name, "".to_owned(), object(any_object_schema())), call: self }
    }
}

impl<C> WithToolAttr<C> {
    /// Sets the description.
    pub fn description(self, description: String) -> (described: Self)
        ensures
            described.call == self.call,
            described.attr == (Tool { description: Some(description), ..self.attr }),
    {
        let mut described = self;
        described.attr.description = Some(description);
        described
    }

    /// Sets the input schema.
    pub fn parameters(self, schema: JsonObject) -> (described: Self)
        ensures
            described.call == self.call,
            described.attr == (Tool { input_schema: schema, ..self.attr }),
    {
        let mut described = self;
        described.attr.input_schema = schema;
        described
    }

    /// Sets the input schema to the object that a schema value stands for:
    /// its own members when it is a JSON object, the empty object otherwise.
    pub fn parameters_value(self, schema: serde_json::Value) -> (described: Self)
        ensures
            described.call == self.call,
            described.attr.name == self.attr.name,
            described.attr.description == self.attr.description,
            described.attr.annotations == self.attr.annotations,
            match object_of(schema) {
                Some(found) => described.attr.input_schema == found,
                None => object_keys(described.attr.input_schema) == Set::<Seq<char>>::empty(),
            },
    {
        let mut described = self;
        described.attr.input_schema = object(schema);
        described
    }

    /// Sets the annotations.
    pub fn annotation(self, annotation: ToolAnnotations) -> (described: Self)
        ensures
            described.call == self.call,
            described.attr == (Tool { annotations: Some(annotation), ..self.attr }),
    {
        let mut described = self;
        described.attr.annotations = Some(annotation);
        described
    }
}

/// A named handler makes the route that serves its descriptor with the
/// handler.
impl<T, D> IntoToolRoute<T, D, T> for WithToolAttr<T> {
    open spec fn convertible(&self) -> bool {
        true
    }

    open spec fn converts_to(self, route: ToolRoute<T, D>) -> bool {
        route.attr == self.attr && route.call == ToolHandler::<T, D>::Typed(self.call)
    }

    fn into_tool_route(self) -> (route: ToolRoute<T, D>) {
        ToolRoute::new(self.attr, self.call)
    }
}

} // verus!
