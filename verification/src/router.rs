//! The router: a registry of routes by name, and the lookup that leads a call
//! to its handler.

use vstd::prelude::*;
use crate::handler::{CallToolHandler, DynamicToolHandler, ToolCallContext, ToolHandler};
use crate::json::{as_object, clone_object, object_of, JsonObject};
use crate::model::{
    CallToolResult, ErrorData, RegistrationFailure, Tool, ToolNotFoundError,
    ToolRegistrationError,
};
use crate::registry::{lemma_overlay_after_dynamic, lemma_overlay_after_static, RouterView};
use crate::entries::{
    distinct, dynamic_among, lemma_absent, lemma_drop_last, lemma_dynamic_count, lemma_lookup,
    lemma_model_valid, lemma_push, lemma_remove, lemma_replace, model_of, names_of, RouteEntry,
};
use crate::route::{IntoToolRoute, ToolRoute};
use crate::text::same_text;

verus! {

/// The characters of each of a sequence of texts.
pub open spec fn texts(names: Seq<String>) -> Seq<Seq<char>> {
    names.map_values(|name: String| name@)
}

/// The name of each of a sequence of tools.
pub open spec fn tool_names_of(tools: Seq<Tool>) -> Seq<Seq<char>> {
    tools.map_values(|tool: Tool| tool.name@)
}

/// The name of each of a sequence of routes.
pub open spec fn route_names_of<T, D>(routes: Seq<ToolRoute<T, D>>) -> Seq<Seq<char>> {
    routes.map_values(|route: ToolRoute<T, D>| route.attr.name@)
}

/// The object behind an optional reference.
pub open spec fn deref_object(schema: Option<&JsonObject>) -> Option<JsonObject> {
    match schema {
        Some(object) => Some(*object),
        None => None,
    }
}

/// The characters of an optional text.
pub open spec fn text_of(text: Option<String>) -> Option<Seq<char>> {
    match text {
        Some(t) => Some(t@),
        None => None,
    }
}

/// The text that a refused registration of `name` comes with.
pub open spec fn refusal_text(failure: RegistrationFailure, name: Seq<char>) -> Seq<char> {
    match failure {
        RegistrationFailure::InvalidName => "Name cannot be empty"@,
        RegistrationFailure::DuplicateTool => name,
        RegistrationFailure::InvalidSchema => "Schema must be an object"@,
    }
}

/// What the caller of a tool gets once the pending result of the call has
/// been completed: the handler's result or the handler's error, as it is.
pub fn completed(outcome: Result<CallToolResult, ErrorData>) -> (result: Result<
    CallToolResult,
    ErrorData,
>)
    ensures
        result == outcome,
{
    let result = outcome?;
    Ok(result)
}

/// A tool router: routes by the name of their tool, each marked as static or
/// as registered at run time.
#[derive(Debug)]
pub struct ToolRouter<T, D> {
    entries: Vec<RouteEntry<T, D>>,
    transparent_when_not_found: bool,
}

impl<T, D> View for ToolRouter<T, D> {
    type V = RouterView<T, D>;

    closed spec fn view(&self) -> RouterView<T, D> {
        model_of(self.entries@)
    }
}

impl<T, D> ToolRouter<T, D> {
    #[verifier::type_invariant]
    spec fn well_formed(self) -> bool {
        distinct(self.entries@)
    }

    /// Whether a call of a name that leads to no route is to be passed on.
    pub closed spec fn is_transparent_when_not_found(&self) -> bool {
        self.transparent_when_not_found
    }

    /// A router without routes.
    pub fn new() -> (router: Self)
        ensures
            router@ == RouterView::<T, D>::empty(),
            router@.valid(),
            !router.is_transparent_when_not_found(),
    {
        let router = ToolRouter { entries: Vec::new(), transparent_when_not_found: false };
        assert(router@.routes =~= Map::empty());
        assert(router@.dynamic =~= Set::empty());
        router
    }

    /// The place of the entry with the given name.
    fn find(&self, name: &str) -> (found: Option<usize>)
        ensures
            match found {
                Some(i) => i < self.entries@.len() && self.entries@[i as int].name() == name@,
                None => !names_of(self.entries@).contains(name@),
            },
    {
        let mut i: usize = 0;
        while i < self.entries.len()
            invariant
                i <= self.entries@.len(),
                forall|k: int| 0 <= k < i ==> (#[trigger] self.entries@[k]).name() != name@,
            decreases self.entries@.len() - i,
        {
            if same_text(self.entries[i].route.attr.name.as_str(), name) {
                return Some(i);
            }
            i += 1;
        }
        None
    }

    /// Takes the entries out of the router, which is left without any.
    fn take_entries(&mut self) -> (entries: Vec<RouteEntry<T, D>>)
        ensures
            entries@ == old(self).entries@,
            distinct(entries@),
            final(self).entries@ == Seq::<RouteEntry<T, D>>::empty(),
            final(self).transparent_when_not_found == old(self).transparent_when_not_found,
    {
        proof {
            use_type_invariant(&*self);
        }
        let mut entries: Vec<RouteEntry<T, D>> = Vec::new();
        std::mem::swap(&mut self.entries, &mut entries);
        entries
    }

    /// Gives the router its entries.
    fn set_entries(&mut self, entries: Vec<RouteEntry<T, D>>)
        requires
            distinct(entries@),
        ensures
            final(self).entries@ == entries@,
            final(self).transparent_when_not_found == old(self).transparent_when_not_found,
    {
        self.entries = entries;
    }

    /// Puts an entry in the registry, in the place of any entry of the same
    /// name.
    fn put(&mut self, entry: RouteEntry<T, D>)
        ensures
            final(self)@.valid(),
            entry.dynamic ==> final(self)@ == old(self)@.with_dynamic(entry.route),
            !entry.dynamic ==> final(self)@ == old(self)@.with_static(entry.route),
            final(self).transparent_when_not_found == old(self).transparent_when_not_found,
    {
        let found = self.find(entry.route.attr.name.as_str());
        let mut entries = self.take_entries();
        match found {
            Some(i) => {
                proof {
                    lemma_replace(entries@, i as int, entry);
                    lemma_model_valid(entries@.update(i as int, entry));
                }
                entries.set(i, entry);
            },
            None => {
                proof {
                    lemma_push(entries@, entry);
                    lemma_model_valid(entries@.push(entry));
                }
                entries.push(entry);
            },
        }
        self.set_entries(entries);
    }

    /// The router with one more static route, made from `route`.
    pub fn with_route<R, A>(self, route: R) -> (router: Self) where R: IntoToolRoute<T, D, A>
        requires
            route.convertible(),
        ensures
            router@.valid(),
            router.is_transparent_when_not_found() == self.is_transparent_when_not_found(),
            exists|converted: ToolRoute<T, D>| #[trigger]
                route.converts_to(converted) && router@ == self@.with_static(converted),
    {
        let mut router = self;
        let converted = route.into_tool_route();
        router.add_route(converted);
        router
    }

    /// Registers a static route under the name of its tool. A route of the
    /// same name is replaced, whether it was static or registered at run time.
    pub fn add_route(&mut self, item: ToolRoute<T, D>)
        ensures
            final(self)@ == old(self)@.with_static(item),
            final(self)@.valid(),
            final(self).is_transparent_when_not_found() == old(
                self,
            ).is_transparent_when_not_found(),
    {
        self.put(RouteEntry { route: item, dynamic: false });
    }

    /// Removes the route of the given name, static or not, if there is one.
    pub fn remove_route(&mut self, name: &str)
        ensures
            final(self)@ == old(self)@.without(name@),
            final(self)@.valid(),
            final(self).is_transparent_when_not_found() == old(
                self,
            ).is_transparent_when_not_found(),
    {
        let found = self.find(name);
        let mut entries = self.take_entries();
        match found {
            Some(i) => {
                proof {
                    lemma_remove(entries@, i as int);
                }
                entries.remove(i);
            },
            None => {
                proof {
                    lemma_absent(entries@, name@);
                    assert(model_of(entries@).routes =~= model_of(entries@).without(
                        name@,
                    ).routes);
                    assert(model_of(entries@).dynamic =~= model_of(entries@).without(
                        name@,
                    ).dynamic);
                }
            },
        }
        proof {
            lemma_model_valid(entries@);
        }
        self.set_entries(entries);
    }

    /// Registers a tool at run time, given the object that was found in its
    /// schema value, if any.
    ///
    /// The registration is refused, and the router left as it was, where the
    /// name is empty, where a route of that name is registered already, and
    /// where no object was found, in this order. Otherwise the tool is
    /// registered with `handler` as its dynamic handler, and its name is
    /// marked as registered at run time.
    pub fn register_dynamic_object(
        &mut self,
        name: String,
        description: Option<String>,
        schema: Option<&JsonObject>,
        handler: D,
    ) -> (result: Result<(), ToolRegistrationError>)
        ensures
            final(self)@.valid(),
            final(self).is_transparent_when_not_found() == old(
                self,
            ).is_transparent_when_not_found(),
            match result {
                Ok(()) => {
                    &&& old(self)@.registration_failure(name@, deref_object(schema)).is_none()
                    &&& old(self)@.registered(
                        final(self)@,
                        name@,
                        text_of(description),
                        deref_object(schema).unwrap(),
                        handler,
                    )
                },
                Err(error) => {
                    &&& old(self)@.registration_failure(name@, deref_object(schema)) == Some(
                        error.failure(),
                    )
                    &&& error.text() == refusal_text(error.failure(), name@)
                    &&& final(self)@ == old(self)@
                },
            },
    {
        proof {
            use_type_invariant(&*self);
            lemma_model_valid(self.entries@);
        }
        if name.as_str().is_empty() {
            return Err(ToolRegistrationError::InvalidName("Name cannot be empty".to_owned()));
        }
        if self.has_route(name.as_str()) {
            return Err(ToolRegistrationError::DuplicateTool(name));
        }
        let schema_object = match schema {
            Some(object) => clone_object(object),
            None => {
                return Err(
                    ToolRegistrationError::InvalidSchema("Schema must be an object".to_owned()),
                );
            },
        };
        let tool = match description {
            Some(text) => Tool::new(name.clone(), text, schema_object),
            None => Tool::new(name.clone(), "".to_owned(), schema_object),
        };
        let route = ToolRoute::new_dyn(tool, ToolHandler::Dynamic(handler));
        let ghost registered = route;
        self.put(RouteEntry { route, dynamic: true });
        proof {
            reveal_strlit("");
            assert(registered.attr@.description == Some(
                match text_of(description) {
                    Some(text) => text,
                    None => Seq::empty(),
                },
            ));
        }
        Ok(())
    }

    /// Registers a tool at run time.
    ///
    /// The schema must be a JSON object: the registration goes by the object
    /// that `serde_json` finds in `input_schema`, as
    /// [`register_dynamic_object`](Self::register_dynamic_object) says.
    pub fn register_dynamic_tool(
        &mut self,
        name: String,
        description: Option<String>,
        input_schema: serde_json::Value,
        handler: D,
    ) -> (result: Result<(), ToolRegistrationError>)
        ensures
            final(self)@.valid(),
            final(self).is_transparent_when_not_found() == old(
                self,
            ).is_transparent_when_not_found(),
            match result {
                Ok(()) => {
                    &&& old(self)@.registration_failure(name@, object_of(input_schema)).is_none()
                    &&& old(self)@.registered(
                        final(self)@,
                        name@,
                        text_of(description),
                        object_of(input_schema).unwrap(),
                        handler,
                    )
                },
                Err(error) => {
                    &&& old(self)@.registration_failure(name@, object_of(input_schema)) == Some(
                        error.failure(),
                    )
                    &&& error.text() == refusal_text(error.failure(), name@)
                    &&& final(self)@ == old(self)@
                },
            },
    {
        let schema = as_object(&input_schema);
        self.register_dynamic_object(name, description, schema, handler)
    }

    /// Removes a tool that was registered at run time. A name that is not
    /// marked as registered at run time is refused, whether or not a static
    /// route has it, and the router is left as it was.
    pub fn unregister_tool(&mut self, name: &str) -> (result: Result<(), ToolNotFoundError>)
        ensures
            final(self)@.valid(),
            final(self).is_transparent_when_not_found() == old(
                self,
            ).is_transparent_when_not_found(),
            match result {
                Ok(()) => old(self)@.dynamic.contains(name@) && final(self)@ == old(self)@.without(
                    name@,
                ),
                Err(error) => !old(self)@.dynamic.contains(name@) && error.name() == name@
                    && final(self)@ == old(self)@,
            },
    {
        proof {
            use_type_invariant(&*self);
            lemma_model_valid(self.entries@);
        }
        let found = self.find(name);
        let dynamic = match found {
            Some(i) => {
                proof {
                    lemma_lookup(self.entries@, i as int);
                }
                self.entries[i].dynamic
            },
            None => {
                proof {
                    lemma_absent(self.entries@, name@);
                }
                false
            },
        };
        if !dynamic {
            return Err(ToolNotFoundError::NotFound(name.to_owned()));
        }
        self.remove_route(name);
        Ok(())
    }

    /// Whether a tool of the given name is registered.
    pub fn has_tool(&self, name: &str) -> (found: bool)
        ensures
            found == self@.names().contains(name@),
    {
        self.has_route(name)
    }

    /// Leads a call to the handler of the tool that it names, and starts it.
    ///
    /// A name that leads to no route gives the error "tool not found", and no
    /// handler is called. Otherwise the handler of the route gets the context
    /// unchanged, and what it hands back is handed back.
    pub fn call<S, P>(&self, context: ToolCallContext<'_, S>) -> (result: Result<P, ErrorData>) where
        T: CallToolHandler<S, P>,
        D: DynamicToolHandler<S, P>,

        ensures
            match result {
                Ok(pending) => self@.names().contains(context.name@)
                    && self@.routes[context.name@].call.outcome(context, pending),
                Err(error) => !self@.names().contains(context.name@)
                    && error.is_tool_not_found(),
            },
    {
        proof {
            use_type_invariant(self);
        }
        let found = self.find(context.name.as_str());
        match found {
            Some(i) => {
                proof {
                    lemma_lookup(self.entries@, i as int);
                }
                Ok(self.entries[i].route.call.invoke(context))
            },
            None => {
                proof {
                    lemma_absent(self.entries@, context.name@);
                }
                Err(ErrorData::invalid_params("tool not found", None))
            },
        }
    }

    /// The names of all registered tools, each once, in no particular order.
    pub fn tool_names(&self) -> (names: Vec<String>)
        ensures
            self@.valid(),
            texts(names@).no_duplicates(),
            texts(names@).to_set() == self@.names(),
            names@.len() == self@.names().len(),
    {
        proof {
            use_type_invariant(self);
            lemma_model_valid(self.entries@);
        }
        let mut names: Vec<String> = Vec::new();
        let mut i: usize = 0;
        while i < self.entries.len()
            invariant
                i <= self.entries@.len(),
                names@.len() == i,
                forall|k: int| 0 <= k < i ==> (#[trigger] names@[k])@ == self.entries@[k].name(),
            decreases self.entries@.len() - i,
        {
            names.push(self.entries[i].route.attr.name.clone());
            i += 1;
        }
        assert(texts(names@) =~= names_of(self.entries@));
        names
    }

    /// The descriptors of all registered tools, each once, in no particular
    /// order.
    pub fn list_all(&self) -> (tools: Vec<Tool>)
        ensures
            self@.valid(),
            tool_names_of(tools@).no_duplicates(),
            tool_names_of(tools@).to_set() == self@.names(),
            tools@.len() == self@.names().len(),
            forall|k: int|
                0 <= k < tools@.len() ==> (#[trigger] tools@[k]) == self@.routes[tools@[k].name@].attr,
    {
        proof {
            use_type_invariant(self);
            lemma_model_valid(self.entries@);
        }
        let mut tools: Vec<Tool> = Vec::new();
        let mut i: usize = 0;
        while i < self.entries.len()
            invariant
                i <= self.entries@.len(),
                tools@.len() == i,
                forall|k: int| 0 <= k < i ==> (#[trigger] tools@[k]) == self.entries@[k].route.attr,
            decreases self.entries@.len() - i,
        {
            tools.push(self.entries[i].route.attr.clone());
            i += 1;
        }
        assert(tool_names_of(tools@) =~= names_of(self.entries@));
        assert forall|k: int| 0 <= k < tools@.len() implies (#[trigger] tools@[k])
            == self@.routes[tools@[k].name@].attr by {
            lemma_lookup(self.entries@, k);
        }
        tools
    }

    /// The number of tools that were registered at run time.
    pub fn dynamic_tool_count(&self) -> (count: usize)
        ensures
            self@.valid(),
            count == self@.dynamic_count(),
    {
        proof {
            use_type_invariant(self);
            lemma_model_valid(self.entries@);
            lemma_dynamic_count(self.entries@);
        }
        let mut count: usize = 0;
        let mut i: usize = 0;
        while i < self.entries.len()
            invariant
                i <= self.entries@.len(),
                count == dynamic_among(self.entries@.take(i as int)),
                count <= i,
            decreases self.entries@.len() - i,
        {
            proof {
                let next = self.entries@.take(i + 1);
                assert(next.drop_last() =~= self.entries@.take(i as int));
            }
            if self.entries[i].dynamic {
                count += 1;
            }
            i += 1;
        }
        assert(self.entries@.take(i as int) =~= self.entries@);
        count
    }

    /// The number of static tools: those registered, less those registered at
    /// run time.
    pub fn static_tool_count(&self) -> (count: usize)
        ensures
            self@.valid(),
            count == self@.static_count(),
            count + self@.dynamic_count() == self@.names().len(),
    {
        proof {
            use_type_invariant(self);
            lemma_model_valid(self.entries@);
            lemma_dynamic_count(self.entries@);
        }
        let dynamic = self.dynamic_tool_count();
        self.entries.len() - dynamic
    }

    /// Lays every entry of `other` over this router: a route of `other` takes
    /// the place of a route of the same name, and the name is then marked as
    /// registered at run time exactly if it was in `other`.
    pub fn merge(&mut self, other: ToolRouter<T, D>)
        ensures
            final(self)@ == old(self)@.overlay(other@),
            final(self)@.valid(),
            final(self).is_transparent_when_not_found() == old(
                self,
            ).is_transparent_when_not_found(),
    {
        let ghost overlay = other@;
        let mut other = other;
        let mut incoming = other.take_entries();
        proof {
            use_type_invariant(&*self);
            lemma_model_valid(self.entries@);
        }
        while incoming.len() > 0
            invariant
                distinct(incoming@),
                self@.valid(),
                self@.overlay(model_of(incoming@)) == old(self)@.overlay(overlay),
                self.transparent_when_not_found == old(self).transparent_when_not_found,
            decreases incoming@.len(),
        {
            let ghost before = self@;
            let ghost rest = incoming@.drop_last();
            proof {
                lemma_drop_last(incoming@);
                lemma_push(rest, incoming@.last());
                lemma_absent(rest, incoming@.last().name());
                lemma_model_valid(rest);
                lemma_overlay_after_static(before, model_of(rest), incoming@.last().route);
                lemma_overlay_after_dynamic(before, model_of(rest), incoming@.last().route);
            }
            let entry = incoming.pop().unwrap();
            self.put(entry);
        }
        proof {
            assert(self@.overlay(model_of(incoming@)).routes =~= self@.routes);
            assert(self@.overlay(model_of(incoming@)).dynamic =~= self@.dynamic);
        }
    }

    /// The router that holds the routes of `first` with every entry of
    /// `second` laid over them, as [`merge`](Self::merge) does.
    pub fn combine(first: ToolRouter<T, D>, second: ToolRouter<T, D>) -> (combined: Self)
        ensures
            combined@ == first@.overlay(second@),
            combined@.valid(),
            combined.is_transparent_when_not_found() == first.is_transparent_when_not_found(),
    {
        let mut combined = first;
        combined.merge(second);
        combined
    }

    /// The route of the given name, if one is registered.
    pub fn route(&self, name: &str) -> (found: Option<&ToolRoute<T, D>>)
        ensures
            match found {
                Some(route) => self@.names().contains(name@) && *route == self@.routes[name@],
                None => !self@.names().contains(name@),
            },
    {
        proof {
            use_type_invariant(self);
        }
        match self.find(name) {
            Some(i) => {
                proof {
                    lemma_lookup(self.entries@, i as int);
                }
                Some(&self.entries[i].route)
            },
            None => {
                proof {
                    lemma_absent(self.entries@, name@);
                }
                None
            },
        }
    }

    /// All routes of the router, each once, in no particular order.
    pub fn into_routes(self) -> (routes: Vec<ToolRoute<T, D>>)
        ensures
            route_names_of(routes@).no_duplicates(),
            route_names_of(routes@).to_set() == self@.names(),
            routes@.len() == self@.names().len(),
            forall|k: int|
                0 <= k < routes@.len() ==> (#[trigger] routes@[k])
                    == self@.routes[routes@[k].attr.name@],
    {
        let mut router = self;
        let mut entries = router.take_entries();
        let ghost all = entries@;
        let mut routes: Vec<ToolRoute<T, D>> = Vec::new();
        while entries.len() > 0
            invariant
                entries@.len() + routes@.len() == all.len(),
                entries@ == all.take(entries@.len() as int),
                forall|k: int|
                    0 <= k < routes@.len() ==> (#[trigger] routes@[k]) == all[all.len() - 1
                        - k].route,
            decreases entries@.len(),
        {
            let entry = entries.pop().unwrap();
            routes.push(entry.route);
        }
        proof {
            lemma_model_valid(all);
            let names = names_of(all);
            let listed = route_names_of(routes@);
            assert forall|a: int, b: int|
                0 <= a < listed.len() && 0 <= b < listed.len() && a != b implies listed[a]
                != listed[b] by {
                assert(listed[a] == names[all.len() - 1 - a]);
                assert(listed[b] == names[all.len() - 1 - b]);
            }
            assert forall|name: Seq<char>| listed.to_set().contains(name) == names.to_set().contains(
                name,
            ) by {
                if listed.contains(name) {
                    let k = listed.index_of(name);
                    assert(listed[k] == names[all.len() - 1 - k]);
                }
                if names.contains(name) {
                    let k = names.index_of(name);
                    assert(listed[all.len() - 1 - k] == name);
                }
            }
            assert forall|k: int| 0 <= k < routes@.len() implies (#[trigger] routes@[k])
                == model_of(all).routes[routes@[k].attr.name@] by {
                lemma_lookup(all, all.len() - 1 - k);
            }
        }
        routes
    }

    /// Whether a call of a name that leads to no route is to be passed on
    /// rather than refused. The router itself does not act on this.
    pub fn transparent_when_not_found(&self) -> (transparent: bool)
        ensures
            transparent == self.is_transparent_when_not_found(),
    {
        self.transparent_when_not_found
    }

    /// Sets whether a call of a name that leads to no route is to be passed
    /// on. The routes stay as they are.
    pub fn set_transparent_when_not_found(&mut self, transparent: bool)
        ensures
            final(self).is_transparent_when_not_found() == transparent,
            final(self)@ == old(self)@,
    {
        proof {
            use_type_invariant(&*self);
        }
        self.transparent_when_not_found = transparent;
    }

    /// Whether a route of the given name is registered.
    pub fn has_route(&self, name: &str) -> (found: bool)
        ensures
            found == self@.routes.dom().contains(name@),
    {
        proof {
            use_type_invariant(self);
        }
        let found = self.find(name);
        proof {
            match found {
                Some(i) => lemma_lookup(self.entries@, i as int),
                None => lemma_absent(self.entries@, name@),
            }
        }
        found.is_some()
    }
}

/// What `+` means on routers is said by the contract of `add` below, over the
/// views of the routers; no router is named as the sum here.
impl<T, D> vstd::std_specs::ops::AddSpecImpl<ToolRouter<T, D>> for ToolRouter<T, D> {
    open spec fn obeys_add_spec() -> bool {
        false
    }

    open spec fn add_req(self, rhs: ToolRouter<T, D>) -> bool {
        true
    }

    open spec fn add_spec(self, rhs: ToolRouter<T, D>) -> ToolRouter<T, D> {
        self
    }
}

impl<T, D> std::ops::Add<ToolRouter<T, D>> for ToolRouter<T, D> {
    type Output = ToolRouter<T, D>;

    /// The two routers combined, as [`ToolRouter::combine`] does.
    fn add(self, other: ToolRouter<T, D>) -> (sum: ToolRouter<T, D>)
        ensures
            sum@ == self@.overlay(other@),
            sum@.valid(),
            sum.is_transparent_when_not_found() == self.is_transparent_when_not_found(),
    {
        ToolRouter::combine(self, other)
    }
}

impl<T, D> std::ops::AddAssign<ToolRouter<T, D>> for ToolRouter<T, D> {
    /// Merges `other` into this router, as [`ToolRouter::merge`] does.
    fn add_assign(&mut self, other: ToolRouter<T, D>)
        ensures
            final(self)@ == old(self)@.overlay(other@),
            final(self)@.valid(),
            final(self).is_transparent_when_not_found() == old(
                self,
            ).is_transparent_when_not_found(),
    {
        self.merge(other)
    }
}

impl<T, D> Default for ToolRouter<T, D> {
    /// A router without routes.
    fn default() -> (router: Self)
        ensures
            router@ == RouterView::<T, D>::empty(),
            router@.valid(),
            !router.is_transparent_when_not_found(),
    {
        ToolRouter::new()
    }
}

impl<T: Clone, D: Clone> Clone for ToolRouter<T, D> {
    /// The copy holds the same names with the same marks; under each name it
    /// has an equal descriptor and a clone of the handler.
    fn clone(&self) -> (copy: Self)
        ensures
            copy@.valid(),
            copy.is_transparent_when_not_found() == self.is_transparent_when_not_found(),
            copy@.names() == self@.names(),
            copy@.dynamic == self@.dynamic,
            forall|name: Seq<char>| #[trigger]
                self@.names().contains(name) ==> copy@.routes[name].attr
                    == self@.routes[name].attr && cloned(
                    self@.routes[name].call,
                    copy@.routes[name].call,
                ),
    {
        proof {
            use_type_invariant(self);
        }
        let mut entries: Vec<RouteEntry<T, D>> = Vec::new();
        let mut i: usize = 0;
        while i < self.entries.len()
            invariant
                i <= self.entries@.len(),
                entries@.len() == i,
                forall|k: int|
                    0 <= k < i ==> (#[trigger] entries@[k]).route.attr
                        == self.entries@[k].route.attr && entries@[k].dynamic
                        == self.entries@[k].dynamic && cloned(
                        self.entries@[k].route.call,
                        entries@[k].route.call,
                    ),
            decreases self.entries@.len() - i,
        {
            entries.push(self.entries[i].copy());
            i += 1;
        }
        proof {
            assert(names_of(entries@) =~= names_of(self.entries@));
            lemma_model_valid(entries@);
            lemma_model_valid(self.entries@);
            assert forall|name: Seq<char>| #[trigger]
                model_of(self.entries@).routes.dom().contains(name) implies model_of(
                entries@,
            ).routes[name].attr == model_of(self.entries@).routes[name].attr && cloned(
                model_of(self.entries@).routes[name].call,
                model_of(entries@).routes[name].call,
            ) && model_of(entries@).dynamic.contains(name) == model_of(
                self.entries@,
            ).dynamic.contains(name) by {
                let k = names_of(self.entries@).index_of(name);
                lemma_lookup(self.entries@, k);
                lemma_lookup(entries@, k);
            }
            assert forall|name: Seq<char>|
                model_of(entries@).dynamic.contains(name) == model_of(
                    self.entries@,
                ).dynamic.contains(name) by {
                assert(model_of(entries@).dynamic.contains(name) ==> model_of(
                    entries@,
                ).routes.dom().contains(name));
                assert(model_of(self.entries@).dynamic.contains(name) ==> model_of(
                    self.entries@,
                ).routes.dom().contains(name));
            }
        }
        ToolRouter { entries, transparent_when_not_found: self.transparent_when_not_found }
    }
}

} // verus!
