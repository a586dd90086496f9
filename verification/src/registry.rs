//! The mathematical model of a registry: which route each name leads to, and
//! which names were registered at run time.

use vstd::prelude::*;
use crate::handler::ToolHandler;
use crate::json::JsonObject;
use crate::model::{RegistrationFailure, ToolView};
use crate::route::ToolRoute;

verus! {

/// The state of a registry as the contracts see it.
pub struct RouterView<T, D> {
    /// The route registered under each name.
    pub routes: Map<Seq<char>, ToolRoute<T, D>>,
    /// The names that were registered at run time.
    pub dynamic: Set<Seq<char>>,
}

impl<T, D> RouterView<T, D> {
    /// The registry that holds nothing.
    pub open spec fn empty() -> Self {
        RouterView { routes: Map::empty(), dynamic: Set::empty() }
    }

    /// What every registry satisfies: it holds finitely many routes, each
    /// under the name of its own tool, and every name registered at run time
    /// leads to a route.
    pub open spec fn valid(self) -> bool {
        &&& self.routes.dom().finite()
        &&& self.dynamic.subset_of(self.routes.dom())
        &&& forall|name: Seq<char>| #[trigger]
            self.routes.dom().contains(name) ==> self.routes[name].attr.name@ == name
    }

    /// The names that lead to a route.
    pub open spec fn names(self) -> Set<Seq<char>> {
        self.routes.dom()
    }

    /// The number of names registered at run time.
    pub open spec fn dynamic_count(self) -> nat {
        self.dynamic.len()
    }

    /// The number of names that lead to a route and were not registered at
    /// run time.
    pub open spec fn static_count(self) -> nat {
        (self.routes.dom().len() - self.dynamic.len()) as nat
    }

    /// The registry after `route` is put in place as a static route: it takes
    /// the place of any route of the same name, and the name is no longer
    /// counted as registered at run time.
    pub open spec fn with_static(self, route: ToolRoute<T, D>) -> Self {
        RouterView {
            routes: self.routes.insert(route.attr.name@, route),
            dynamic: self.dynamic.remove(route.attr.name@),
        }
    }

    /// The registry after `route` is put in place as a route registered at run
    /// time.
    pub open spec fn with_dynamic(self, route: ToolRoute<T, D>) -> Self {
        RouterView {
            routes: self.routes.insert(route.attr.name@, route),
            dynamic: self.dynamic.insert(route.attr.name@),
        }
    }

    /// Why a registration at run time of `name`, with a schema value in which
    /// the object `schema` was found, is refused; `None` where it is accepted.
    /// An empty name is refused first, then a name that is taken, then a
    /// schema that is not an object.
    pub open spec fn registration_failure(
        self,
        name: Seq<char>,
        schema: Option<JsonObject>,
    ) -> Option<RegistrationFailure> {
        if name.len() == 0 {
            Some(RegistrationFailure::InvalidName)
        } else if self.routes.dom().contains(name) {
            Some(RegistrationFailure::DuplicateTool)
        } else if schema.is_none() {
            Some(RegistrationFailure::InvalidSchema)
        } else {
            None
        }
    }

    /// Whether `after` is this registry with one more tool, registered at run
    /// time: the tool has the given name, description (empty where none is
    /// given) and schema and no annotations, and `handler` serves it as a
    /// dynamic handler.
    pub open spec fn registered(
        self,
        after: Self,
        name: Seq<char>,
        description: Option<Seq<char>>,
        schema: JsonObject,
        handler: D,
    ) -> bool {
        &&& after.routes.dom().contains(name)
        &&& after == self.with_dynamic(after.routes[name])
        &&& after.routes[name].call == ToolHandler::<T, D>::Dynamic(handler)
        &&& after.routes[name].attr@ == (ToolView {
            name,
            description: Some(
                match description {
                    Some(text) => text,
                    None => Seq::empty(),
                },
            ),
            input_schema: schema,
            annotations: None,
        })
    }

    /// The registry without `name`.
    pub open spec fn without(self, name: Seq<char>) -> Self {
        RouterView { routes: self.routes.remove(name), dynamic: self.dynamic.remove(name) }
    }

    /// The registry with every entry of `other` laid over it: where the two
    /// hold the same name, the route of `other` wins, and the name counts as
    /// registered at run time exactly if it does in `other`.
    pub open spec fn overlay(self, other: Self) -> Self {
        RouterView {
            routes: self.routes.union_prefer_right(other.routes),
            dynamic: self.dynamic.difference(other.routes.dom()).union(other.dynamic),
        }
    }
}

/// After a registration at run time the name leads to a route, and is
/// counted among the names registered at run time.
pub proof fn lemma_registered_is_dynamic<T, D>(
    registry: RouterView<T, D>,
    after: RouterView<T, D>,
    name: Seq<char>,
    description: Option<Seq<char>>,
    schema: JsonObject,
    handler: D,
)
    requires
        registry.registered(after, name, description, schema, handler),
    ensures
        after.names().contains(name),
        after.dynamic.contains(name),
{
}

/// A name that was removed leads nowhere, and is not counted among the names
/// registered at run time.
pub proof fn lemma_removed_is_gone<T, D>(registry: RouterView<T, D>, name: Seq<char>)
    ensures
        !registry.without(name).names().contains(name),
        !registry.without(name).dynamic.contains(name),
{
}

/// Every way of changing a registry keeps it valid: in particular the names
/// registered at run time stay among the names that lead to a route.
pub proof fn lemma_changes_keep_valid<T, D>(
    registry: RouterView<T, D>,
    other: RouterView<T, D>,
    route: ToolRoute<T, D>,
    name: Seq<char>,
)
    requires
        registry.valid(),
        other.valid(),
    ensures
        RouterView::<T, D>::empty().valid(),
        registry.with_static(route).valid(),
        registry.with_dynamic(route).valid(),
        registry.without(name).valid(),
        registry.overlay(other).valid(),
{
    lemma_overlay_names(registry, other);
}

/// The names of an overlay are the names of both registries.
pub proof fn lemma_overlay_names<T, D>(registry: RouterView<T, D>, other: RouterView<T, D>)
    ensures
        registry.overlay(other).names() == registry.names().union(other.names()),
{
    assert(registry.overlay(other).routes.dom() =~= registry.routes.dom().union(
        other.routes.dom(),
    ));
}

/// In a valid registry the static routes and the routes registered at run
/// time are together all the routes.
pub proof fn lemma_counts_add_up<T, D>(registry: RouterView<T, D>)
    requires
        registry.valid(),
    ensures
        registry.dynamic.finite(),
        registry.dynamic_count() <= registry.names().len(),
        registry.static_count() + registry.dynamic_count() == registry.names().len(),
{
    vstd::set_lib::lemma_len_subset(registry.dynamic, registry.routes.dom());
}

/// A second registration of a name at run time is refused as a duplicate,
/// whatever description, schema and handler it comes with.
pub proof fn lemma_registration_not_idempotent<T, D>(
    registry: RouterView<T, D>,
    after: RouterView<T, D>,
    name: Seq<char>,
    description: Option<Seq<char>>,
    schema: JsonObject,
    handler: D,
    second_schema: Option<JsonObject>,
)
    requires
        registry.registration_failure(name, Some(schema)).is_none(),
        registry.registered(after, name, description, schema, handler),
    ensures
        after.registration_failure(name, second_schema) == Some(
            RegistrationFailure::DuplicateTool,
        ),
{
}

/// Laying registries over one another is associative: only the order of the
/// registries matters, not how they are grouped.
pub proof fn lemma_overlay_associative<T, D>(
    a: RouterView<T, D>,
    b: RouterView<T, D>,
    c: RouterView<T, D>,
)
    ensures
        a.overlay(b).overlay(c) == a.overlay(b.overlay(c)),
{
    let left = a.overlay(b).overlay(c);
    let right = a.overlay(b.overlay(c));
    assert(left.routes =~= right.routes);
    assert(left.dynamic =~= right.dynamic);
}

/// In an overlay every name of the incoming registry leads to the incoming
/// route and has the incoming mark; every other name is as it was.
pub proof fn lemma_overlay_carries_provenance<T, D>(
    registry: RouterView<T, D>,
    other: RouterView<T, D>,
    name: Seq<char>,
)
    requires
        other.valid(),
    ensures
        other.names().contains(name) ==> registry.overlay(other).routes[name]
            == other.routes[name] && registry.overlay(other).dynamic.contains(name)
            == other.dynamic.contains(name),
        !other.names().contains(name) ==> registry.overlay(other).names().contains(name)
            == registry.names().contains(name) && (registry.names().contains(name)
            ==> registry.overlay(other).routes[name] == registry.routes[name])
            && registry.overlay(other).dynamic.contains(name) == registry.dynamic.contains(
            name,
        ),
{
}

/// Laying a registry over another after putting a static route in place
/// is the same as putting the route in place of the overlay, where the
/// incoming registry does not hold the route's name.
pub(crate) proof fn lemma_overlay_after_static<T, D>(
    a: RouterView<T, D>,
    b: RouterView<T, D>,
    route: ToolRoute<T, D>,
)
    requires
        !b.routes.dom().contains(route.attr.name@),
        b.dynamic.subset_of(b.routes.dom()),
    ensures
        a.with_static(route).overlay(b) == a.overlay(b.with_static(route)),
{
    let left = a.with_static(route).overlay(b);
    let right = a.overlay(b.with_static(route));
    assert(left.routes =~= right.routes);
    assert(left.dynamic =~= right.dynamic);
}

/// The same for a route registered at run time.
pub(crate) proof fn lemma_overlay_after_dynamic<T, D>(
    a: RouterView<T, D>,
    b: RouterView<T, D>,
    route: ToolRoute<T, D>,
)
    requires
        !b.routes.dom().contains(route.attr.name@),
    ensures
        a.with_dynamic(route).overlay(b) == a.overlay(b.with_dynamic(route)),
{
    let left = a.with_dynamic(route).overlay(b);
    let right = a.overlay(b.with_dynamic(route));
    assert(left.routes =~= right.routes);
    assert(left.dynamic =~= right.dynamic);
}

} // verus!
