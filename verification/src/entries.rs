//! How the router holds its routes: one entry for each, in a sequence in
//! which no name occurs twice, and what such a sequence means as a registry.

use vstd::prelude::*;
use crate::registry::RouterView;
use crate::route::ToolRoute;

verus! {

/// A route in the registry, with the mark of how it got there.
#[derive(Debug)]
pub(crate) struct RouteEntry<T, D> {
    pub(crate) route: ToolRoute<T, D>,
    pub(crate) dynamic: bool,
}

impl<T, D> RouteEntry<T, D> {
    /// The name of the entry's tool.
    pub(crate) open spec fn name(self) -> Seq<char> {
        self.route.attr.name@
    }
}

/// The names of the entries, in the order of the entries.
pub(crate) open spec fn names_of<T, D>(entries: Seq<RouteEntry<T, D>>) -> Seq<Seq<char>> {
    entries.map_values(|entry: RouteEntry<T, D>| entry.name())
}

/// No two entries have the same name.
pub(crate) open spec fn distinct<T, D>(entries: Seq<RouteEntry<T, D>>) -> bool {
    names_of(entries).no_duplicates()
}

/// The registry that a sequence of entries stands for.
pub(crate) open spec fn model_of<T, D>(entries: Seq<RouteEntry<T, D>>) -> RouterView<T, D> {
    RouterView {
        routes: Map::new(
            |name: Seq<char>| names_of(entries).contains(name),
            |name: Seq<char>| entries[names_of(entries).index_of(name)].route,
        ),
        dynamic: Set::new(
            |name: Seq<char>|
                names_of(entries).contains(name) && entries[names_of(entries).index_of(
                    name,
                )].dynamic,
        ),
    }
}

/// In a sequence of entries with distinct names, a name is found only where
/// it stands.
pub(crate) proof fn lemma_position<T, D>(entries: Seq<RouteEntry<T, D>>, i: int)
    requires
        distinct(entries),
        0 <= i < entries.len(),
    ensures
        names_of(entries).contains(entries[i].name()),
        names_of(entries).index_of(entries[i].name()) == i,
{
    assert(names_of(entries)[i] == entries[i].name());
}

/// The registry that entries with distinct names stand for is valid, and it
/// holds as many names as there are entries.
pub(crate) proof fn lemma_model_valid<T, D>(entries: Seq<RouteEntry<T, D>>)
    requires
        distinct(entries),
    ensures
        model_of(entries).valid(),
        model_of(entries).routes.dom() == names_of(entries).to_set(),
        model_of(entries).routes.dom().len() == entries.len(),
{
    let names = names_of(entries);
    vstd::seq_lib::seq_to_set_is_finite(names);
    names.unique_seq_to_set();
}

/// What a name leads to in entries with distinct names, told by any place
/// where the name stands.
pub(crate) proof fn lemma_lookup<T, D>(entries: Seq<RouteEntry<T, D>>, i: int)
    requires
        distinct(entries),
        0 <= i < entries.len(),
    ensures
        model_of(entries).routes.dom().contains(entries[i].name()),
        model_of(entries).routes[entries[i].name()] == entries[i].route,
        model_of(entries).dynamic.contains(entries[i].name()) == entries[i].dynamic,
{
    lemma_position(entries, i);
}

/// A name that no entry has leads nowhere.
pub(crate) proof fn lemma_absent<T, D>(entries: Seq<RouteEntry<T, D>>, name: Seq<char>)
    requires
        !names_of(entries).contains(name),
    ensures
        !model_of(entries).routes.dom().contains(name),
        !model_of(entries).dynamic.contains(name),
{
}

/// Appending an entry with a new name registers its route.
pub(crate) proof fn lemma_push<T, D>(entries: Seq<RouteEntry<T, D>>, entry: RouteEntry<T, D>)
    requires
        distinct(entries),
        !names_of(entries).contains(entry.name()),
    ensures
        distinct(entries.push(entry)),
        entry.dynamic ==> model_of(entries.push(entry)) == model_of(entries).with_dynamic(
            entry.route,
        ),
        !entry.dynamic ==> model_of(entries.push(entry)) == model_of(entries).with_static(
            entry.route,
        ),
{
    let after = entries.push(entry);
    let names = names_of(entries);
    let names_after = names_of(after);
    let last = entries.len() as int;
    assert(names_after =~= names.push(entry.name()));
    let before = model_of(entries);
    let model = model_of(after);
    let expected = if entry.dynamic {
        before.with_dynamic(entry.route)
    } else {
        before.with_static(entry.route)
    };
    assert forall|name: Seq<char>|
        model.routes.dom().contains(name) == expected.routes.dom().contains(name) by {
        if names.contains(name) {
            assert(names_after[names.index_of(name)] == name);
        }
        if name == entry.name() {
            assert(names_after[last] == name);
        }
    }
    assert forall|name: Seq<char>| #[trigger]
        model.routes.dom().contains(name) implies model.routes[name] == expected.routes[name]
        && model.dynamic.contains(name) == expected.dynamic.contains(name) by {
        if name == entry.name() {
            lemma_position(after, last);
        } else {
            let k = names.index_of(name);
            lemma_position(after, k);
            lemma_position(entries, k);
        }
    }
    assert(model.routes =~= expected.routes);
    assert forall|name: Seq<char>|
        model.dynamic.contains(name) == expected.dynamic.contains(name) by {
        assert(expected.dynamic.contains(name) ==> expected.routes.dom().contains(name));
    }
    assert(model.dynamic =~= expected.dynamic);
}

/// Putting an entry in the place of one with the same name registers its
/// route in place of the old one.
pub(crate) proof fn lemma_replace<T, D>(entries: Seq<RouteEntry<T, D>>, i: int, entry: RouteEntry<T, D>)
    requires
        distinct(entries),
        0 <= i < entries.len(),
        entries[i].name() == entry.name(),
    ensures
        distinct(entries.update(i, entry)),
        entry.dynamic ==> model_of(entries.update(i, entry)) == model_of(entries).with_dynamic(
            entry.route,
        ),
        !entry.dynamic ==> model_of(entries.update(i, entry)) == model_of(entries).with_static(
            entry.route,
        ),
{
    let after = entries.update(i, entry);
    let names = names_of(entries);
    assert(names_of(after) =~= names);
    let before = model_of(entries);
    let model = model_of(after);
    let expected = if entry.dynamic {
        before.with_dynamic(entry.route)
    } else {
        before.with_static(entry.route)
    };
    assert(names[i] == entry.name());
    assert forall|name: Seq<char>| #[trigger]
        model.routes.dom().contains(name) implies model.routes[name] == expected.routes[name]
        && model.dynamic.contains(name) == expected.dynamic.contains(name) by {
        let k = names.index_of(name);
        lemma_position(after, k);
        lemma_position(entries, k);
        lemma_position(entries, i);
    }
    assert(model.routes =~= expected.routes);
    assert(model.dynamic =~= expected.dynamic);
}

/// Taking an entry out removes its name.
pub(crate) proof fn lemma_remove<T, D>(entries: Seq<RouteEntry<T, D>>, i: int)
    requires
        distinct(entries),
        0 <= i < entries.len(),
    ensures
        distinct(entries.remove(i)),
        model_of(entries.remove(i)) == model_of(entries).without(entries[i].name()),
{
    let after = entries.remove(i);
    let names = names_of(entries);
    let names_after = names_of(after);
    assert(names_after =~= names.remove(i));
    let before = model_of(entries);
    let model = model_of(after);
    let expected = before.without(entries[i].name());
    assert forall|name: Seq<char>|
        model.routes.dom().contains(name) == expected.routes.dom().contains(name) by {
        assert(names[i] == entries[i].name());
        if names.contains(name) && name != entries[i].name() {
            let k = names.index_of(name);
            assert(names_after[if k < i { k } else { k - 1 }] == name);
        }
    }
    assert forall|name: Seq<char>| #[trigger]
        model.routes.dom().contains(name) implies model.routes[name] == expected.routes[name]
        && model.dynamic.contains(name) == expected.dynamic.contains(name) by {
        let k = names_after.index_of(name);
        let k0 = if k < i { k } else { k + 1 };
        lemma_position(after, k);
        lemma_position(entries, k0);
    }
    assert(model.routes =~= expected.routes);
    assert forall|name: Seq<char>|
        model.dynamic.contains(name) == expected.dynamic.contains(name) by {
        assert(model.dynamic.contains(name) ==> model.routes.dom().contains(name));
        assert(expected.dynamic.contains(name) ==> expected.routes.dom().contains(name));
    }
    assert(model.dynamic =~= expected.dynamic);
}

/// The number of entries that are marked as registered at run time.
pub(crate) open spec fn dynamic_among<T, D>(entries: Seq<RouteEntry<T, D>>) -> nat
    decreases entries.len(),
{
    if entries.len() == 0 {
        0
    } else {
        dynamic_among(entries.drop_last()) + if entries.last().dynamic {
            1nat
        } else {
            0nat
        }
    }
}

/// The entries before the last have distinct names, none of them that of the
/// last.
pub(crate) proof fn lemma_drop_last<T, D>(entries: Seq<RouteEntry<T, D>>)
    requires
        distinct(entries),
        entries.len() > 0,
    ensures
        distinct(entries.drop_last()),
        !names_of(entries.drop_last()).contains(entries.last().name()),
        entries == entries.drop_last().push(entries.last()),
{
    let names = names_of(entries);
    let init = names_of(entries.drop_last());
    assert(init =~= names.drop_last());
    assert(names[entries.len() - 1] == entries.last().name());
}

/// There are as many names registered at run time as entries marked so.
pub(crate) proof fn lemma_dynamic_count<T, D>(entries: Seq<RouteEntry<T, D>>)
    requires
        distinct(entries),
    ensures
        model_of(entries).dynamic.finite(),
        model_of(entries).dynamic.len() == dynamic_among(entries),
        dynamic_among(entries) <= entries.len(),
    decreases entries.len(),
{
    if entries.len() == 0 {
        assert(model_of(entries).dynamic =~= Set::empty());
    } else {
        let init = entries.drop_last();
        let last = entries.last();
        lemma_drop_last(entries);
        lemma_dynamic_count(init);
        lemma_push(init, last);
        lemma_absent(init, last.name());
    }
}

impl<T: Clone, D: Clone> RouteEntry<T, D> {
    /// A copy of the entry, with a clone of the handler.
    pub(crate) fn copy(&self) -> (copy: Self)
        ensures
            copy.route.attr == self.route.attr,
            cloned(self.route.call, copy.route.call),
            copy.dynamic == self.dynamic,
    {
        RouteEntry { route: self.route.clone(), dynamic: self.dynamic }
    }
}

} // verus!
