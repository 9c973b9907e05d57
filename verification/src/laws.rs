//! Properties of the parser and the generator that hold for every input.
use vstd::prelude::*;
use crate::index_map::{inserted, key_index, lemma_key_index};
use crate::model::{empty_actor, ActorDefView, TraitDefView};
use crate::parsers::{
    actors_of, current, is_std_trait, model_of, traits_of, with_impl,
    with_struct,
};
use crate::syntax::{FileView, ItemView, TypeView};
use crate::generators::{
    bind_without_world, indent_sep, indented, is_world_type, mentions, pub_type_without_world,
    used_generics_of, value_without_world,
};
use crate::parsers::{impl_handlers, impl_item_handler, trait_handlers, trait_item_handler, with_trait};
use crate::syntax::{FnArgView, ImplItemView, PathView, TraitItemView};
use crate::model::{HandlerType, HandlerView};
use crate::text::{contains, fill, join, keep_some, lines_from, lines_of, replace_all, strip_cr};
use crate::empty_lines_normalized;
use crate::generators::{
    angled, arg_ident, ident_val_and_type, msg_derives, msg_name, path_text, turbofish,
    without_angles,
};
use crate::syntax::PatView;
use crate::text::trim_start;
use crate::parsers::handler_kind;
use crate::syntax::SignatureView;
use crate::text::split_by;

verus! {

// ---------------------------------------------------------------------------
// The model of a module
// ---------------------------------------------------------------------------

/// No two entries have the same key.
pub open spec fn distinct_keys<V>(e: Seq<(Seq<char>, V)>) -> bool {
    forall|i: int, j: int| 0 <= i < j < e.len() ==> #[trigger] e[i].0 != #[trigger] e[j].0
}

/// The actor implements no trait that is left out of the model (`Clone`,
/// `Default`, `Deref` and the like).
pub open spec fn no_std_impls(d: ActorDefView) -> bool {
    forall|j: int| 0 <= j < d.impls.len() ==> !is_std_trait(#[trigger] d.impls[j])
}

/// Every value of the entries has the property.
pub open spec fn all_values<V>(e: Seq<(Seq<char>, V)>, p: spec_fn(V) -> bool) -> bool {
    forall|i: int| 0 <= i < e.len() ==> p(#[trigger] e[i].1)
}

/// Inserting keeps the keys distinct.
proof fn lemma_inserted_distinct<V>(e: Seq<(Seq<char>, V)>, k: Seq<char>, v: V)
    requires
        distinct_keys(e),
    ensures
        distinct_keys(inserted(e, k, v)),
{
    lemma_key_index(e, k);
    let r = inserted(e, k, v);
    match key_index(e, k) {
        Some(x) => {
            assert forall|i: int, j: int| 0 <= i < j < r.len() implies #[trigger] r[i].0 != #[trigger] r[j].0 by {
                assert(r[i].0 == e[i].0);
                assert(r[j].0 == e[j].0);
            }
        },
        None => {
            assert forall|i: int, j: int| 0 <= i < j < r.len() implies #[trigger] r[i].0 != #[trigger] r[j].0 by {
                if j < e.len() {
                    assert(r[i] == e[i] && r[j] == e[j]);
                } else {
                    assert(r[i] == e[i]);
                }
            }
        },
    }
}

/// Inserting a value with a property keeps the property of all values.
proof fn lemma_inserted_all<V>(e: Seq<(Seq<char>, V)>, k: Seq<char>, v: V, p: spec_fn(V) -> bool)
    requires
        all_values(e, p),
        p(v),
    ensures
        all_values(inserted(e, k, v), p),
{
    lemma_key_index(e, k);
    let r = inserted(e, k, v);
    assert forall|i: int| 0 <= i < r.len() implies p(#[trigger] r[i].1) by {
        if i < e.len() && r[i] == e[i] {
        } else {
            assert(r[i].1 == v);
        }
    }
}

/// The current value under a key has every property that all values and
/// the default have.
proof fn lemma_current_all<V>(e: Seq<(Seq<char>, V)>, k: Seq<char>, default: V, p: spec_fn(V) -> bool)
    requires
        all_values(e, p),
        p(default),
    ensures
        p(current(e, k, default)),
{
    lemma_key_index(e, k);
    if let Some(i) = key_index(e, k) {
        assert(p(e[i].1));
    }
}

/// Filtering keeps the keys distinct.
proof fn lemma_filter_distinct<V>(e: Seq<(Seq<char>, V)>, p: spec_fn((Seq<char>, V)) -> bool)
    requires
        distinct_keys(e),
    ensures
        distinct_keys(e.filter(p)),
    decreases e.len(),
{
    reveal(Seq::filter);
    if e.len() > 0 {
        let d = e.drop_last();
        assert(distinct_keys(d)) by {
            assert forall|i: int, j: int| 0 <= i < j < d.len() implies #[trigger] d[i].0 != #[trigger] d[j].0 by {
                assert(d[i] == e[i] && d[j] == e[j]);
            }
        }
        lemma_filter_distinct(d, p);
        let f = d.filter(p);
        if p(e.last()) {
            let r = f.push(e.last());
            assert forall|i: int, j: int| 0 <= i < j < r.len() implies #[trigger] r[i].0 != #[trigger] r[j].0 by {
                if j == f.len() {
                    assert(f.contains(f[i]));
                    d.lemma_filter_contains_rev(p, f[i]);
                    let m = choose|m: int| 0 <= m < d.len() && d[m] == f[i];
                    assert(e[m] == d[m]);
                    assert(e[m].0 != e[e.len() - 1].0);
                } else {
                    assert(r[i] == f[i] && r[j] == f[j]);
                }
            }
        }
    }
}

/// Filtering keeps a property of all values.
proof fn lemma_filter_all<V>(e: Seq<(Seq<char>, V)>, p: spec_fn((Seq<char>, V)) -> bool, q: spec_fn(V) -> bool)
    requires
        all_values(e, q),
    ensures
        all_values(e.filter(p), q),
{
    let f = e.filter(p);
    assert forall|i: int| 0 <= i < f.len() implies q(#[trigger] f[i].1) by {
        assert(f.contains(f[i]));
        e.lemma_filter_contains_rev(p, f[i]);
    }
}

/// The actors that items declare have distinct names, and none implements a
/// trait that is left out of the model.
proof fn lemma_actors_of(items: Seq<ItemView>)
    ensures
        distinct_keys(actors_of(items)),
        all_values(actors_of(items), |d: ActorDefView| no_std_impls(d)),
    decreases items.len(),
{
    let p = |d: ActorDefView| no_std_impls(d);
    if items.len() > 0 {
        let prev = actors_of(items.drop_last());
        lemma_actors_of(items.drop_last());
        assert(p(empty_actor()));
        match items.last() {
            ItemView::Struct { ident, generics } => {
                let cur = current(prev, ident, empty_actor());
                lemma_current_all(prev, ident, empty_actor(), p);
                assert(p(with_struct(cur, generics)));
                lemma_inserted_distinct(prev, ident, with_struct(cur, generics));
                lemma_inserted_all(prev, ident, with_struct(cur, generics), p);
            },
            ItemView::Impl { trait_path, self_ty, items: its, generics } => {
                if let TypeView::Path { path, .. } = self_ty {
                    let k = path.segments[0].ident;
                    let cur = current(prev, k, empty_actor());
                    lemma_current_all(prev, k, empty_actor(), p);
                    let d = with_impl(cur, trait_path, its, generics, path);
                    assert(p(d)) by {
                        assert forall|j: int| 0 <= j < d.impls.len() implies !is_std_trait(#[trigger] d.impls[j]) by {
                            if j < cur.impls.len() {
                                assert(d.impls[j] == cur.impls[j]);
                            }
                        }
                    }
                    lemma_inserted_distinct(prev, k, d);
                    lemma_inserted_all(prev, k, d, p);
                }
            },
            _ => {},
        }
    }
}

/// The traits that items declare have distinct names.
proof fn lemma_traits_of(items: Seq<ItemView>)
    ensures
        distinct_keys(traits_of(items)),
    decreases items.len(),
{
    if items.len() > 0 {
        lemma_traits_of(items.drop_last());
        let prev = traits_of(items.drop_last());
        if let ItemView::Trait { ident, items: its, generics } = items.last() {
            lemma_inserted_distinct(prev, ident, crate::parsers::with_trait(current(prev, ident, crate::model::empty_trait()), ident, its, generics));
        }
    }
}

/// Every actor of a module's model has a message handler or implements an
/// actor trait, and every trait of it has a message handler.
pub proof fn law_model_entries_are_active(file: FileView)
    ensures
        forall|i: int| 0 <= i < model_of(file).actors.len() ==> #[trigger] model_of(file).actors[i].1.is_active(),
        forall|i: int| 0 <= i < model_of(file).traits.len() ==> #[trigger] model_of(file).traits[i].1.is_active(),
{
    let pa = |e: (Seq<char>, ActorDefView)| e.1.is_active();
    let pt = |e: (Seq<char>, TraitDefView)| e.1.is_active();
    assert forall|i: int| 0 <= i < model_of(file).actors.len() implies #[trigger] model_of(file).actors[i].1.is_active() by {
        actors_of(file.items).lemma_filter_pred(pa, i);
    }
    assert forall|i: int| 0 <= i < model_of(file).traits.len() implies #[trigger] model_of(file).traits[i].1.is_active() by {
        traits_of(file.items).lemma_filter_pred(pt, i);
    }
}

/// No two actors of a module's model have the same name, and no two traits.
pub proof fn law_model_names_are_distinct(file: FileView)
    ensures
        distinct_keys(model_of(file).actors),
        distinct_keys(model_of(file).traits),
{
    lemma_actors_of(file.items);
    lemma_traits_of(file.items);
    lemma_filter_distinct(actors_of(file.items), |e: (Seq<char>, ActorDefView)| e.1.is_active());
    lemma_filter_distinct(traits_of(file.items), |e: (Seq<char>, TraitDefView)| e.1.is_active());
}

/// No actor of a module's model implements `Deref`, `DerefMut`, `Default`,
/// `Clone`, `Into`, `From`, `Add`, `AddAssign` or `Sum` as an actor trait.
pub proof fn law_model_has_no_std_trait_impls(file: FileView)
    ensures
        forall|i: int| 0 <= i < model_of(file).actors.len() ==> no_std_impls(#[trigger] model_of(file).actors[i].1),
{
    let q = |d: ActorDefView| no_std_impls(d);
    lemma_actors_of(file.items);
    lemma_filter_all(actors_of(file.items), |e: (Seq<char>, ActorDefView)| e.1.is_active(), q);
    assert forall|i: int| 0 <= i < model_of(file).actors.len() implies no_std_impls(#[trigger] model_of(file).actors[i].1) by {
        assert(q(model_of(file).actors[i].1));
    }
}

/// The items declare a struct called `k`.
pub open spec fn declares_struct(items: Seq<ItemView>, k: Seq<char>) -> bool {
    exists|j: int| 0 <= j < items.len() && #[trigger] struct_called(items[j], k)
}

/// The item is a struct called `k`.
pub open spec fn struct_called(item: ItemView, k: Seq<char>) -> bool {
    item matches ItemView::Struct { ident, .. } && ident == k
}

/// The items declare a trait called `k`.
pub open spec fn declares_trait(items: Seq<ItemView>, k: Seq<char>) -> bool {
    exists|j: int| 0 <= j < items.len() && #[trigger] trait_called(items[j], k)
}

/// The item is a trait called `k`.
pub open spec fn trait_called(item: ItemView, k: Seq<char>) -> bool {
    item matches ItemView::Trait { ident, .. } && ident == k
}

/// Some entry has key `k`.
pub open spec fn has_key<V>(e: Seq<(Seq<char>, V)>, k: Seq<char>) -> bool {
    exists|i: int| 0 <= i < e.len() && #[trigger] e[i].0 == k
}

/// What inserting does to each entry of entries with distinct keys.
proof fn lemma_inserted_entries<V>(e: Seq<(Seq<char>, V)>, k: Seq<char>, v: V)
    requires
        distinct_keys(e),
    ensures
        inserted(e, k, v).len() >= e.len(),
        has_key(inserted(e, k, v), k),
        forall|i: int| 0 <= i < inserted(e, k, v).len() && #[trigger] inserted(e, k, v)[i].0 == k ==> inserted(e, k, v)[i].1 == v,
        forall|i: int| 0 <= i < inserted(e, k, v).len() && #[trigger] inserted(e, k, v)[i].0 != k ==> i < e.len() && inserted(e, k, v)[i] == e[i],
        forall|i: int| 0 <= i < e.len() ==> #[trigger] inserted(e, k, v)[i].0 == e[i].0,
{
    lemma_key_index(e, k);
    let r = inserted(e, k, v);
    match key_index(e, k) {
        Some(x) => {
            assert(r[x].0 == k);
        },
        None => {
            assert(r[e.len() as int].0 == k);
        },
    }
}

/// A struct that the items with one more item declare is one that the
/// items declare, or the last item.
proof fn lemma_declares_push(items: Seq<ItemView>, k: Seq<char>)
    requires
        items.len() > 0,
    ensures
        declares_struct(items, k) <==> declares_struct(items.drop_last(), k) || struct_called(items.last(), k),
        declares_trait(items, k) <==> declares_trait(items.drop_last(), k) || trait_called(items.last(), k),
{
    let d = items.drop_last();
    if declares_struct(items, k) && !struct_called(items.last(), k) {
        let j = choose|j: int| 0 <= j < items.len() && #[trigger] struct_called(items[j], k);
        assert(d[j] == items[j]);
    }
    if declares_struct(d, k) {
        let j = choose|j: int| 0 <= j < d.len() && #[trigger] struct_called(d[j], k);
        assert(d[j] == items[j]);
    }
    if declares_trait(items, k) && !trait_called(items.last(), k) {
        let j = choose|j: int| 0 <= j < items.len() && #[trigger] trait_called(items[j], k);
        assert(d[j] == items[j]);
    }
    if declares_trait(d, k) {
        let j = choose|j: int| 0 <= j < d.len() && #[trigger] trait_called(d[j], k);
        assert(d[j] == items[j]);
    }
}

/// An actor that items declare is marked as declared here exactly when the
/// items declare a struct of its name, and every such struct has an actor.
proof fn lemma_actors_defined_here(items: Seq<ItemView>)
    ensures
        forall|i: int| 0 <= i < actors_of(items).len() ==> (#[trigger] actors_of(items)[i].1.defined_here
            <==> declares_struct(items, actors_of(items)[i].0)),
        forall|k: Seq<char>| declares_struct(items, k) ==> has_key(actors_of(items), k),
    decreases items.len(),
{
    if items.len() > 0 {
        let d = items.drop_last();
        let prev = actors_of(d);
        let r = actors_of(items);
        lemma_actors_defined_here(d);
        lemma_actors_of(d);
        assert forall|k: Seq<char>| #[trigger] declares_struct(items, k) == (declares_struct(d, k) || struct_called(items.last(), k)) by {
            lemma_declares_push(items, k);
        }
        match items.last() {
            ItemView::Struct { ident, generics } => {
                let cur = current(prev, ident, empty_actor());
                let v = with_struct(cur, generics);
                lemma_inserted_entries(prev, ident, v);
                assert forall|i: int| 0 <= i < r.len() implies (#[trigger] r[i].1.defined_here
                    <==> declares_struct(items, r[i].0)) by {
                    if r[i].0 != ident {
                        assert(r[i] == prev[i]);
                    }
                }
                assert forall|k: Seq<char>| declares_struct(items, k) implies has_key(r, k) by {
                    if k != ident {
                        assert(!struct_called(items.last(), k));
                        assert(declares_struct(d, k));
                        assert(has_key(prev, k));
                        let i = choose|i: int| 0 <= i < prev.len() && #[trigger] prev[i].0 == k;
                        assert(r[i].0 == k);
                    }
                }
            },
            ItemView::Impl { trait_path, self_ty, items: its, generics } => {
                if let TypeView::Path { path, .. } = self_ty {
                    let k0 = path.segments[0].ident;
                    let cur = current(prev, k0, empty_actor());
                    let v = with_impl(cur, trait_path, its, generics, path);
                    lemma_inserted_entries(prev, k0, v);
                    lemma_key_index(prev, k0);
                    assert(v.defined_here <==> declares_struct(items, k0)) by {
                        if let Some(x) = key_index(prev, k0) {
                            assert(prev[x].1.defined_here <==> declares_struct(d, prev[x].0));
                        } else {
                            if declares_struct(d, k0) {
                                let i = choose|i: int| 0 <= i < prev.len() && #[trigger] prev[i].0 == k0;
                                assert(prev[i].0 == k0);
                            }
                        }
                    }
                    assert forall|i: int| 0 <= i < r.len() implies (#[trigger] r[i].1.defined_here
                        <==> declares_struct(items, r[i].0)) by {
                        if r[i].0 != k0 {
                            assert(r[i] == prev[i]);
                        }
                    }
                    assert forall|k: Seq<char>| declares_struct(items, k) implies has_key(r, k) by {
                        assert(!struct_called(items.last(), k));
                        assert(declares_struct(d, k));
                        let i = choose|i: int| 0 <= i < prev.len() && #[trigger] prev[i].0 == k;
                        assert(r[i].0 == k);
                    }
                }
            },
            _ => {},
        }
    }
}

/// Every trait that items declare has a trait item of its name.
proof fn lemma_traits_declared(items: Seq<ItemView>)
    ensures
        forall|i: int| 0 <= i < traits_of(items).len() ==> declares_trait(items, #[trigger] traits_of(items)[i].0),
    decreases items.len(),
{
    if items.len() > 0 {
        let d = items.drop_last();
        let prev = traits_of(d);
        let r = traits_of(items);
        lemma_traits_declared(d);
        lemma_traits_of(d);
        assert forall|k: Seq<char>| #[trigger] declares_trait(items, k) == (declares_trait(d, k) || trait_called(items.last(), k)) by {
            lemma_declares_push(items, k);
        }
        if let ItemView::Trait { ident, items: its, generics } = items.last() {
            let v = crate::parsers::with_trait(current(prev, ident, crate::model::empty_trait()), ident, its, generics);
            lemma_inserted_entries(prev, ident, v);
            assert forall|i: int| 0 <= i < r.len() implies declares_trait(items, #[trigger] r[i].0) by {
                if r[i].0 != ident {
                    assert(r[i] == prev[i]);
                    assert(declares_trait(d, prev[i].0));
                }
            }
        }
    }
}

/// An actor of a module's model is marked as declared here exactly when the
/// module declares a struct of its name.
pub proof fn law_defined_here_means_struct_in_module(file: FileView)
    ensures
        forall|i: int| 0 <= i < model_of(file).actors.len() ==> (#[trigger] model_of(file).actors[i].1.defined_here
            <==> declares_struct(file.items, model_of(file).actors[i].0)),
{
    let a = actors_of(file.items);
    let p = |e: (Seq<char>, ActorDefView)| e.1.is_active();
    lemma_actors_defined_here(file.items);
    let m = a.filter(p);
    assert forall|i: int| 0 <= i < m.len() implies (#[trigger] m[i].1.defined_here
        <==> declares_struct(file.items, m[i].0)) by {
        assert(m.contains(m[i]));
        a.lemma_filter_contains_rev(p, m[i]);
        let j = choose|j: int| 0 <= j < a.len() && a[j] == m[i];
        assert(a[j].1.defined_here <==> declares_struct(file.items, a[j].0));
    }
}

/// Every trait of a module's model is declared by the module.
pub proof fn law_traits_are_declared_in_module(file: FileView)
    ensures
        forall|i: int| 0 <= i < model_of(file).traits.len() ==> declares_trait(file.items, #[trigger] model_of(file).traits[i].0),
{
    let t = traits_of(file.items);
    let p = |e: (Seq<char>, TraitDefView)| e.1.is_active();
    lemma_traits_declared(file.items);
    let m = t.filter(p);
    assert forall|i: int| 0 <= i < m.len() implies declares_trait(file.items, #[trigger] m[i].0) by {
        assert(m.contains(m[i]));
        t.lemma_filter_contains_rev(p, m[i]);
        let j = choose|j: int| 0 <= j < t.len() && t[j] == m[i];
        assert(declares_trait(file.items, t[j].0));
    }
}

// ---------------------------------------------------------------------------
// Text
// ---------------------------------------------------------------------------

/// A line: no newline in it, and no carriage return at its end.
pub open spec fn is_line(l: Seq<char>) -> bool {
    !l.contains('\n') && strip_cr(l) == l
}

/// Reading a line that a newline ends.
proof fn lemma_lines_from_line(cur: Seq<char>, x: Seq<char>, y: Seq<char>)
    requires
        !x.contains('\n'),
    ensures
        lines_from(cur, x + seq!['\n'] + y) == seq![strip_cr(cur + x)] + lines_from(seq![], y),
    decreases x.len(),
{
    let rest = x + seq!['\n'] + y;
    if x.len() == 0 {
        assert(rest[0] == '\n');
        assert(rest.skip(1) =~= y);
        assert(cur + x =~= cur);
    } else {
        assert(rest[0] == x[0]);
        assert(x[0] != '\n') by {
            if x[0] == '\n' {
                assert(x.contains(x[0]));
            }
        }
        assert(!x.skip(1).contains('\n')) by {
            if x.skip(1).contains('\n') {
                let j = choose|j: int| 0 <= j < x.skip(1).len() && x.skip(1)[j] == '\n';
                assert(x[j + 1] == '\n');
            }
        }
        assert(rest.skip(1) =~= x.skip(1) + seq!['\n'] + y);
        lemma_lines_from_line(cur.push(x[0]), x.skip(1), y);
        assert(cur.push(x[0]) + x.skip(1) =~= cur + x);
    }
}

/// Reading a last line that no newline ends.
proof fn lemma_lines_from_last(cur: Seq<char>, x: Seq<char>)
    requires
        !x.contains('\n'),
    ensures
        lines_from(cur, x) == if (cur + x).len() == 0 {
            Seq::<Seq<char>>::empty()
        } else {
            seq![cur + x]
        },
    decreases x.len(),
{
    if x.len() == 0 {
        assert(cur + x =~= cur);
    } else {
        assert(x[0] != '\n') by {
            if x[0] == '\n' {
                assert(x.contains(x[0]));
            }
        }
        assert(!x.skip(1).contains('\n')) by {
            if x.skip(1).contains('\n') {
                let j = choose|j: int| 0 <= j < x.skip(1).len() && x.skip(1)[j] == '\n';
                assert(x[j + 1] == '\n');
            }
        }
        lemma_lines_from_last(cur.push(x[0]), x.skip(1));
        assert(cur.push(x[0]) + x.skip(1) =~= cur + x);
    }
}

/// Joining parts from the front.
proof fn lemma_join_front(ls: Seq<Seq<char>>, sep: Seq<char>)
    requires
        ls.len() >= 2,
    ensures
        join(ls, sep) == ls[0] + sep + join(ls.skip(1), sep),
    decreases ls.len(),
{
    let d = ls.drop_last();
    let t = ls.skip(1);
    assert(join(ls, sep) == join(d, sep) + sep + ls.last());
    if ls.len() == 2 {
        assert(d.len() == 1 && d[0] == ls[0]);
        assert(join(d, sep) == ls[0]);
        assert(t.len() == 1 && t[0] == ls[1]);
        assert(join(t, sep) == ls[1]);
        assert(ls.last() == ls[1]);
    } else {
        lemma_join_front(d, sep);
        assert(t.drop_last() =~= d.skip(1));
        assert(t.last() == ls.last());
        assert(d[0] == ls[0]);
        assert(join(t, sep) == join(t.drop_last(), sep) + sep + t.last());
        assert(ls[0] + sep + join(d.skip(1), sep) + sep + ls.last() =~= ls[0] + sep + (join(d.skip(1), sep)
            + sep + ls.last()));
    }
}

/// The lines of lines joined with newlines are those lines.
proof fn lemma_lines_of_join(ls: Seq<Seq<char>>)
    requires
        forall|i: int| 0 <= i < ls.len() ==> is_line(#[trigger] ls[i]),
        ls.len() > 0 ==> ls.last().len() > 0,
    ensures
        lines_of(join(ls, seq!['\n'])) == ls,
    decreases ls.len(),
{
    if ls.len() == 0 {
    } else if ls.len() == 1 {
        assert(is_line(ls[0]));
        lemma_lines_from_last(seq![], ls[0]);
        assert(Seq::<char>::empty() + ls[0] =~= ls[0]);
        assert(seq![ls[0]] =~= ls);
    } else {
        lemma_join_front(ls, seq!['\n']);
        assert(is_line(ls[0]));
        let tail = ls.skip(1);
        assert forall|i: int| 0 <= i < tail.len() implies is_line(#[trigger] tail[i]) by {
            assert(tail[i] == ls[i + 1]);
        }
        lemma_lines_of_join(tail);
        lemma_lines_from_line(seq![], ls[0], join(tail, seq!['\n']));
        assert(Seq::<char>::empty() + ls[0] =~= ls[0]);
        assert(seq![ls[0]] + tail =~= ls);
    }
}

/// `ind` indents all lines but the first: lines joined with newlines come
/// out joined with a newline and the indentation.
pub proof fn law_ind_indents_all_but_the_first_line(ls: Seq<Seq<char>>, levels: nat)
    requires
        forall|i: int| 0 <= i < ls.len() ==> is_line(#[trigger] ls[i]),
        ls.len() > 0 ==> ls.last().len() > 0,
    ensures
        indented(join(ls, seq!['\n']), levels) == join(ls, indent_sep(levels)),
{
    lemma_lines_of_join(ls);
}

/// The `Some` values of a sequence of `None`s are none.
proof fn lemma_keep_some_none<A>(s: Seq<Option<A>>)
    requires
        forall|i: int| 0 <= i < s.len() ==> #[trigger] s[i] is None,
    ensures
        keep_some(s) == Seq::<A>::empty(),
    decreases s.len(),
{
    if s.len() > 0 {
        assert(s.last() is None);
        lemma_keep_some_none(s.drop_last());
    }
}

/// A handler without arguments needs no generic parameter for its messages.
pub proof fn law_handler_without_arguments_uses_no_generics(
    h: HandlerView,
    short: Seq<char>,
    full: Seq<char>,
    return_short: bool,
)
    requires
        h.scope == HandlerType::Handler,
        h.arguments.len() == 0,
    ensures
        used_generics_of(h, short, full, return_short) == Seq::<char>::empty(),
{
    let longs = crate::text::split_by(crate::generators::without_angles(full), ", "@);
    let shorts = crate::text::split_by(crate::generators::without_angles(short), ", "@);
    let n = if longs.len() < shorts.len() {
        longs.len()
    } else {
        shorts.len()
    };
    let s = Seq::new(
        n,
        |i: int|
            if mentions(h.arguments, shorts[i]) {
                Some(
                    if return_short {
                        shorts[i]
                    } else {
                        longs[i]
                    },
                )
            } else {
                None
            },
    );
    lemma_keep_some_none(s);
}

/// A template without braces is filled to itself.
pub proof fn law_fill_without_braces(t: Seq<char>, args: Seq<(Seq<char>, Seq<char>)>)
    requires
        forall|i: int| 0 <= i < t.len() ==> #[trigger] t[i] != '{' && t[i] != '}',
    ensures
        fill(t, args) == t,
    decreases t.len(),
{
    reveal(fill);
    if t.len() > 0 {
        let r = t.skip(1);
        assert forall|i: int| 0 <= i < r.len() implies #[trigger] r[i] != '{' && r[i] != '}' by {
            assert(r[i] == t[i + 1]);
        }
        law_fill_without_braces(r, args);
        assert(seq![t[0]] + r =~= t);
    }
}

/// Replacing a pattern that does not occur changes nothing.
proof fn lemma_replace_absent(s: Seq<char>, from: Seq<char>, to: Seq<char>)
    requires
        !contains(s, from),
    ensures
        replace_all(s, from, to) == s,
    decreases s.len(),
{
    if from.len() > 0 && s.len() >= from.len() {
        if s.take(from.len() as int) == from {
            assert(s.subrange(0int, 0int + from.len()) =~= s.take(from.len() as int));
            assert(contains(s, from));
        }
        let r = s.skip(1);
        assert(!contains(r, from)) by {
            if contains(r, from) {
                let i = choose|i: int| 0 <= i <= r.len() - from.len() && #[trigger] r.subrange(i, i + from.len()) == from;
                assert(s.subrange(i + 1, i + 1 + from.len()) =~= r.subrange(i, i + from.len()));
            }
        }
        lemma_replace_absent(r, from, to);
        assert(seq![s[0]] + r =~= s);
    }
}

/// Text in which no four spaces stand right before a newline is left as it
/// is by `normalize_empty_lines`.
pub proof fn law_normalized_text_is_unchanged(s: Seq<char>)
    requires
        !contains(s, "    \n"@),
    ensures
        empty_lines_normalized(s) == s,
{
    reveal_strlit("    \n");
    reveal_strlit("        \n");
    let four = "    \n"@;
    let eight = "        \n"@;
    assert(!contains(s, eight)) by {
        if contains(s, eight) {
            let i = choose|i: int| 0 <= i <= s.len() - eight.len() && #[trigger] s.subrange(i, i + eight.len()) == eight;
            assert(s.subrange(i + 4, i + 4 + four.len()) =~= four) by {
                assert forall|j: int| 0 <= j < four.len() implies s.subrange(i + 4, i + 4 + four.len())[j] == four[j] by {
                    assert(s.subrange(i, i + eight.len())[j + 4] == eight[j + 4]);
                }
            }
        }
    }
    lemma_replace_absent(s, eight, "\n"@);
    lemma_replace_absent(s, four, "\n"@);
}

// ---------------------------------------------------------------------------
// Messages and handlers
// ---------------------------------------------------------------------------

/// The argument takes a `World` by value, not by reference.
pub open spec fn world_by_value(a: FnArgView) -> bool {
    a matches FnArgView::Captured { ty, .. } && is_world_type(ty) && !(ty is Reference)
}

/// Mapping then keeping the `Some` values, one more element at a time.
proof fn lemma_keep_some_map_push<A, B>(s: Seq<A>, f: spec_fn(A) -> Option<B>)
    requires
        s.len() > 0,
    ensures
        keep_some(s.map_values(f)) == match f(s.last()) {
            Some(v) => keep_some(s.drop_last().map_values(f)).push(v),
            None => keep_some(s.drop_last().map_values(f)),
        },
{
    assert(s.map_values(f).drop_last() =~= s.drop_last().map_values(f));
    assert(s.map_values(f).last() == f(s.last()));
}

/// A sending method puts into a message as many values as the message type
/// has fields, and a handler registration's pattern binds as many; an
/// argument that takes the `World` by value is the exception.
pub proof fn law_message_values_fields_and_bindings_agree(args: Seq<FnArgView>)
    requires
        forall|i: int| 0 <= i < args.len() ==> !world_by_value(#[trigger] args[i]),
    ensures
        keep_some(args.map_values(|a: FnArgView| value_without_world(a))).len() == keep_some(
            args.map_values(|a: FnArgView| pub_type_without_world(a)),
        ).len(),
        keep_some(args.map_values(|a: FnArgView| value_without_world(a))).len() == keep_some(
            args.map_values(|a: FnArgView| bind_without_world(a)),
        ).len(),
    decreases args.len(),
{
    if args.len() > 0 {
        let fv = |a: FnArgView| value_without_world(a);
        let ft = |a: FnArgView| pub_type_without_world(a);
        let fb = |a: FnArgView| bind_without_world(a);
        let d = args.drop_last();
        assert forall|i: int| 0 <= i < d.len() implies !world_by_value(#[trigger] d[i]) by {
            assert(d[i] == args[i]);
        }
        law_message_values_fields_and_bindings_agree(d);
        lemma_keep_some_map_push(args, fv);
        lemma_keep_some_map_push(args, ft);
        lemma_keep_some_map_push(args, fb);
        assert(!world_by_value(args[args.len() - 1]));
    }
}

/// Every `Some` value kept is the value of some element.
proof fn lemma_keep_some_from<A>(s: Seq<Option<A>>)
    ensures
        forall|j: int| 0 <= j < keep_some(s).len() ==> exists|i: int| 0 <= i < s.len() && s[i] == Some(#[trigger] keep_some(s)[j]),
    decreases s.len(),
{
    if s.len() > 0 {
        let d = s.drop_last();
        lemma_keep_some_from(d);
        let k = keep_some(s);
        assert forall|j: int| 0 <= j < k.len() implies exists|i: int| 0 <= i < s.len() && s[i] == Some(#[trigger] k[j]) by {
            if j < keep_some(d).len() {
                assert(k[j] == keep_some(d)[j]);
                let i = choose|i: int| 0 <= i < d.len() && d[i] == Some(#[trigger] keep_some(d)[j]);
                assert(s[i] == d[i]);
            } else {
                assert(s[s.len() - 1] == Some(k[j]));
            }
        }
    }
}

/// The handlers of an `impl` block name the block's trait, if it has one.
proof fn lemma_impl_handlers_from(items: Seq<ImplItemView>, with: Option<PathView>, parent: PathView)
    ensures
        forall|j: int| 0 <= j < impl_handlers(items, with, parent).len() ==> #[trigger] impl_handlers(items, with, parent)[j].from_trait == with,
{
    let f = |it: ImplItemView| impl_item_handler(it, with, parent);
    let s = items.map_values(f);
    lemma_keep_some_from(s);
    assert forall|j: int| 0 <= j < keep_some(s).len() implies #[trigger] keep_some(s)[j].from_trait == with by {
        let i = choose|i: int| 0 <= i < s.len() && s[i] == Some(#[trigger] keep_some(s)[j]);
        assert(s[i] == f(items[i]));
    }
}

/// The handlers of a trait name no trait.
proof fn lemma_trait_handlers_from(items: Seq<TraitItemView>, parent: PathView)
    ensures
        forall|j: int| 0 <= j < trait_handlers(items, parent).len() ==> #[trigger] trait_handlers(items, parent)[j].from_trait is None,
{
    let f = |it: TraitItemView| trait_item_handler(it, parent);
    let s = items.map_values(f);
    lemma_keep_some_from(s);
    assert forall|j: int| 0 <= j < keep_some(s).len() implies #[trigger] keep_some(s)[j].from_trait is None by {
        let i = choose|i: int| 0 <= i < s.len() && s[i] == Some(#[trigger] keep_some(s)[j]);
        assert(s[i] == f(items[i]));
    }
}

/// Every handler of the actor that a trait implementation declares names a
/// trait that the actor implements, or one that is left out of the model.
pub open spec fn handlers_name_implemented_traits(d: ActorDefView) -> bool {
    forall|j: int|
        0 <= j < d.handlers.len() ==> (#[trigger] d.handlers[j].from_trait matches Some(t) ==> d.impls.contains(t)
            || is_std_trait(t))
}

/// No handler of the trait names a trait.
pub open spec fn handlers_name_no_trait(d: TraitDefView) -> bool {
    forall|j: int| 0 <= j < d.handlers.len() ==> #[trigger] d.handlers[j].from_trait is None
}

/// The actors that items declare keep their handlers' traits among their
/// implementations.
proof fn lemma_actors_handlers_from(items: Seq<ItemView>)
    ensures
        all_values(actors_of(items), |d: ActorDefView| handlers_name_implemented_traits(d)),
    decreases items.len(),
{
    let p = |d: ActorDefView| handlers_name_implemented_traits(d);
    if items.len() > 0 {
        let prev = actors_of(items.drop_last());
        lemma_actors_handlers_from(items.drop_last());
        assert(p(empty_actor()));
        match items.last() {
            ItemView::Struct { ident, generics } => {
                let cur = current(prev, ident, empty_actor());
                lemma_current_all(prev, ident, empty_actor(), p);
                assert(p(with_struct(cur, generics)));
                lemma_inserted_all(prev, ident, with_struct(cur, generics), p);
            },
            ItemView::Impl { trait_path, self_ty, items: its, generics } => {
                if let TypeView::Path { path, .. } = self_ty {
                    let k = path.segments[0].ident;
                    let cur = current(prev, k, empty_actor());
                    lemma_current_all(prev, k, empty_actor(), p);
                    let d = with_impl(cur, trait_path, its, generics, path);
                    let added = impl_handlers(its, trait_path, path);
                    lemma_impl_handlers_from(its, trait_path, path);
                    assert(p(d)) by {
                        assert forall|j: int| 0 <= j < d.handlers.len() implies (#[trigger] d.handlers[j].from_trait matches Some(t)
                            ==> d.impls.contains(t) || is_std_trait(t)) by {
                            if j < cur.handlers.len() {
                                assert(d.handlers[j] == cur.handlers[j]);
                                if let Some(t) = cur.handlers[j].from_trait {
                                    if cur.impls.contains(t) {
                                        let x = choose|x: int| 0 <= x < cur.impls.len() && cur.impls[x] == t;
                                        assert(d.impls[x] == t);
                                    }
                                }
                            } else {
                                assert(d.handlers[j] == added[j - cur.handlers.len()]);
                                if let Some(t) = trait_path {
                                    if !is_std_trait(t) {
                                        assert(d.impls[d.impls.len() - 1] == t);
                                    }
                                }
                            }
                        }
                    }
                    lemma_inserted_all(prev, k, d, p);
                }
            },
            _ => {},
        }
    }
}

/// The traits that items declare have only their own handlers.
proof fn lemma_traits_handlers_from(items: Seq<ItemView>)
    ensures
        all_values(traits_of(items), |d: TraitDefView| handlers_name_no_trait(d)),
    decreases items.len(),
{
    let p = |d: TraitDefView| handlers_name_no_trait(d);
    if items.len() > 0 {
        let prev = traits_of(items.drop_last());
        lemma_traits_handlers_from(items.drop_last());
        if let ItemView::Trait { ident, items: its, generics } = items.last() {
            let cur = current(prev, ident, crate::model::empty_trait());
            lemma_current_all(prev, ident, crate::model::empty_trait(), p);
            let d = with_trait(cur, ident, its, generics);
            let added = trait_handlers(its, crate::parsers::ident_path(ident));
            lemma_trait_handlers_from(its, crate::parsers::ident_path(ident));
            assert(p(d)) by {
                assert forall|j: int| 0 <= j < d.handlers.len() implies #[trigger] d.handlers[j].from_trait is None by {
                    if j < cur.handlers.len() {
                        assert(d.handlers[j] == cur.handlers[j]);
                    } else {
                        assert(d.handlers[j] == added[j - cur.handlers.len()]);
                    }
                }
            }
            lemma_inserted_all(prev, ident, d, p);
        }
    }
}

/// In a module's model, every handler of an actor that a trait
/// implementation declares names a trait that the actor implements (or one
/// left out of the model), and no handler of a trait names a trait.
pub proof fn law_handlers_name_their_traits(file: FileView)
    ensures
        forall|i: int| 0 <= i < model_of(file).actors.len() ==> handlers_name_implemented_traits(#[trigger] model_of(file).actors[i].1),
        forall|i: int| 0 <= i < model_of(file).traits.len() ==> handlers_name_no_trait(#[trigger] model_of(file).traits[i].1),
{
    let qa = |d: ActorDefView| handlers_name_implemented_traits(d);
    let qt = |d: TraitDefView| handlers_name_no_trait(d);
    lemma_actors_handlers_from(file.items);
    lemma_traits_handlers_from(file.items);
    lemma_filter_all(actors_of(file.items), |e: (Seq<char>, ActorDefView)| e.1.is_active(), qa);
    lemma_filter_all(traits_of(file.items), |e: (Seq<char>, TraitDefView)| e.1.is_active(), qt);
    assert forall|i: int| 0 <= i < model_of(file).actors.len() implies handlers_name_implemented_traits(#[trigger] model_of(file).actors[i].1) by {
        assert(qa(model_of(file).actors[i].1));
    }
    assert forall|i: int| 0 <= i < model_of(file).traits.len() implies handlers_name_no_trait(#[trigger] model_of(file).traits[i].1) by {
        assert(qt(model_of(file).traits[i].1));
    }
}

// ---------------------------------------------------------------------------
// What the parts of a handler, a path and a message are
// ---------------------------------------------------------------------------

/// The argument is `name: &mut W` where the last segment of the path `W` is
/// `World`.
pub open spec fn world_arg(a: FnArgView) -> bool {
    match a {
        FnArgView::Captured { ty, .. } => match ty {
            TypeView::Reference { mutable, elem, .. } => mutable && match *elem {
                TypeView::Path { path, .. } => path.segments.len() > 0 && path.segments[path.segments.len()
                    - 1].ident == "World"@,
                _ => false,
            },
            _ => false,
        },
        _ => false,
    }
}

/// Which methods are handlers:
/// - a method that takes `&self` (or `&mut self`) first and `&mut World`
///   last is a handler of the arguments after the first;
/// - a function without `self` that takes `&mut World` last and returns
///   `Self` (a path whose last segment is `Self`), or the type of the `impl`
///   block, is an init handler of the arguments after the first;
/// - a method that takes `self` by value, or a signature without arguments,
///   is no handler.
pub proof fn law_handler_kinds(sig: SignatureView, parent: PathView)
    ensures
        sig.inputs.len() > 0 && world_arg(sig.inputs.last()) && sig.inputs[0] is SelfRef
            ==> handler_kind(sig, parent) == Some((sig.inputs.skip(1), HandlerType::Handler)),
        sig.inputs.len() > 0 && world_arg(sig.inputs.last()) && !(sig.inputs[0] is SelfRef)
            && !(sig.inputs[0] is SelfValue) && (sig.output matches Some(TypeView::Path { path, .. })
            && path.segments.len() > 0 && path.segments[path.segments.len() - 1].ident == "Self"@)
            ==> handler_kind(sig, parent) == Some((sig.inputs.skip(1), HandlerType::Init)),
        sig.inputs.len() > 0 && world_arg(sig.inputs.last()) && !(sig.inputs[0] is SelfRef)
            && !(sig.inputs[0] is SelfValue) && (sig.output matches Some(TypeView::Path { path, .. })
            && path == parent) ==> handler_kind(sig, parent) == Some((sig.inputs.skip(1), HandlerType::Init)),
        sig.inputs.len() > 0 && sig.inputs[0] is SelfValue ==> handler_kind(sig, parent) is None,
        sig.inputs.len() == 0 ==> handler_kind(sig, parent) is None,
{
    if sig.inputs.len() > 0 {
        let a = sig.inputs.last();
        if world_arg(a) {
            assert(crate::parsers::is_world_mut_ref(a));
        }
    }
}

/// No actor of a module's model lists an implementation of `Deref`,
/// `DerefMut`, `Default`, `Clone`, `Into`, `From`, `Add`, `AddAssign` or
/// `Sum` (by the last segment of the trait's path).
pub proof fn law_model_lists_no_std_trait(file: FileView)
    ensures
        forall|i: int, j: int|
            0 <= i < model_of(file).actors.len() && 0 <= j < model_of(file).actors[i].1.impls.len() ==> {
                let n = #[trigger] model_of(file).actors[i].1.impls[j].last_ident();
                &&& n != "Deref"@
                &&& n != "DerefMut"@
                &&& n != "Default"@
                &&& n != "Clone"@
                &&& n != "Into"@
                &&& n != "From"@
                &&& n != "Add"@
                &&& n != "AddAssign"@
                &&& n != "Sum"@
            },
{
    law_model_has_no_std_trait_impls(file);
    assert forall|i: int, j: int|
        0 <= i < model_of(file).actors.len() && 0 <= j < model_of(file).actors[i].1.impls.len() implies {
            let n = #[trigger] model_of(file).actors[i].1.impls[j].last_ident();
            &&& n != "Deref"@
            &&& n != "DerefMut"@
            &&& n != "Default"@
            &&& n != "Clone"@
            &&& n != "Into"@
            &&& n != "From"@
            &&& n != "Add"@
            &&& n != "AddAssign"@
            &&& n != "Sum"@
        } by {
        assert(no_std_impls(model_of(file).actors[i].1));
        assert(!is_std_trait(model_of(file).actors[i].1.impls[j]));
    }
}

/// Some argument of `args` has a type whose tokens contain `x`.
pub open spec fn mentioned_by(args: Seq<FnArgView>, x: Seq<char>) -> bool {
    exists|j: int|
        0 <= j < args.len() && (#[trigger] args[j] matches FnArgView::Captured { ty, .. } && contains(
            ty.tokens(),
            x,
        ))
}

/// Keeping, in order, the elements that have a property, picked one index
/// at a time, is filtering by it.
proof fn lemma_pick_is_filter(s: Seq<Seq<char>>, p: spec_fn(Seq<char>) -> bool, n: nat)
    requires
        n <= s.len(),
    ensures
        keep_some(Seq::new(n, |i: int| if p(s[i]) { Some(s[i]) } else { None })) == s.take(n as int).filter(p),
    decreases n,
{
    reveal(Seq::filter);
    let f = |i: int| if p(s[i]) { Some(s[i]) } else { None };
    if n > 0 {
        lemma_pick_is_filter(s, p, (n - 1) as nat);
        assert(Seq::new(n, f).drop_last() =~= Seq::new((n - 1) as nat, f));
        assert(s.take(n as int).drop_last() =~= s.take(n - 1));
        assert(s.take(n as int).last() == s[n - 1]);
    } else {
        assert(s.take(0) =~= Seq::<Seq<char>>::empty());
    }
}

/// The generic parameters that a handler's messages use are every parameter
/// that some argument's type mentions, each of them, in order, joined with
/// `, ` in angle brackets (nothing where none is mentioned).
pub proof fn law_used_generics_are_the_mentioned_parameters(h: HandlerView, short: Seq<char>, full: Seq<char>)
    requires
        h.scope == HandlerType::Handler,
    ensures
        ({
            let shorts = split_by(without_angles(short), ", "@);
            let longs = split_by(without_angles(full), ", "@);
            let n = if longs.len() < shorts.len() {
                longs.len()
            } else {
                shorts.len()
            };
            let inner = join(shorts.take(n as int).filter(|x: Seq<char>| mentioned_by(h.arguments, x)), ", "@);
            used_generics_of(h, short, full, true) == if inner.len() == 0 {
                inner
            } else {
                "<"@ + inner + ">"@
            }
        }),
{
    let shorts = split_by(without_angles(short), ", "@);
    let longs = split_by(without_angles(full), ", "@);
    let n = if longs.len() < shorts.len() {
        longs.len()
    } else {
        shorts.len()
    };
    let p = |x: Seq<char>| mentioned_by(h.arguments, x);
    assert forall|x: Seq<char>| #[trigger] mentions(h.arguments, x) == p(x) by {
        if mentions(h.arguments, x) {
            let i = choose|i: int| 0 <= i < h.arguments.len() && #[trigger] crate::generators::arg_mentions(h.arguments[i], x);
            assert(h.arguments[i] matches FnArgView::Captured { ty, .. } && contains(ty.tokens(), x));
        }
        if p(x) {
            let j = choose|j: int|
                0 <= j < h.arguments.len() && (#[trigger] h.arguments[j] matches FnArgView::Captured { ty, .. }
                    && contains(ty.tokens(), x));
            assert(crate::generators::arg_mentions(h.arguments[j], x));
        }
    }
    let f1 = |i: int|
        if mentions(h.arguments, shorts[i]) {
            Some(shorts[i])
        } else {
            None
        };
    let f2 = |i: int| if p(shorts[i]) { Some(shorts[i]) } else { None };
    let return_short = true;
    let f0 = |i: int|
        if mentions(h.arguments, shorts[i]) {
            Some(
                if return_short {
                    shorts[i]
                } else {
                    longs[i]
                },
            )
        } else {
            None
        };
    assert(Seq::new(n, f0) =~= Seq::new(n, f2));
    assert(Seq::new(n, f1) =~= Seq::new(n, f2));
    lemma_pick_is_filter(shorts, p, n);
    let picked = keep_some(Seq::new(n, f0));
    assert(picked == shorts.take(n as int).filter(p));
    assert(used_generics_of(h, short, full, true) == angled(join(picked, ", "@)));
}

/// The text of a path is the text of the path without its last segment, `::`
/// and the last segment's identifier; the text of a one-segment path is its
/// identifier. So `a::B` is written `a::B`.
pub proof fn law_path_text_has_every_segment(p: PathView)
    ensures
        p.segments.len() == 1 ==> path_text(p) == p.segments[0].ident,
        p.segments.len() >= 2 ==> path_text(p) == path_text(
            PathView { leading_colon: p.leading_colon, segments: p.segments.drop_last() },
        ) + "::"@ + p.segments[p.segments.len() - 1].ident,
{
    let f = |s: crate::syntax::SegmentView| s.ident;
    if p.segments.len() >= 1 {
        assert(p.segments.drop_last().map_values(f) =~= p.segments.map_values(f).drop_last());
    }
}

/// A message derives `Copy` exactly when it has no field and no generic
/// parameter; a message with a field or a generic parameter derives
/// `Compact`.
pub proof fn law_message_derives(types: Seq<char>, used: Seq<char>)
    ensures
        types.len() == 0 && used.len() == 0 ==> msg_derives(types, used) == "#[derive(Copy, Clone)]"@,
        used.len() > 0 ==> msg_derives(types, used) == "#[derive(Compact, Clone)]"@,
        types.len() > 0 ==> msg_derives(types, used) == "#[derive(Compact, Clone)]"@,
{
}

/// The type is `&T` or `&mut T` for a path `T` whose last segment is
/// `World`.
pub open spec fn world_ref_type(ty: TypeView) -> bool {
    match ty {
        TypeView::Reference { elem, .. } => match *elem {
            TypeView::Path { path, .. } => path.segments.len() > 0 && path.segments[path.segments.len()
                - 1].ident == "World"@,
            _ => false,
        },
        _ => false,
    }
}

/// `n` underscores.
pub open spec fn underscores(n: nat) -> Seq<char> {
    Seq::new(n, |i: int| '_')
}

/// Removing leading underscores leaves a text that does not start with one,
/// and the text is that many underscores followed by it.
proof fn lemma_trim_underscores(s: Seq<char>)
    ensures
        trim_start(s, '_').len() == 0 || trim_start(s, '_')[0] != '_',
        exists|k: nat| s == underscores(k) + #[trigger] trim_start(s, '_'),
    decreases s.len(),
{
    if s.len() > 0 && s[0] == '_' {
        lemma_trim_underscores(s.skip(1));
        let r = trim_start(s, '_');
        assert(r == trim_start(s.skip(1), '_'));
        let k = choose|k: nat| s.skip(1) == underscores(k) + #[trigger] trim_start(s.skip(1), '_');
        assert(underscores(k + 1) =~= seq!['_'] + underscores(k));
        assert(s =~= seq![s[0]] + s.skip(1));
        assert(s =~= underscores(k + 1) + r);
    } else {
        assert(s =~= underscores(0) + s);
    }
}

/// Generated code names an argument `name: T` by `name` without its leading
/// underscores: what remains starts with no underscore, and `name` is some
/// underscores followed by it.
pub proof fn law_argument_name(name: Seq<char>, ty: TypeView)
    ensures
        ({
            let n = arg_ident(FnArgView::Captured { pat: PatView::Ident(name), ty });
            &&& n.len() == 0 || n[0] != '_'
            &&& exists|k: nat| name == underscores(k) + n
        }),
{
    lemma_trim_underscores(name);
}

/// The world argument `name: &mut W` (the last segment of `W` is `World`)
/// is neither bound in a message pattern nor put in a message nor a field
/// of one; a sending method takes it as `name: &mut World`.
pub proof fn law_world_argument(
    name: Seq<char>,
    mutable: bool,
    path: PathView,
    path_tokens: Seq<char>,
    tokens: Seq<char>,
)
    requires
        path.segments.len() > 0,
        path.segments[path.segments.len() - 1].ident == "World"@,
    ensures
        ({
            let ty = TypeView::Reference {
                mutable,
                elem: Box::new(TypeView::Path { path, tokens: path_tokens }),
                tokens,
            };
            let a = FnArgView::Captured { pat: PatView::Ident(name), ty };
            &&& bind_without_world(a) is None
            &&& value_without_world(a) is None
            &&& pub_type_without_world(a) is None
            &&& ident_val_and_type(a) == arg_ident(a) + ": &mut World"@
        }),
{
    reveal_with_fuel(crate::generators::is_world_type, 2);
    reveal_strlit(": ");
    reveal_strlit("&mut World");
    reveal_strlit(": &mut World");
    let a = FnArgView::Captured {
        pat: PatView::Ident(name),
        ty: TypeView::Reference { mutable, elem: Box::new(TypeView::Path { path, tokens: path_tokens }), tokens },
    };
    assert(arg_ident(a) + ": "@ + "&mut World"@ =~= arg_ident(a) + ": &mut World"@);
}

/// An argument `name: &U` (not the world, `U` no reference) is bound in a
/// message pattern by `ref name`, put in the message by `name`, held in it
/// as a field `pub U`, and taken by a sending method as `name: U`.
pub proof fn law_reference_argument(name: Seq<char>, mutable: bool, elem: TypeView, tokens: Seq<char>)
    requires
        !(elem is Reference),
        elem matches TypeView::Path { path, .. } ==> path.segments.len() > 0 && path.segments[path.segments.len()
            - 1].ident != "World"@,
    ensures
        ({
            let ty = TypeView::Reference { mutable, elem: Box::new(elem), tokens };
            let a = FnArgView::Captured { pat: PatView::Ident(name), ty };
            let n = arg_ident(a);
            &&& bind_without_world(a) == Some("ref "@ + n)
            &&& value_without_world(a) == Some(n)
            &&& pub_type_without_world(a) == Some("pub "@ + elem.tokens())
            &&& ident_val_and_type(a) == n + ": "@ + elem.tokens()
        }),
{
    reveal_with_fuel(crate::generators::is_world_type, 2);
}

/// An argument `name: T` for a path `T` (not the world) is bound and put in
/// the message by `name`, held in it as a field `pub T`, and taken by a
/// sending method as `name: T`.
pub proof fn law_value_argument(name: Seq<char>, path: PathView, tokens: Seq<char>)
    requires
        path.segments.len() > 0,
        path.segments[path.segments.len() - 1].ident != "World"@,
    ensures
        ({
            let a = FnArgView::Captured { pat: PatView::Ident(name), ty: TypeView::Path { path, tokens } };
            let n = arg_ident(a);
            &&& bind_without_world(a) == Some(n)
            &&& value_without_world(a) == Some(n)
            &&& pub_type_without_world(a) == Some("pub "@ + tokens)
            &&& ident_val_and_type(a) == n + ": "@ + tokens
        }),
{
}

/// A wildcard argument `_: T` is called `world` where `T` is a reference to
/// the world and `_` otherwise.
pub proof fn law_wildcard_argument_name(ty: TypeView)
    ensures
        world_ref_type(ty) ==> arg_ident(FnArgView::Captured { pat: PatView::Wild, ty }) == "world"@,
        (ty matches TypeView::Path { path, .. } && path.segments.len() > 0 && path.segments[path.segments.len()
            - 1].ident != "World"@) ==> arg_ident(FnArgView::Captured { pat: PatView::Wild, ty }) == "_"@,
{
    reveal_with_fuel(crate::generators::is_world_type, 2);
}

/// A message of the handler `h` of `owner` is called `MSG_`, the owner's
/// name, `_` and the handler's name.
pub proof fn law_message_name(owner: Seq<char>, h: Seq<char>)
    ensures
        msg_name(owner, h) == "MSG_"@ + owner + "_"@ + h,
{
}

/// Generics in turbofish form: nothing stays nothing, anything else gets
/// `::` in front.
pub proof fn law_turbofish(s: Seq<char>)
    ensures
        s.len() == 0 ==> turbofish(s) == s,
        s.len() > 0 ==> turbofish(s) == "::"@ + s,
{
}

/// An init handler's messages use all the actor's generic parameters: the
/// short list, or the list with bounds.
pub proof fn law_init_handlers_use_all_generics(h: HandlerView, short: Seq<char>, full: Seq<char>)
    requires
        h.scope == HandlerType::Init,
    ensures
        used_generics_of(h, short, full, true) == short,
        used_generics_of(h, short, full, false) == full,
{
}

/// A handler that returns nothing returns no `Fate`; one that returns a
/// path with a segment `Fate` returns one; an init handler that returns
/// another path returns none; a handler (not init) that returns another
/// path, or anything but a path, is no handler.
pub proof fn law_returns_fate(sig: SignatureView, scope: HandlerType)
    ensures
        sig.output is None ==> crate::parsers::returns_fate(sig, scope) == Some(false),
        (sig.output matches Some(TypeView::Path { path, .. }) && exists|i: int|
            0 <= i < path.segments.len() && #[trigger] path.segments[i].ident == "Fate"@)
            ==> crate::parsers::returns_fate(sig, scope) == Some(true),
        (sig.output matches Some(TypeView::Path { path, .. }) && forall|i: int|
            0 <= i < path.segments.len() ==> #[trigger] path.segments[i].ident != "Fate"@)
            ==> crate::parsers::returns_fate(sig, scope) == if scope == HandlerType::Init {
            Some(false)
        } else {
            None
        },
        (sig.output matches Some(t) && !(t is Path)) ==> crate::parsers::returns_fate(sig, scope) is None,
{
}

} // verus!
