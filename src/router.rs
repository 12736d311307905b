//! The route table of a collection: for each action binding, a GET route
//! serving its metadata and a POST route building its transaction.

use vstd::prelude::*;
use crate::ir::{
    ActionDescriptor, ActionFunctionBinding, BindingModel, CollectionModule, DescriptorModel,
};
use crate::text::same_text;
use crate::metadata::{generate, metadata_of, ActionMetadata, MetadataModel};

verus! {

#[derive(PartialEq, Eq, Structural, Clone, Copy, Debug)]
pub enum HttpMethod {
    Get,
    Post,
    Options,
}

/// What answers a route.
pub enum RouteHandler {
    /// Serves the action's metadata document.
    Metadata { ident: String, document: ActionMetadata },
    /// Calls the business function `action_fn` and wraps its result.
    Transaction { ident: String, action_fn: String },
}

pub struct Route {
    pub method: HttpMethod,
    pub path: String,
    pub handler: RouteHandler,
}

/// The registered routes, in registration order. Any OPTIONS request is
/// answered by the CORS preflight responder, whatever the routes.
pub struct RouteTable {
    pub routes: Vec<Route>,
}

/// One line of the startup listing of routes.
pub struct RouteListing {
    pub method: HttpMethod,
    pub path: String,
}

/// Why a route table could not be built.
pub enum CollectionError {
    /// A binding names an action that the collection does not declare.
    UnknownAction(String),
}

/// Where a request goes.
#[derive(PartialEq, Eq, Structural, Clone, Copy, Debug)]
pub enum Dispatch {
    Route(usize),
    Preflight,
    NotFound,
}

pub enum HandlerModel {
    Metadata { ident: Seq<char>, document: MetadataModel },
    Transaction { ident: Seq<char>, action_fn: Seq<char> },
}

pub struct RouteModel {
    pub method: HttpMethod,
    pub path: Seq<char>,
    pub handler: HandlerModel,
}

impl View for RouteHandler {
    type V = HandlerModel;

    open spec fn view(&self) -> HandlerModel {
        match self {
            RouteHandler::Metadata { ident, document } => HandlerModel::Metadata {
                ident: ident@,
                document: document@,
            },
            RouteHandler::Transaction { ident, action_fn } => HandlerModel::Transaction {
                ident: ident@,
                action_fn: action_fn@,
            },
        }
    }
}

impl View for Route {
    type V = RouteModel;

    open spec fn view(&self) -> RouteModel {
        RouteModel { method: self.method, path: self.path@, handler: self.handler@ }
    }
}

impl View for RouteTable {
    type V = Seq<RouteModel>;

    open spec fn view(&self) -> Seq<RouteModel> {
        self.routes@.map_values(|r: Route| r@)
    }
}

/// The index of the first action named `ident`.
pub open spec fn find_action(actions: Seq<DescriptorModel>, ident: Seq<char>) -> Option<int>
    decreases actions.len(),
{
    if actions.len() == 0 {
        None
    } else {
        match find_action(actions.drop_last(), ident) {
            Some(k) => Some(k),
            None => if actions.last().name == ident {
                Some(actions.len() - 1)
            } else {
                None
            },
        }
    }
}

/// The index of the first binding whose action is not declared.
pub open spec fn first_unresolved(actions: Seq<DescriptorModel>, bindings: Seq<BindingModel>) -> Option<int>
    decreases bindings.len(),
{
    if bindings.len() == 0 {
        None
    } else {
        match first_unresolved(actions, bindings.drop_last()) {
            Some(k) => Some(k),
            None => if find_action(actions, bindings.last().action_ident) is None {
                Some(bindings.len() - 1)
            } else {
                None
            },
        }
    }
}

/// The GET route of a binding: the metadata of the action it names, mounted
/// on the binding's path.
pub open spec fn get_route(actions: Seq<DescriptorModel>, b: BindingModel) -> RouteModel {
    RouteModel {
        method: HttpMethod::Get,
        path: b.route_path,
        handler: HandlerModel::Metadata {
            ident: b.handle_get_ident,
            document: metadata_of(actions[find_action(actions, b.action_ident)->0], b.route_path),
        },
    }
}

/// The POST route of a binding: its transaction handler.
pub open spec fn post_route(b: BindingModel) -> RouteModel {
    RouteModel {
        method: HttpMethod::Post,
        path: b.route_path,
        handler: HandlerModel::Transaction { ident: b.handle_post_ident, action_fn: b.fn_ident },
    }
}

/// The routes registered for `bindings`, in their order: GET then POST for
/// each.
pub open spec fn routes_for(actions: Seq<DescriptorModel>, bindings: Seq<BindingModel>) -> Seq<RouteModel>
    decreases bindings.len(),
{
    if bindings.len() == 0 {
        Seq::empty()
    } else {
        routes_for(actions, bindings.drop_last()).push(get_route(actions, bindings.last())).push(
            post_route(bindings.last()),
        )
    }
}

/// How many routes answer `m`.
pub open spec fn count_method(routes: Seq<RouteModel>, m: HttpMethod) -> nat
    decreases routes.len(),
{
    if routes.len() == 0 {
        0
    } else {
        count_method(routes.drop_last(), m) + if routes.last().method == m {
            1nat
        } else {
            0nat
        }
    }
}

/// The route registered for `method` on `path`.
pub open spec fn route_matches(r: RouteModel, method: HttpMethod, path: Seq<char>) -> bool {
    r.method == method && r.path == path
}

/// The index of the first action named `ident`, if any.
pub fn find_action_index(actions: &Vec<ActionDescriptor>, ident: &String) -> (r: Option<usize>)
    ensures
        match r {
            Some(k) => k < actions@.len() && find_action(
                actions@.map_values(|a: ActionDescriptor| a@),
                ident@,
            ) == Some(k as int),
            None => find_action(actions@.map_values(|a: ActionDescriptor| a@), ident@) is None,
        },
{
    let ghost all = actions@.map_values(|a: ActionDescriptor| a@);
    let mut i: usize = 0;
    while i < actions.len()
        invariant
            i <= actions@.len(),
            all == actions@.map_values(|a: ActionDescriptor| a@),
            find_action(all.subrange(0, i as int), ident@) is None,
        decreases actions@.len() - i,
    {
        assert(all.subrange(0, i + 1).drop_last() =~= all.subrange(0, i as int));
        if actions[i].name == *ident {
            proof {
                lemma_find_action_prefix(all, ident@, i + 1);
            }
            proof {
                lemma_find_action_bounds(all, ident@);
            }
            return Some(i);
        }
        i += 1;
    }
    assert(all.subrange(0, i as int) =~= all);
    None
}

/// A found action lies in range and carries the name looked for.
proof fn lemma_find_action_bounds(actions: Seq<DescriptorModel>, ident: Seq<char>)
    ensures
        find_action(actions, ident) matches Some(k) ==> 0 <= k < actions.len() && actions[k].name
            == ident,
    decreases actions.len(),
{
    if actions.len() > 0 {
        lemma_find_action_bounds(actions.drop_last(), ident);
    }
}

/// A match found in a prefix is the match in the whole sequence.
proof fn lemma_find_action_prefix(actions: Seq<DescriptorModel>, ident: Seq<char>, n: int)
    requires
        0 <= n <= actions.len(),
        find_action(actions.subrange(0, n), ident) is Some,
    ensures
        find_action(actions, ident) == find_action(actions.subrange(0, n), ident),
    decreases actions.len() - n,
{
    if n < actions.len() {
        assert(actions.subrange(0, n + 1).drop_last() =~= actions.subrange(0, n));
        lemma_find_action_prefix(actions, ident, n + 1);
    } else {
        assert(actions.subrange(0, n) =~= actions);
    }
}

/// Builds the route table of a collection: for each binding, in declaration
/// order, a GET route serving the metadata of the action it names (the first
/// one of that name) and a POST route to its transaction handler. Fails, with
/// nothing built, on the first binding that names no declared action.
pub fn build_router(collection_mod: &CollectionModule) -> (r: Result<RouteTable, CollectionError>)
    ensures
        match r {
            Ok(t) => first_unresolved(collection_mod@.actions, collection_mod@.action_fns) is None
                && t@ == routes_for(collection_mod@.actions, collection_mod@.action_fns),
            Err(CollectionError::UnknownAction(ident)) => {
                let k = first_unresolved(collection_mod@.actions, collection_mod@.action_fns);
                k is Some && ident@ == collection_mod@.action_fns[k->0].action_ident
            },
        },
{
    let ghost c = collection_mod@;
    let bindings = &collection_mod.action_fns;
    let mut routes: Vec<Route> = Vec::new();
    let mut i: usize = 0;
    while i < bindings.len()
        invariant
            i <= bindings@.len(),
            c == collection_mod@,
            bindings == &collection_mod.action_fns,
            first_unresolved(c.actions, c.action_fns.subrange(0, i as int)) is None,
            routes@.map_values(|r: Route| r@) == routes_for(
                c.actions,
                c.action_fns.subrange(0, i as int),
            ),
        decreases bindings@.len() - i,
    {
        let b = &bindings[i];
        let ghost next = c.action_fns.subrange(0, i + 1);
        assert(next.drop_last() =~= c.action_fns.subrange(0, i as int));
        assert(next.last() == b@);
        match find_action_index(&collection_mod.actions, &b.action_ident) {
            None => {
                proof {
                    lemma_first_unresolved_prefix(c.actions, c.action_fns, i + 1);
                }
                return Err(CollectionError::UnknownAction(b.action_ident.clone()));
            },
            Some(k) => {
                let document = generate(&collection_mod.actions[k], b.route_path.as_str());
                let ghost before = routes@.map_values(|r: Route| r@);
                routes.push(
                    Route {
                        method: HttpMethod::Get,
                        path: b.route_path.clone(),
                        handler: RouteHandler::Metadata {
                            ident: b.handle_get_ident.clone(),
                            document,
                        },
                    },
                );
                routes.push(
                    Route {
                        method: HttpMethod::Post,
                        path: b.route_path.clone(),
                        handler: RouteHandler::Transaction {
                            ident: b.handle_post_ident.clone(),
                            action_fn: b.fn_ident.clone(),
                        },
                    },
                );
                assert(routes@.map_values(|r: Route| r@) =~= before.push(
                    get_route(c.actions, b@),
                ).push(post_route(b@)));
            },
        }
        i += 1;
    }
    assert(c.action_fns.subrange(0, i as int) =~= c.action_fns);
    Ok(RouteTable { routes })
}

/// An unresolved binding found in a prefix is the first one of the whole.
proof fn lemma_first_unresolved_prefix(
    actions: Seq<DescriptorModel>,
    bindings: Seq<BindingModel>,
    n: int,
)
    requires
        0 <= n <= bindings.len(),
        first_unresolved(actions, bindings.subrange(0, n)) is Some,
    ensures
        first_unresolved(actions, bindings) == first_unresolved(actions, bindings.subrange(0, n)),
    decreases bindings.len() - n,
{
    if n < bindings.len() {
        assert(bindings.subrange(0, n + 1).drop_last() =~= bindings.subrange(0, n));
        lemma_first_unresolved_prefix(actions, bindings, n + 1);
    } else {
        assert(bindings.subrange(0, n) =~= bindings);
    }
}

/// For N bindings the table holds 2N routes: exactly N GET routes and N
/// POST routes, and no other (OPTIONS is answered apart from the table).
pub proof fn lemma_router_completeness(
    actions: Seq<DescriptorModel>,
    bindings: Seq<BindingModel>,
)
    ensures
        routes_for(actions, bindings).len() == 2 * bindings.len(),
        count_method(routes_for(actions, bindings), HttpMethod::Get) == bindings.len(),
        count_method(routes_for(actions, bindings), HttpMethod::Post) == bindings.len(),
        count_method(routes_for(actions, bindings), HttpMethod::Options) == 0,
    decreases bindings.len(),
{
    if bindings.len() > 0 {
        let prev = bindings.drop_last();
        lemma_router_completeness(actions, prev);
        let r = routes_for(actions, bindings);
        assert(r.drop_last() =~= routes_for(actions, prev).push(get_route(actions, bindings.last())));
        assert(r.drop_last().drop_last() =~= routes_for(actions, prev));
        assert(r.last().method == HttpMethod::Post);
        assert(r.drop_last().last().method == HttpMethod::Get);
        assert(count_method(r.drop_last(), HttpMethod::Get) == count_method(
            routes_for(actions, prev),
            HttpMethod::Get,
        ) + 1);
        assert(count_method(r.drop_last(), HttpMethod::Post) == count_method(
            routes_for(actions, prev),
            HttpMethod::Post,
        ));
        assert(count_method(r.drop_last(), HttpMethod::Options) == count_method(
            routes_for(actions, prev),
            HttpMethod::Options,
        ));
    }
}

impl RouteTable {
    /// Where a request for `method` on `path` goes: OPTIONS to the preflight
    /// responder; otherwise the last route registered for that method and
    /// path, or nowhere.
    pub fn dispatch(&self, method: HttpMethod, path: &str) -> (r: Dispatch)
        ensures
            method == HttpMethod::Options ==> r == Dispatch::Preflight,
            method != HttpMethod::Options ==> match r {
                Dispatch::Route(j) => j < self@.len() && route_matches(self@[j as int], method, path@)
                    && forall|k: int|
                    j < k < self@.len() ==> !route_matches(#[trigger] self@[k], method, path@),
                Dispatch::NotFound => forall|k: int|
                    0 <= k < self@.len() ==> !route_matches(#[trigger] self@[k], method, path@),
                Dispatch::Preflight => false,
            },
    {
        if method == HttpMethod::Options {
            return Dispatch::Preflight;
        }
        let mut i: usize = self.routes.len();
        while i > 0
            invariant
                i <= self.routes@.len(),
                method != HttpMethod::Options,
                forall|k: int|
                    i <= k < self@.len() ==> !route_matches(#[trigger] self@[k], method, path@),
            decreases i,
        {
            let r = &self.routes[i - 1];
            assert(self@[i - 1] == r@);
            if r.method == method && same_text(r.path.as_str(), path) {
                return Dispatch::Route(i - 1);
            }
            i -= 1;
        }
        Dispatch::NotFound
    }

    /// The method and path of every registered route, in registration order.
    pub fn list_routes(&self) -> (r: Vec<RouteListing>)
        ensures
            r@.len() == self@.len(),
            forall|i: int|
                0 <= i < r@.len() ==> #[trigger] r@[i].method == self@[i].method && r@[i].path@
                    == self@[i].path,
    {
        let mut out: Vec<RouteListing> = Vec::new();
        let mut i: usize = 0;
        while i < self.routes.len()
            invariant
                i <= self.routes@.len(),
                out@.len() == i,
                forall|j: int|
                    0 <= j < i ==> #[trigger] out@[j].method == self@[j].method && out@[j].path@
                        == self@[j].path,
            decreases self.routes@.len() - i,
        {
            let r = &self.routes[i];
            out.push(RouteListing { method: r.method, path: r.path.clone() });
            i += 1;
        }
        out
    }
}

} // verus!
