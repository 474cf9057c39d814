//! What holds of every route table and every request.

use crate::method::Method;
use crate::param::coerce_spec;
use crate::pattern::{captured_spec, match_spec, pattern_source_spec, regex_compiles};
use crate::router::{
    bind_spec, cache_after_request, coerce_all, consults, is_first_match,
    lemma_first_match_unique, lemma_resolution_of_no_match, no_match, resolution, root_path,
    route_match, routes_tried, sources_compiled, ResolutionModel, RouteModel,
};
use crate::template::{lemma_one_type_per_placeholder, placeholder_count, placeholder_types};
use vstd::prelude::*;

verus! {

/// The decision for a request is either one route, the first that accepts
/// the request, or the fallback, which it is exactly where no route accepts
/// the request. A request never goes to several routes, and never to none
/// of the handlers.
pub proof fn law_one_handler_for_every_request(
    table: Seq<RouteModel>,
    method: Method,
    path: Seq<char>,
)
    ensures
        match resolution(table, method, path) {
            ResolutionModel::Matched { index, params } => {
                &&& is_first_match(table, method, path, index)
                &&& route_match(table[index], method, path) == Some(params)
                &&& !no_match(table, method, path)
                &&& forall|other: int|
                    is_first_match(table, method, path, other) ==> other == index
            },
            ResolutionModel::Fallback => no_match(table, method, path),
        },
{
    if exists|i: int| is_first_match(table, method, path, i) {
        let i = choose|i: int| is_first_match(table, method, path, i);
        assert forall|other: int| is_first_match(table, method, path, other) implies other
            == i by {
            lemma_first_match_unique(table, method, path, other, i);
        }
    } else {
        lemma_least_accepting_route(table, method, path, table.len() as int);
    }
}

/// Among the first `n` routes, either none accepts the request or one of
/// them is the first to accept it.
proof fn lemma_least_accepting_route(
    table: Seq<RouteModel>,
    method: Method,
    path: Seq<char>,
    n: int,
)
    requires
        0 <= n <= table.len(),
    ensures
        (exists|i: int| is_first_match(table, method, path, i)) || forall|j: int|
            0 <= j < n ==> (#[trigger] route_match(table[j], method, path)) is None,
    decreases n,
{
    if n > 0 {
        lemma_least_accepting_route(table, method, path, n - 1);
        if !(exists|i: int| is_first_match(table, method, path, i)) {
            if route_match(table[n - 1], method, path) is Some {
                assert(is_first_match(table, method, path, n - 1));
            }
        }
    }
}

/// A request that no route accepts goes to the fallback, and a request that
/// goes to the fallback is one that no route accepts.
pub proof fn law_fallback_exactly_when_nothing_matches(
    table: Seq<RouteModel>,
    method: Method,
    path: Seq<char>,
)
    ensures
        resolution(table, method, path) == ResolutionModel::Fallback <==> no_match(
            table,
            method,
            path,
        ),
{
    law_one_handler_for_every_request(table, method, path);
    if no_match(table, method, path) {
        lemma_resolution_of_no_match(table, method, path);
    }
}

/// Of two routes that both accept a request, the one registered later is
/// not chosen: the decision is a route at or before the earlier one.
pub proof fn law_earlier_route_wins(
    table: Seq<RouteModel>,
    method: Method,
    path: Seq<char>,
    earlier: int,
    later: int,
)
    requires
        0 <= earlier < later < table.len(),
        route_match(table[earlier], method, path) is Some,
        route_match(table[later], method, path) is Some,
    ensures
        resolution(table, method, path) is Matched,
        resolution(table, method, path)->index <= earlier,
        resolution(table, method, path)->index != later,
{
    law_one_handler_for_every_request(table, method, path);
    let chosen = resolution(table, method, path);
    if chosen is Matched {
        if chosen->index > earlier {
            assert(route_match(table[earlier], method, path) is None);
        }
    } else {
        assert(route_match(table[earlier], method, path) is None);
    }
}

/// A route whose captured texts do not all convert to the declared types
/// does not accept the request, whatever its pattern matched: the request
/// passes on to the routes behind it.
pub proof fn law_failed_conversion_passes_on(
    route: RouteModel,
    method: Method,
    path: Seq<char>,
    groups: Seq<Option<Seq<char>>>,
    k: int,
)
    requires
        route.template.len() > 0,
        match_spec(pattern_source_spec(route.template), path) == Some(groups),
        0 <= k < captured_spec(groups).len(),
        k < placeholder_types(route.template).len(),
        coerce_spec(captured_spec(groups)[k], placeholder_types(route.template)[k]) is None,
    ensures
        route_match(route, method, path) is None,
{
}

/// A route accepts no request of another method, whatever the path, so a
/// request never goes to a route registered under another method.
pub proof fn law_method_must_agree(
    table: Seq<RouteModel>,
    method: Method,
    path: Seq<char>,
    i: int,
)
    requires
        0 <= i < table.len(),
        table[i].method != method,
    ensures
        route_match(table[i], method, path) is None,
        resolution(table, method, path) is Matched ==> resolution(table, method, path)->index
            != i,
{
    law_one_handler_for_every_request(table, method, path);
}

/// Two routes with one template under different methods are independent:
/// a request that one accepts the other does not, and under its own method
/// each accepts a path exactly where the other does under its own.
pub proof fn law_methods_are_independent(
    a: RouteModel,
    b: RouteModel,
    method: Method,
    path: Seq<char>,
)
    requires
        a.template == b.template,
        a.method != b.method,
    ensures
        !(route_match(a, method, path) is Some && route_match(b, method, path) is Some),
        route_match(a, a.method, path) == route_match(b, b.method, path),
{
}

/// The template without segments accepts the path `/` and no other: not the
/// empty path, and no path with anything behind the `/`.
pub proof fn law_root_template_accepts_root_path_only(
    route: RouteModel,
    method: Method,
    path: Seq<char>,
)
    requires
        route.template.len() == 0,
    ensures
        route_match(route, method, path) is Some <==> (route.method == method && path
            == root_path()),
        route_match(route, method, path) is Some ==> route_match(route, method, path)->Some_0.len()
            == 0,
        path.len() != 1 ==> route_match(route, method, path) is None,
        path.len() == 1 && path[0] != '/' ==> route_match(route, method, path) is None,
{
    if path.len() == 1 && path[0] == '/' {
        assert(path =~= root_path());
    }
}

/// The parameters that a route accepts a request with are as many as the
/// template has placeholders, and they stand in the template's order: the
/// parameter at each position is the text captured at that position,
/// converted to the type declared at that position.
pub proof fn law_parameters_follow_template(
    route: RouteModel,
    method: Method,
    path: Seq<char>,
)
    requires
        route.template.len() > 0,
        route_match(route, method, path) is Some,
    ensures
        ({
            let params = route_match(route, method, path)->Some_0;
            let groups = match_spec(pattern_source_spec(route.template), path)->Some_0;
            let raws = captured_spec(groups);
            let types = placeholder_types(route.template);
            &&& params.len() == placeholder_count(route.template)
            &&& raws.len() == params.len()
            &&& types.len() == params.len()
            &&& forall|k: int|
                0 <= k < params.len() ==> coerce_spec(raws[k], types[k]) == Some(
                    #[trigger] params[k],
                )
        }),
{
    lemma_one_type_per_placeholder(route.template);
    let groups = match_spec(pattern_source_spec(route.template), path)->Some_0;
    assert(bind_spec(route.template, groups) == coerce_all(
        captured_spec(groups),
        placeholder_types(route.template),
    ));
}


/// Deciding on a request adds to the cache nothing but compiled patterns of
/// routes of the table: whatever the cache holds afterwards and did not hold
/// before is the pattern's source of a route registered under the request's
/// method, and that source compiles.
pub proof fn law_cache_gains_only_route_patterns(
    before: Map<Seq<char>, regex::Regex>,
    after: Map<Seq<char>, regex::Regex>,
    table: Seq<RouteModel>,
    method: Method,
    path: Seq<char>,
    source: Seq<char>,
)
    requires
        cache_after_request(before, after, table, method, path),
        after.contains_key(source),
        !before.contains_key(source),
    ensures
        regex_compiles(source),
        exists|j: int|
            0 <= j < table.len() && (#[trigger] table[j]).method == method && source
                == pattern_source_spec(table[j].template),
{
    let n = routes_tried(table, method, path);
    assert(sources_compiled(table, method, n).contains(source));
    let j = choose|j: int|
        0 <= j < n && j < table.len() && #[trigger] consults(table[j], method, source);
    assert(consults(table[j], method, source));
    assert(table[j].method == method && source == pattern_source_spec(table[j].template));
}

/// The same request a second time leaves the cache as the first left it:
/// each pattern is compiled once, and what was compiled is kept unchanged.
pub proof fn law_repeated_request_leaves_cache_alone(
    before: Map<Seq<char>, regex::Regex>,
    between: Map<Seq<char>, regex::Regex>,
    after: Map<Seq<char>, regex::Regex>,
    table: Seq<RouteModel>,
    method: Method,
    path: Seq<char>,
)
    requires
        cache_after_request(before, between, table, method, path),
        cache_after_request(between, after, table, method, path),
    ensures
        after == between,
{
    assert(after.dom() =~= between.dom());
    assert(after =~= between);
}

} // verus!
