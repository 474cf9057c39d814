//! The route table and its dispatcher: routes are tried in the order in which
//! they were registered, and the first that accepts the request handles it.

use crate::method::Method;
use crate::param::{coerce, coerce_spec, ParamModel, ParamType, ParamValue};
use crate::pattern::{
    captured_params, captured_spec, grown_by, match_source, match_spec, pattern_source,
    pattern_source_spec, regex_compiles, texts, PatternCache,
};
use crate::template::{placeholder_count, placeholder_types, PathTemplate, SegmentModel};
use crate::text::same_text;
use vstd::prelude::*;

verus! {

/// The views of the parameters, in order.
pub open spec fn param_models(params: Seq<ParamValue>) -> Seq<ParamModel> {
    Seq::new(params.len(), |i: int| params[i]@)
}

/// The captured texts converted to the declared types, one for one and in
/// order; `None` where their numbers differ or any one conversion fails.
pub open spec fn coerce_all(raws: Seq<Seq<char>>, types: Seq<ParamType>) -> Option<Seq<ParamModel>> {
    if raws.len() == types.len() && forall|i: int|
        0 <= i < raws.len() ==> (#[trigger] coerce_spec(raws[i], types[i])) is Some {
        Some(Seq::new(raws.len(), |i: int| coerce_spec(raws[i], types[i])->Some_0))
    } else {
        None
    }
}

/// Converts each captured text to the type declared at its position. One
/// failure, or a number of texts other than the number of types, gives `None`.
pub fn coerce_params(raws: &Vec<String>, types: &Vec<ParamType>) -> (r: Option<Vec<ParamValue>>)
    ensures
        match r {
            Some(params) => coerce_all(texts(raws@), types@) == Some(param_models(params@)),
            None => coerce_all(texts(raws@), types@) is None,
        },
{
    if raws.len() != types.len() {
        return None;
    }
    let mut params: Vec<ParamValue> = Vec::new();
    let mut i: usize = 0;
    while i < raws.len()
        invariant
            i <= raws.len(),
            raws.len() == types.len(),
            params.len() == i,
            forall|j: int|
                0 <= j < i ==> coerce_spec(#[trigger] texts(raws@)[j], types@[j]) == Some(
                    params@[j]@,
                ),
        decreases raws.len() - i,
    {
        assert(texts(raws@)[i as int] == raws@[i as int]@);
        match coerce(raws[i].as_str(), types[i]) {
            Some(value) => {
                params.push(value);
            },
            None => {
                return None;
            },
        }
        i += 1;
    }
    proof {
        let all = coerce_all(texts(raws@), types@);
        assert(all is Some);
        assert(all->Some_0 =~= param_models(params@));
    }
    Some(params)
}

/// What the matcher reads of a route: its method and its template.
pub struct RouteModel {
    pub method: Method,
    pub template: Seq<SegmentModel>,
}

/// The text of the root path.
pub open spec fn root_path() -> Seq<char> {
    seq!['/']
}

/// The parameters with which a route accepts the groups of a match of its
/// pattern: the captured texts converted to the template's declared types.
pub open spec fn bind_spec(template: Seq<SegmentModel>, groups: Seq<Option<Seq<char>>>) -> Option<
    Seq<ParamModel>,
> {
    coerce_all(captured_spec(groups), placeholder_types(template))
}

/// The parameters with which a route accepts a request, or `None` where it
/// does not accept it. A route accepts a request of its own method whose path
/// matches its template and whose captured texts all convert to the declared
/// types. The template without segments accepts the path `/` and no other.
pub open spec fn route_match(route: RouteModel, method: Method, path: Seq<char>) -> Option<
    Seq<ParamModel>,
> {
    if route.method != method {
        None
    } else if route.template.len() == 0 {
        if path == root_path() {
            Some(Seq::empty())
        } else {
            None
        }
    } else {
        match match_spec(pattern_source_spec(route.template), path) {
            Some(groups) => bind_spec(route.template, groups),
            None => None,
        }
    }
}

/// Whether route `i` of the table accepts the request and no earlier route
/// does.
pub open spec fn is_first_match(
    table: Seq<RouteModel>,
    method: Method,
    path: Seq<char>,
    i: int,
) -> bool {
    &&& 0 <= i < table.len()
    &&& route_match(table[i], method, path) is Some
    &&& forall|j: int| 0 <= j < i ==> (#[trigger] route_match(table[j], method, path)) is None
}

/// Whether no route of the table accepts the request.
pub open spec fn no_match(table: Seq<RouteModel>, method: Method, path: Seq<char>) -> bool {
    forall|j: int| 0 <= j < table.len() ==> (#[trigger] route_match(table[j], method, path)) is None
}

/// What the dispatcher decides for a request.
pub enum ResolutionModel {
    /// The route at `index` handles the request, with these parameters.
    Matched { index: int, params: Seq<ParamModel> },
    /// No route accepts the request: the fallback handles it.
    Fallback,
}

/// The decision for a request: the first route in registration order that
/// accepts it, with the parameters it accepts it with, or the fallback where
/// none does.
pub open spec fn resolution(table: Seq<RouteModel>, method: Method, path: Seq<char>) -> ResolutionModel {
    if exists|i: int| is_first_match(table, method, path, i) {
        let i = choose|i: int| is_first_match(table, method, path, i);
        ResolutionModel::Matched { index: i, params: route_match(table[i], method, path)->Some_0 }
    } else {
        ResolutionModel::Fallback
    }
}

/// At most one route is the first to accept a request.
pub proof fn lemma_first_match_unique(
    table: Seq<RouteModel>,
    method: Method,
    path: Seq<char>,
    i: int,
    j: int,
)
    requires
        is_first_match(table, method, path, i),
        is_first_match(table, method, path, j),
    ensures
        i == j,
{
    if i < j {
        assert(route_match(table[i], method, path) is None);
    } else if j < i {
        assert(route_match(table[j], method, path) is None);
    }
}

/// Where route `i` is the first to accept a request, the decision is route `i`
/// with the parameters it accepts the request with.
pub proof fn lemma_resolution_of_first_match(
    table: Seq<RouteModel>,
    method: Method,
    path: Seq<char>,
    i: int,
)
    requires
        is_first_match(table, method, path, i),
    ensures
        resolution(table, method, path) == (ResolutionModel::Matched {
            index: i,
            params: route_match(table[i], method, path)->Some_0,
        }),
{
    let k = choose|k: int| is_first_match(table, method, path, k);
    lemma_first_match_unique(table, method, path, i, k);
}

/// Where no route accepts a request, the decision is the fallback.
pub proof fn lemma_resolution_of_no_match(table: Seq<RouteModel>, method: Method, path: Seq<char>)
    requires
        no_match(table, method, path),
    ensures
        resolution(table, method, path) == ResolutionModel::Fallback,
{
    if exists|i: int| is_first_match(table, method, path, i) {
        let i = choose|i: int| is_first_match(table, method, path, i);
        assert(route_match(table[i], method, path) is None);
    }
}

/// Whether trying the route on a request of `method` asks the cache for the
/// expression compiled from `source`: it does for its own pattern's source,
/// where the method is the route's and the template is not the root's.
pub open spec fn consults(route: RouteModel, method: Method, source: Seq<char>) -> bool {
    &&& route.method == method
    &&& route.template.len() > 0
    &&& source == pattern_source_spec(route.template)
}

/// How many routes the dispatcher tries on a request: those up to the one it
/// decides on, or all of them where it decides on the fallback.
pub open spec fn routes_tried(table: Seq<RouteModel>, method: Method, path: Seq<char>) -> int {
    match resolution(table, method, path) {
        ResolutionModel::Matched { index, params } => index + 1,
        ResolutionModel::Fallback => table.len() as int,
    }
}

/// The sources that compile among those that the first `n` routes ask the
/// cache for on a request of `method`.
pub open spec fn sources_compiled(table: Seq<RouteModel>, method: Method, n: int) -> Set<Seq<char>> {
    Set::new(
        |source: Seq<char>|
            regex_compiles(source) && exists|j: int|
                0 <= j < n && j < table.len() && #[trigger] consults(table[j], method, source),
    )
}

/// What trying one route on a request of `method` does to the cache: the
/// cache gains the route's compiled pattern where the route asks for it, and
/// is left as it was where it does not.
pub open spec fn cache_after_route(
    before: Map<Seq<char>, regex::Regex>,
    after: Map<Seq<char>, regex::Regex>,
    route: RouteModel,
    method: Method,
) -> bool {
    if route.method == method && route.template.len() > 0 {
        grown_by(before, after, pattern_source_spec(route.template))
    } else {
        after == before
    }
}

/// What deciding on a request does to the cache: what the cache held it
/// still holds, and it gains the compiled patterns that the routes tried
/// ask for.
pub open spec fn cache_after_request(
    before: Map<Seq<char>, regex::Regex>,
    after: Map<Seq<char>, regex::Regex>,
    table: Seq<RouteModel>,
    method: Method,
    path: Seq<char>,
) -> bool {
    &&& before.submap_of(after)
    &&& after.dom() == before.dom().union(
        sources_compiled(table, method, routes_tried(table, method, path)),
    )
}

/// One entry of the route table: a method, a template, and the handler for
/// the requests that the two accept.
pub struct Route<H> {
    method: Method,
    template: PathTemplate,
    source: String,
    types: Vec<ParamType>,
    handler: H,
}

impl<H> View for Route<H> {
    type V = RouteModel;

    closed spec fn view(&self) -> RouteModel {
        RouteModel { method: self.method, template: self.template@ }
    }
}

impl<H> Route<H> {
    /// The pattern's source and the declared types are those of the template.
    #[verifier::type_invariant]
    spec fn derived_from_template(&self) -> bool {
        &&& self.source@ == pattern_source_spec(self.template@)
        &&& self.types@ == placeholder_types(self.template@)
    }

    /// The route's handler.
    pub closed spec fn handler_spec(&self) -> H {
        self.handler
    }

    /// The route's handler.
    pub fn handler(&self) -> (h: &H)
        ensures
            *h == self.handler_spec(),
    {
        &self.handler
    }

    /// A route for the requests of `method` whose path fits `template`.
    pub fn new(method: Method, template: PathTemplate, handler: H) -> (route: Route<H>)
        ensures
            route@ == (RouteModel { method, template: template@ }),
            route.handler_spec() == handler,
    {
        let source = pattern_source(&template);
        let types = template.param_types();
        Route { method, template, source, types, handler }
    }

    /// The method the route is registered under.
    pub fn method(&self) -> (m: Method)
        ensures
            m == self@.method,
    {
        self.method
    }

    /// The route's template.
    pub fn template(&self) -> (t: &PathTemplate)
        ensures
            t@ == self@.template,
    {
        &self.template
    }

    /// The source of the route's pattern, under which the compiled pattern is
    /// cached.
    pub fn source(&self) -> (s: &String)
        ensures
            s@ == pattern_source_spec(self@.template),
    {
        proof {
            use_type_invariant(self);
        }
        &self.source
    }

    /// The declared types of the route's parameters, left to right: one for
    /// each placeholder of the template.
    pub fn declared_param_types(&self) -> (types: &Vec<ParamType>)
        ensures
            types@ == placeholder_types(self@.template),
            types@.len() == placeholder_count(self@.template),
    {
        proof {
            use_type_invariant(self);
            crate::template::lemma_one_type_per_placeholder(self@.template);
        }
        &self.types
    }

    /// The parameters for the handler, from the groups of a match of the
    /// route's pattern: the captured texts converted to the declared types.
    /// `None` where a conversion fails: the route then does not accept the
    /// request.
    pub fn bind(&self, groups: &Vec<Option<String>>) -> (r: Option<Vec<ParamValue>>)
        ensures
            match r {
                Some(params) => bind_spec(self@.template, groups.deep_view()) == Some(
                    param_models(params@),
                ),
                None => bind_spec(self@.template, groups.deep_view()) is None,
            },
    {
        proof {
            use_type_invariant(self);
        }
        let raws = captured_params(groups);
        coerce_params(&raws, &self.types)
    }

    /// Tries the route on a request. `Some` with the handler's parameters
    /// where the route accepts it, `None` where it does not. The compiled
    /// pattern is taken from the cache, which gains it if it was not there.
    pub fn try_match(&self, cache: &mut PatternCache, method: Method, path: &str) -> (r: Option<
        Vec<ParamValue>,
    >)
        requires
            old(cache).wf(),
        ensures
            final(cache).wf(),
            cache_after_route(old(cache)@, final(cache)@, self@, method),
            match r {
                Some(params) => route_match(self@, method, path@) == Some(param_models(params@)),
                None => route_match(self@, method, path@) is None,
            },
    {
        proof {
            use_type_invariant(self);
        }
        if self.method != method {
            return None;
        }
        if self.template.is_root() {
            proof {
                reveal_strlit("/");
                assert("/"@ =~= root_path());
            }
            if same_text(path, "/") {
                let params: Vec<ParamValue> = Vec::new();
                assert(param_models(params@) =~= Seq::empty());
                return Some(params);
            } else {
                return None;
            }
        }
        match match_source(cache, self.source.as_str(), path) {
            Some(groups) => self.bind(&groups),
            None => None,
        }
    }
}

/// The views of the routes, in order.
pub open spec fn route_models<H>(routes: Seq<Route<H>>) -> Seq<RouteModel> {
    Seq::new(routes.len(), |i: int| routes[i]@)
}

/// What the dispatcher decides for a request.
#[derive(Debug, Clone, PartialEq, Eq)]
pub enum Resolution {
    /// The route at `index` handles the request, with these parameters.
    Matched { index: usize, params: Vec<ParamValue> },
    /// No route accepts the request: the fallback handles it.
    Fallback,
}

impl View for Resolution {
    type V = ResolutionModel;

    open spec fn view(&self) -> ResolutionModel {
        match self {
            Resolution::Matched { index, params } => ResolutionModel::Matched {
                index: *index as int,
                params: param_models(params@),
            },
            Resolution::Fallback => ResolutionModel::Fallback,
        }
    }
}

/// An ordered table of routes and the one handler for the requests that no
/// route accepts.
pub struct Router<H, F> {
    routes: Vec<Route<H>>,
    fallback: F,
}

impl<H, F> View for Router<H, F> {
    type V = Seq<RouteModel>;

    closed spec fn view(&self) -> Seq<RouteModel> {
        route_models(self.routes@)
    }
}

impl<H, F> Router<H, F> {
    /// The handler of the route at `index`.
    pub closed spec fn handler_spec(&self, index: int) -> H {
        self.routes@[index].handler_spec()
    }

    /// The handler for the requests that no route accepts.
    pub closed spec fn fallback_spec(&self) -> F {
        self.fallback
    }

    /// A table without routes: every request goes to the fallback.
    pub fn new(fallback: F) -> (router: Router<H, F>)
        ensures
            router@ == Seq::<RouteModel>::empty(),
            router.fallback_spec() == fallback,
    {
        let router = Router { routes: Vec::new(), fallback };
        assert(router@ =~= Seq::<RouteModel>::empty());
        router
    }

    /// Registers a route behind those registered before. Earlier routes keep
    /// their places and their handlers.
    pub fn add(&mut self, method: Method, template: PathTemplate, handler: H)
        ensures
            final(self)@ == old(self)@.push(RouteModel { method, template: template@ }),
            final(self).handler_spec(old(self)@.len() as int) == handler,
            forall|i: int|
                0 <= i < old(self)@.len() ==> final(self).handler_spec(i) == old(self).handler_spec(
                    i,
                ),
            final(self).fallback_spec() == old(self).fallback_spec(),
    {
        let route = Route::new(method, template, handler);
        self.routes.push(route);
        assert(self@ =~= old(self)@.push(RouteModel { method, template: template@ }));
    }

    /// The number of routes.
    pub fn len(&self) -> (n: usize)
        ensures
            n == self@.len(),
    {
        self.routes.len()
    }

    /// The handler for the requests that no route accepts.
    pub fn fallback(&self) -> (f: &F)
        ensures
            *f == self.fallback_spec(),
    {
        &self.fallback
    }

    /// The route at `index`, in registration order.
    pub fn route(&self, index: usize) -> (route: &Route<H>)
        requires
            index < self@.len(),
        ensures
            route@ == self@[index as int],
            route.handler_spec() == self.handler_spec(index as int),
    {
        &self.routes[index]
    }

    /// Decides which handler a request goes to: the first route, in
    /// registration order, that accepts it, or the fallback where none does.
    /// The decision does not depend on what the cache holds. The cache gains
    /// the compiled patterns of the routes that were tried and loses nothing.
    pub fn resolve(&self, cache: &mut PatternCache, method: Method, path: &str) -> (r: Resolution)
        requires
            old(cache).wf(),
        ensures
            final(cache).wf(),
            cache_after_request(old(cache)@, final(cache)@, self@, method, path@),
            r@ == resolution(self@, method, path@),
    {
        let mut i: usize = 0;
        proof {
            assert(cache@.dom() =~= old(cache)@.dom().union(sources_compiled(self@, method, 0)));
        }
        while i < self.routes.len()
            invariant
                i <= self.routes.len(),
                self@.len() == self.routes.len(),
                cache.wf(),
                old(cache)@.submap_of(cache@),
                cache@.dom() == old(cache)@.dom().union(sources_compiled(self@, method, i as int)),
                forall|j: int|
                    0 <= j < i ==> (#[trigger] route_match(self@[j], method, path@)) is None,
            decreases self.routes.len() - i,
        {
            assert(self@[i as int] == self.routes@[i as int]@);
            let ghost before = cache@;
            let tried = self.routes[i].try_match(cache, method, path);
            proof {
                let route = self@[i as int];
                let grown = old(cache)@.dom().union(sources_compiled(self@, method, i + 1));
                assert forall|s: Seq<char>| cache@.dom().contains(s) implies grown.contains(s) by {
                    if !before.dom().contains(s) {
                        assert(consults(self@[i as int], method, s));
                    } else if !old(cache)@.dom().contains(s) {
                        let j = choose|j: int|
                            0 <= j < i && j < self@.len() && #[trigger] consults(
                                self@[j],
                                method,
                                s,
                            );
                        assert(consults(self@[j], method, s));
                    }
                }
                assert forall|s: Seq<char>| grown.contains(s) implies cache@.dom().contains(s) by {
                    if !old(cache)@.dom().contains(s) {
                        let j = choose|j: int|
                            0 <= j < i + 1 && j < self@.len() && #[trigger] consults(
                                self@[j],
                                method,
                                s,
                            );
                        if j < i {
                            assert(sources_compiled(self@, method, i as int).contains(s));
                        }
                    }
                }
                assert(cache@.dom() =~= grown);
                assert(before.submap_of(cache@));
                assert forall|s: Seq<char>| #[trigger]
                    old(cache)@.dom().contains(s) implies cache@.dom().contains(s) && old(
                    cache,
                )@[s] == cache@[s] by {
                    assert(before.dom().contains(s));
                }
            }
            match tried {
                Some(params) => {
                    proof {
                        lemma_resolution_of_first_match(self@, method, path@, i as int);
                    }
                    return Resolution::Matched { index: i, params };
                },
                None => {},
            }
            i += 1;
        }
        proof {
            lemma_resolution_of_no_match(self@, method, path@);
        }
        Resolution::Fallback
    }

    /// Hands a request to the handler that `resolve` decides on, and returns
    /// what that handler returns: the chosen route's handler is called with
    /// the context and the converted parameters, the fallback with the
    /// context alone.
    pub fn dispatch<C, R>(&self, cache: &mut PatternCache, context: C, method: Method, path: &str) -> (r: R) where
        H: Fn(C, Vec<ParamValue>) -> R,
        F: Fn(C) -> R,

        requires
            old(cache).wf(),
            match resolution(self@, method, path@) {
                ResolutionModel::Matched { index, params } => forall|given: Vec<ParamValue>|
                    param_models(given@) == params ==> call_requires(
                        self.handler_spec(index),
                        (context, given),
                    ),
                ResolutionModel::Fallback => call_requires(self.fallback_spec(), (context,)),
            },
        ensures
            final(cache).wf(),
            cache_after_request(old(cache)@, final(cache)@, self@, method, path@),
            match resolution(self@, method, path@) {
                ResolutionModel::Matched { index, params } => exists|given: Vec<ParamValue>|
                    param_models(given@) == params && call_ensures(
                        self.handler_spec(index),
                        (context, given),
                        r,
                    ),
                ResolutionModel::Fallback => call_ensures(self.fallback_spec(), (context,), r),
            },
    {
        match self.resolve(cache, method, path) {
            Resolution::Matched { index, params } => {
                let handler = &self.routes[index].handler;
                handler(context, params)
            },
            Resolution::Fallback => {
                let fallback = &self.fallback;
                fallback(context)
            },
        }
    }
}

} // verus!
