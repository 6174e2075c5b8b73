use vstd::prelude::*;
use vstd::string::StringSliceAdditionalSpecFns;
use crate::http::{Method, bytes_equal};

verus! {

/// A registered route: the path it serves, the methods it allows, and its handler.
pub struct Route<H> {
    pub path: Vec<u8>,
    pub methods: Vec<Method>,
    pub handler: H,
}

/// The abstract form of a route.
pub struct RouteView<H> {
    pub path: Seq<u8>,
    pub methods: Seq<Method>,
    pub handler: H,
}

impl<H> View for Route<H> {
    type V = RouteView<H>;

    open spec fn view(&self) -> RouteView<H> {
        RouteView { path: self.path@, methods: self.methods@, handler: self.handler }
    }
}

/// Why a route could not be registered.
#[derive(PartialEq, Eq, Structural, Debug, Clone, Copy)]
pub enum ConfigError {
    /// A route for the same path is registered already.
    DuplicateRoute,
}

/// Whether `r` serves a request with `method` for `path`.
pub open spec fn route_matches<H>(r: RouteView<H>, method: Method, path: Seq<u8>) -> bool {
    r.path == path && r.methods.contains(method)
}

/// The index of the first route of `rs` that serves the request, if any.
pub open spec fn first_match<H>(rs: Seq<RouteView<H>>, method: Method, path: Seq<u8>) -> Option<int>
    decreases rs.len(),
{
    if rs.len() == 0 {
        None
    } else {
        match first_match(rs.drop_last(), method, path) {
            Some(i) => Some(i),
            None => if route_matches(rs.last(), method, path) {
                Some(rs.len() - 1)
            } else {
                None
            },
        }
    }
}

/// The handler that serves a request: that of the first matching route in order
/// of registration, or the default handler where none matches.
pub open spec fn resolved<H>(
    rs: Seq<RouteView<H>>,
    default: H,
    method: Method,
    path: Seq<u8>,
) -> H {
    match first_match(rs, method, path) {
        Some(i) => rs[i].handler,
        None => default,
    }
}

pub open spec fn has_path<H>(rs: Seq<RouteView<H>>, path: Seq<u8>) -> bool {
    exists|i: int| 0 <= i < rs.len() && (#[trigger] rs[i]).path == path
}

/// The routes of a server, in order of registration, and the handler for
/// requests that none of them serves.
pub struct RouteTable<H> {
    routes: Vec<Route<H>>,
    default: H,
}

impl<H> RouteTable<H> {
    pub closed spec fn routes_view(&self) -> Seq<RouteView<H>> {
        self.routes@.map_values(|r: Route<H>| r@)
    }

    pub closed spec fn default_handler(&self) -> H {
        self.default
    }

    /// A table with no routes and `default` for every request.
    pub fn new(default: H) -> (r: RouteTable<H>)
        ensures
            r.routes_view() == Seq::<RouteView<H>>::empty(),
            r.default_handler() == default,
    {
        let r = RouteTable { routes: Vec::new(), default };
        assert(r.routes_view() =~= Seq::<RouteView<H>>::empty());
        r
    }

    /// The number of registered routes.
    pub fn len(&self) -> (r: usize)
        ensures
            r == self.routes_view().len(),
    {
        self.routes.len()
    }

    /// Whether a route for `path` is registered.
    pub fn has_route(&self, path: &[u8]) -> (r: bool)
        ensures
            r == has_path(self.routes_view(), path@),
    {
        let mut i: usize = 0;
        while i < self.routes.len()
            invariant
                i <= self.routes@.len(),
                forall|j: int| 0 <= j < i ==> (#[trigger] self.routes_view()[j]).path != path@,
            decreases self.routes@.len() - i,
        {
            if bytes_equal(self.routes[i].path.as_slice(), path) {
                assert(self.routes_view()[i as int].path == path@);
                return true;
            }
            i = i + 1;
        }
        false
    }

    /// Registers a route for `path` with the allowed `methods`; fails, and changes
    /// nothing, where a route for the same path exists.
    pub fn add_route(&mut self, path: &str, methods: Vec<Method>, handler: H) -> (r: Result<
        (),
        ConfigError,
    >)
        ensures
            r is Err == has_path(old(self).routes_view(), path.spec_bytes()),
            r is Err ==> r == Err::<(), ConfigError>(ConfigError::DuplicateRoute),
            r is Err ==> final(self).routes_view() == old(self).routes_view(),
            r is Ok ==> final(self).routes_view() == old(self).routes_view().push(
                RouteView { path: path.spec_bytes(), methods: methods@, handler },
            ),
            final(self).default_handler() == old(self).default_handler(),
    {
        let bytes = path.as_bytes();
        if self.has_route(bytes) {
            return Err(ConfigError::DuplicateRoute);
        }
        let mut p: Vec<u8> = Vec::new();
        let mut i: usize = 0;
        while i < bytes.len()
            invariant
                i <= bytes@.len(),
                p@ == bytes@.subrange(0, i as int),
            decreases bytes@.len() - i,
        {
            p.push(bytes[i]);
            i = i + 1;
            assert(p@ =~= bytes@.subrange(0, i as int));
        }
        assert(p@ =~= bytes@);
        let ghost before = self.routes_view();
        let ghost rv = RouteView { path: p@, methods: methods@, handler };
        self.routes.push(Route { path: p, methods, handler });
        assert(self.routes_view() =~= before.push(rv));
        Ok(())
    }

    /// Replaces the handler for requests that no route serves.
    pub fn set_default(&mut self, handler: H)
        ensures
            final(self).default_handler() == handler,
            final(self).routes_view() == old(self).routes_view(),
    {
        self.default = handler;
    }

    /// The handler for a request with `method` for `path`: that of the first route,
    /// in order of registration, whose path is `path` and which allows `method`;
    /// the default handler where there is none.
    pub fn resolve(&self, method: Method, path: &[u8]) -> (r: &H)
        ensures
            *r == resolved(self.routes_view(), self.default_handler(), method, path@),
    {
        let mut i: usize = 0;
        while i < self.routes.len()
            invariant
                i <= self.routes@.len(),
                first_match(self.routes_view().take(i as int), method, path@) is None,
            decreases self.routes@.len() - i,
        {
            let ghost rs = self.routes_view().take(i as int + 1);
            assert(rs.drop_last() =~= self.routes_view().take(i as int));
            if bytes_equal(self.routes[i].path.as_slice(), path) && allows(
                &self.routes[i].methods,
                method,
            ) {
                proof {
                    lemma_first_match_extends(self.routes_view(), i as int + 1, method, path@);
                }
                return &self.routes[i].handler;
            }
            i = i + 1;
        }
        assert(self.routes_view().take(i as int) =~= self.routes_view());
        &self.default
    }
}

/// Whether `method` is one of `methods`.
pub fn allows(methods: &Vec<Method>, method: Method) -> (r: bool)
    ensures
        r == methods@.contains(method),
{
    let mut i: usize = 0;
    while i < methods.len()
        invariant
            i <= methods@.len(),
            forall|j: int| 0 <= j < i ==> methods@[j] != method,
        decreases methods@.len() - i,
    {
        if methods[i] == method {
            return true;
        }
        i = i + 1;
    }
    false
}

/// Once a prefix of the routes has a first match, longer prefixes keep it.
proof fn lemma_first_match_extends<H>(rs: Seq<RouteView<H>>, k: int, method: Method, path: Seq<u8>)
    requires
        0 <= k <= rs.len(),
        first_match(rs.take(k), method, path) is Some,
    ensures
        first_match(rs, method, path) == first_match(rs.take(k), method, path),
    decreases rs.len() - k,
{
    if k < rs.len() {
        assert(rs.take(k + 1).drop_last() =~= rs.take(k));
        lemma_first_match_extends(rs, k + 1, method, path);
    } else {
        assert(rs.take(k) =~= rs);
    }
}

/// `first_match` finds the lowest index whose route serves the request.
proof fn lemma_first_match_is_first<H>(rs: Seq<RouteView<H>>, method: Method, path: Seq<u8>)
    ensures
        first_match(rs, method, path) matches Some(i) ==> 0 <= i < rs.len() && route_matches(
            rs[i],
            method,
            path,
        ) && forall|j: int| 0 <= j < i ==> !route_matches(#[trigger] rs[j], method, path),
        first_match(rs, method, path) is None ==> forall|j: int|
            0 <= j < rs.len() ==> !route_matches(#[trigger] rs[j], method, path),
    decreases rs.len(),
{
    if rs.len() > 0 {
        let init = rs.drop_last();
        lemma_first_match_is_first(init, method, path);
        assert forall|j: int| 0 <= j < init.len() implies init[j] == rs[j] by {}
    }
}

/// Routing is deterministic: a request served by exactly one route goes to
/// that route's handler, and one served by none goes to the default handler.
pub proof fn lemma_routing_determinism<H>(
    rs: Seq<RouteView<H>>,
    default: H,
    method: Method,
    path: Seq<u8>,
)
    ensures
        forall|i: int|
            0 <= i < rs.len() && route_matches(#[trigger] rs[i], method, path) && (forall|j: int|
                0 <= j < rs.len() && j != i ==> !route_matches(#[trigger] rs[j], method, path))
                ==> resolved(rs, default, method, path) == rs[i].handler,
        (forall|j: int| 0 <= j < rs.len() ==> !route_matches(#[trigger] rs[j], method, path))
            ==> resolved(rs, default, method, path) == default,
{
    lemma_first_match_is_first(rs, method, path);
}

/// Once a route for a path is registered, the table holds that path, so a
/// second registration for it is refused and leaves the table as it was.
pub proof fn lemma_duplicate_path_refused<H>(rs: Seq<RouteView<H>>, r: RouteView<H>)
    ensures
        has_path(rs.push(r), r.path),
{
    assert(rs.push(r)[rs.len() as int] == r);
}

} // verus!
