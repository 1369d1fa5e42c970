use vstd::prelude::*;

verus! {

#[derive(Clone, Copy, Debug, PartialEq, Eq, Structural)]
pub enum Method {
    Get,
    Post,
    Patch,
    Delete,
}

/// What a route leads to.
#[derive(Clone, Copy, Debug, PartialEq, Eq, Structural)]
pub enum Endpoint {
    Root,
    HealthChecker,
    Register,
    Login,
    Refresh,
    Logout,
    Me,
    CreateTodo,
    ListTodo,
    UpdateTodo,
    DeleteTodo,
}

/// One line of the routing table. A protected route is reached only through
/// the authentication checkpoint.
#[derive(Clone, Copy, Debug)]
pub struct Route {
    pub method: Method,
    pub path: &'static str,
    pub endpoint: Endpoint,
    pub protected: bool,
}

/// Everything but the root, the health check and the three calls that hand
/// in credentials or a refresh token lies behind the authentication checkpoint.
pub open spec fn is_protected(endpoint: Endpoint) -> bool {
    match endpoint {
        Endpoint::Root => false,
        Endpoint::HealthChecker => false,
        Endpoint::Register => false,
        Endpoint::Login => false,
        Endpoint::Refresh => false,
        _ => true,
    }
}

pub open spec fn method_of(endpoint: Endpoint) -> Method {
    match endpoint {
        Endpoint::Register => Method::Post,
        Endpoint::Login => Method::Post,
        Endpoint::CreateTodo => Method::Post,
        Endpoint::UpdateTodo => Method::Patch,
        Endpoint::DeleteTodo => Method::Delete,
        _ => Method::Get,
    }
}

pub open spec fn path_of(endpoint: Endpoint) -> Seq<char> {
    match endpoint {
        Endpoint::Root => "/api/"@,
        Endpoint::HealthChecker => "/api/healthchecker"@,
        Endpoint::Register => "/api/auth/register"@,
        Endpoint::Login => "/api/auth/login"@,
        Endpoint::Refresh => "/api/auth/refresh"@,
        Endpoint::Logout => "/api/auth/logout"@,
        Endpoint::Me => "/api/users/me"@,
        Endpoint::CreateTodo => "/api/todo"@,
        Endpoint::ListTodo => "/api/todo"@,
        Endpoint::UpdateTodo => "/api/todo/:id"@,
        Endpoint::DeleteTodo => "/api/todo/:id"@,
    }
}

/// The endpoints in the order of the table.
pub open spec fn endpoints() -> Seq<Endpoint> {
    seq![
        Endpoint::Root,
        Endpoint::HealthChecker,
        Endpoint::Register,
        Endpoint::Login,
        Endpoint::Refresh,
        Endpoint::Logout,
        Endpoint::Me,
        Endpoint::CreateTodo,
        Endpoint::ListTodo,
        Endpoint::UpdateTodo,
        Endpoint::DeleteTodo,
    ]
}

pub open spec fn describes(route: Route, endpoint: Endpoint) -> bool {
    &&& route.endpoint == endpoint
    &&& route.method == method_of(endpoint)
    &&& route.path@ == path_of(endpoint)
    &&& route.protected == is_protected(endpoint)
}

pub fn needs_gate(endpoint: Endpoint) -> (b: bool)
    ensures
        b == is_protected(endpoint),
{
    match endpoint {
        Endpoint::Root => false,
        Endpoint::HealthChecker => false,
        Endpoint::Register => false,
        Endpoint::Login => false,
        Endpoint::Refresh => false,
        _ => true,
    }
}

pub fn route_for(endpoint: Endpoint) -> (route: Route)
    ensures
        describes(route, endpoint),
{
    let protected = needs_gate(endpoint);
    match endpoint {
        Endpoint::Root => Route { method: Method::Get, path: "/api/", endpoint, protected },
        Endpoint::HealthChecker => Route { method: Method::Get, path: "/api/healthchecker", endpoint, protected },
        Endpoint::Register => Route { method: Method::Post, path: "/api/auth/register", endpoint, protected },
        Endpoint::Login => Route { method: Method::Post, path: "/api/auth/login", endpoint, protected },
        Endpoint::Refresh => Route { method: Method::Get, path: "/api/auth/refresh", endpoint, protected },
        Endpoint::Logout => Route { method: Method::Get, path: "/api/auth/logout", endpoint, protected },
        Endpoint::Me => Route { method: Method::Get, path: "/api/users/me", endpoint, protected },
        Endpoint::CreateTodo => Route { method: Method::Post, path: "/api/todo", endpoint, protected },
        Endpoint::ListTodo => Route { method: Method::Get, path: "/api/todo", endpoint, protected },
        Endpoint::UpdateTodo => Route { method: Method::Patch, path: "/api/todo/:id", endpoint, protected },
        Endpoint::DeleteTodo => Route { method: Method::Delete, path: "/api/todo/:id", endpoint, protected },
    }
}

/// The routing table: one line for each endpoint, in the order of
/// `endpoints`, each marked protected or public.
pub fn create_router() -> (table: Vec<Route>)
    ensures
        table@.len() == endpoints().len(),
        forall|i: int| 0 <= i < table@.len() ==> describes(#[trigger] table@[i], endpoints()[i]),
{
    let mut table: Vec<Route> = Vec::new();
    table.push(route_for(Endpoint::Root));
    table.push(route_for(Endpoint::HealthChecker));
    table.push(route_for(Endpoint::Register));
    table.push(route_for(Endpoint::Login));
    table.push(route_for(Endpoint::Refresh));
    table.push(route_for(Endpoint::Logout));
    table.push(route_for(Endpoint::Me));
    table.push(route_for(Endpoint::CreateTodo));
    table.push(route_for(Endpoint::ListTodo));
    table.push(route_for(Endpoint::UpdateTodo));
    table.push(route_for(Endpoint::DeleteTodo));
    table
}

} // verus!
