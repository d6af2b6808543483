//! The table of routes that the service answers.

use vstd::prelude::*;

verus! {

/// The request methods in use.
#[derive(Debug, Clone, Copy, PartialEq, Eq, Structural)]
pub enum Method {
    Get,
    Post,
    Patch,
}

/// What answers a route.
#[derive(Debug, Clone, Copy, PartialEq, Eq, Structural)]
pub enum Handler {
    CreateExecution,
    ListExecutions,
    ExecutionResults,
    SuggestExecutions,
    CreateResult,
    GetResult,
    UpdateResultStatus,
    StreamResults,
}

/// One route: a method on a path, and what answers it.
#[derive(Debug, Clone, Copy, PartialEq, Eq, Structural)]
pub struct Route {
    pub method: Method,
    pub handler: Handler,
}

impl Handler {
    /// The path that this handler answers on.
    pub open spec fn path_text(self) -> Seq<char> {
        match self {
            Handler::CreateExecution => "/api/execution"@,
            Handler::ListExecutions => "/api/executions"@,
            Handler::ExecutionResults => "/api/execution/:id/result"@,
            Handler::SuggestExecutions => "/api/executions/suggest"@,
            Handler::CreateResult => "/api/result"@,
            Handler::GetResult => "/api/result/:id"@,
            Handler::UpdateResultStatus => "/api/result/:id/status"@,
            Handler::StreamResults => "/api/executions/:execution_id/result/stream"@,
        }
    }

    /// The path that this handler answers on.
    pub fn path(&self) -> (r: &'static str)
        ensures
            r@ == self.path_text(),
    {
        match self {
            Handler::CreateExecution => "/api/execution",
            Handler::ListExecutions => "/api/executions",
            Handler::ExecutionResults => "/api/execution/:id/result",
            Handler::SuggestExecutions => "/api/executions/suggest",
            Handler::CreateResult => "/api/result",
            Handler::GetResult => "/api/result/:id",
            Handler::UpdateResultStatus => "/api/result/:id/status",
            Handler::StreamResults => "/api/executions/:execution_id/result/stream",
        }
    }
}

/// The routes on executions. The suggestion route is among them only where
/// suggestions are enabled.
pub open spec fn execution_table(suggest_enabled: bool) -> Seq<Route> {
    let fixed = seq![
        Route { method: Method::Post, handler: Handler::CreateExecution },
        Route { method: Method::Get, handler: Handler::ListExecutions },
        Route { method: Method::Get, handler: Handler::ExecutionResults },
    ];
    if suggest_enabled {
        fixed.push(Route { method: Method::Get, handler: Handler::SuggestExecutions })
    } else {
        fixed
    }
}

/// The routes on single results.
pub open spec fn result_table() -> Seq<Route> {
    seq![
        Route { method: Method::Post, handler: Handler::CreateResult },
        Route { method: Method::Get, handler: Handler::GetResult },
        Route { method: Method::Patch, handler: Handler::UpdateResultStatus },
    ]
}

/// The route of the streamed intake.
pub open spec fn stream_table() -> Seq<Route> {
    seq![Route { method: Method::Post, handler: Handler::StreamResults }]
}

/// All routes of the service.
pub open spec fn route_table(suggest_enabled: bool) -> Seq<Route> {
    execution_table(suggest_enabled) + result_table() + stream_table()
}

/// The routes on executions.
pub fn execution_routes(suggest_enabled: bool) -> (r: Vec<Route>)
    ensures
        r@ == execution_table(suggest_enabled),
{
    let mut out: Vec<Route> = Vec::new();
    out.push(Route { method: Method::Post, handler: Handler::CreateExecution });
    out.push(Route { method: Method::Get, handler: Handler::ListExecutions });
    out.push(Route { method: Method::Get, handler: Handler::ExecutionResults });
    if suggest_enabled {
        out.push(Route { method: Method::Get, handler: Handler::SuggestExecutions });
    }
    assert(out@ =~= execution_table(suggest_enabled));
    out
}

/// The routes on single results.
pub fn result_routes() -> (r: Vec<Route>)
    ensures
        r@ == result_table(),
{
    let mut out: Vec<Route> = Vec::new();
    out.push(Route { method: Method::Post, handler: Handler::CreateResult });
    out.push(Route { method: Method::Get, handler: Handler::GetResult });
    out.push(Route { method: Method::Patch, handler: Handler::UpdateResultStatus });
    assert(out@ =~= result_table());
    out
}

/// The route of the streamed intake.
pub fn stream_routes() -> (r: Vec<Route>)
    ensures
        r@ == stream_table(),
{
    let mut out: Vec<Route> = Vec::new();
    out.push(Route { method: Method::Post, handler: Handler::StreamResults });
    assert(out@ =~= stream_table());
    out
}

/// All routes of the service, for the given setting of the suggestions.
pub fn routes(suggest_enabled: bool) -> (r: Vec<Route>)
    ensures
        r@ == route_table(suggest_enabled),
{
    let mut out = execution_routes(suggest_enabled);
    let mut results = result_routes();
    let mut stream = stream_routes();
    out.append(&mut results);
    out.append(&mut stream);
    out
}

/// The suggestion route exists exactly where suggestions are enabled: with
/// them disabled, no route of the table is answered by the suggestions.
pub proof fn lemma_suggest_route_iff_enabled(suggest_enabled: bool)
    ensures
        suggest_enabled <==> exists|i: int|
            0 <= i < route_table(suggest_enabled).len() && #[trigger] route_table(
                suggest_enabled,
            )[i].handler == Handler::SuggestExecutions,
{
    let table = route_table(suggest_enabled);
    if suggest_enabled {
        assert(table[3].handler == Handler::SuggestExecutions);
    } else {
        assert(table.len() == 7);
        assert forall|i: int| 0 <= i < table.len() implies #[trigger] table[i].handler
            != Handler::SuggestExecutions by {
            if i < 3 {
                assert(table[i] == execution_table(false)[i]);
            } else if i < 6 {
                assert(table[i] == result_table()[i - 3]);
            } else {
                assert(table[i] == stream_table()[i - 6]);
            }
        }
    }
}

} // verus!
