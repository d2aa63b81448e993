//! The two routes of the exposition endpoint and what each answers.
use crate::stats::{render, renders_as, MetricStore};
use std::fmt::Display;
use vstd::prelude::*;
use vstd::string::StringExecFns;

verus! {

/// A route of the endpoint.
#[derive(Clone, Copy, PartialEq, Eq, Structural, Debug)]
pub enum Route {
    /// `/`: says where the metrics are.
    Index,
    /// `/metrics`: the exposition of the store.
    Metrics,
}

/// What `/` answers.
pub open spec fn index_text() -> Seq<char> {
    "this server serves prometheus-compatible metrics at /metrics"@
}

impl Route {
    /// The path of the route.
    pub open spec fn path_of(self) -> Seq<char> {
        match self {
            Route::Index => "/"@,
            Route::Metrics => "/metrics"@,
        }
    }

    /// The path of the route.
    pub fn path(self) -> (path: &'static str)
        ensures
            path@ == self.path_of(),
    {
        match self {
            Route::Index => "/",
            Route::Metrics => "/metrics",
        }
    }
}

/// The answer to a request on `route`: the fixed text for the index, the
/// exposition of the store at `uptime` for the metrics. The store is left as
/// it is.
pub fn respond<V: Display>(route: Route, stats: &MetricStore<V>, uptime: V) -> (body: String)
    ensures
        route == Route::Index ==> body@ == index_text(),
        route == Route::Metrics ==> exists|texts: Seq<String>, up: String| #[trigger]
            renders_as(stats@, uptime, texts, up, body@),
{
    match route {
        Route::Index => String::from_str(
            "this server serves prometheus-compatible metrics at /metrics",
        ),
        Route::Metrics => render(stats, uptime),
    }
}

} // verus!
