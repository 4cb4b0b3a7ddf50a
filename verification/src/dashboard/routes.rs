use vstd::prelude::*;

use crate::routing::SerializableAsUrl;

verus! {

/// The routes of the pages behind the login.
#[derive(Clone, Copy, Debug)]
pub enum DashboardRoute {
    Greetings,
}

impl SerializableAsUrl for DashboardRoute {
    open spec fn url(&self) -> Seq<char> {
        match self {
            DashboardRoute::Greetings => "/greet"@,
        }
    }

    fn as_url(&self) -> (path: &'static str) {
        match self {
            DashboardRoute::Greetings => "/greet",
        }
    }
}

/// The routes behind the login: the greeting page, answered on GET.
pub fn routes() -> (table: Vec<DashboardRoute>)
    ensures
        table@ == seq![DashboardRoute::Greetings],
{
    vec![DashboardRoute::Greetings]
}

} // verus!
