use vstd::prelude::*;

verus! {

/// A session store that keeps the whole session in the cookie itself.
#[derive(Debug, Clone, Copy)]
pub struct CookieStore;

impl CookieStore {
    pub fn new() -> (store: Self)
        ensures
            store == CookieStore,
    {
        CookieStore
    }
}

/// How long a session lives, in seconds, for a lifetime given in minutes.
pub fn session_lifetime_seconds(minutes: u64) -> (seconds: u64)
    requires
        minutes * 60 <= u64::MAX,
    ensures
        seconds == minutes * 60,
{
    minutes * 60
}

} // verus!
