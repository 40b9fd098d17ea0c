//! Route resolution and view dispatch.
//!
//! Exactly two paths are routed: `"/"` mounts the counter view with a fresh
//! state, and `"/other"` mounts the static placeholder view. Matching is
//! exact; any other path resolves to `None`, the policy chosen here for the
//! otherwise unspecified unmatched case, and the caller mounts nothing.

use vstd::prelude::*;

use crate::state::CounterState;

verus! {

/// Which view the current location path selects.
#[derive(Clone, Copy, PartialEq, Eq, Structural, Debug)]
pub enum Route {
    /// The path `"/"`: the counter view.
    Root,
    /// The path `"/other"`: the placeholder view.
    Other,
}

/// What a route mounts: a counter view owning its fresh state, or the
/// stateless placeholder with fixed content.
#[derive(Debug)]
pub enum MountedView {
    Counter(CounterState),
    Placeholder,
}

/// The route a path resolves to: exact matches of `"/"` and `"/other"` only.
pub open spec fn spec_resolve(path: Seq<char>) -> Option<Route> {
    if path == "/"@ {
        Some(Route::Root)
    } else if path == "/other"@ {
        Some(Route::Other)
    } else {
        None
    }
}

/// `a` and `b` hold the same characters.
fn str_eq(a: &str, b: &str) -> (r: bool)
    ensures
        r == (a@ == b@),
{
    let na = a.unicode_len();
    let nb = b.unicode_len();
    if na != nb {
        return false;
    }
    let mut i: usize = 0;
    while i < na
        invariant
            na == a@.len(),
            nb == b@.len(),
            na == nb,
            0 <= i <= na,
            forall|j: int| 0 <= j < i ==> a@[j] == b@[j],
        decreases na - i,
    {
        if a.get_char(i) != b.get_char(i) {
            return false;
        }
        i += 1;
    }
    proof {
        assert(a@ =~= b@);
    }
    true
}

/// Map a location path to its route: exact match only, `None` for any other
/// path.
pub fn resolve(path: &str) -> (r: Option<Route>)
    ensures
        r == spec_resolve(path@),
{
    if str_eq(path, "/") {
        Some(Route::Root)
    } else if str_eq(path, "/other") {
        Some(Route::Other)
    } else {
        None
    }
}

/// Resolution is a function of the path alone: resolving the same path twice
/// gives the same route both times.
pub proof fn lemma_resolve_deterministic(p1: Seq<char>, p2: Seq<char>)
    requires
        p1 == p2,
    ensures
        spec_resolve(p1) == spec_resolve(p2),
{
}

/// Mount the view a route selects: a counter view starting from the default
/// state for `Root`, the placeholder for `Other`.
pub fn render(route: Route) -> (v: MountedView)
    ensures
        route == Route::Root ==> (v matches MountedView::Counter(s) && s@.counter == 0
            && s@.input =~= Seq::<char>::empty()),
        route == Route::Other ==> v == MountedView::Placeholder,
{
    match route {
        Route::Root => MountedView::Counter(CounterState::new()),
        Route::Other => MountedView::Placeholder,
    }
}

} // verus!
