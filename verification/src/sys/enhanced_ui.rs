//! Scoped suspension of an application's enhanced user interface.

use vstd::prelude::*;

verus! {

/// Run `f` with the element's enhanced user interface switched off, then switch
/// it on again.
///
/// `set` writes the attribute. The element is threaded through, so that a caller
/// sees in which order it was written: off, then `f`, then on. Whether a write
/// succeeded does not matter to the order.
pub fn with_enhanced_ui_disabled<E, R, S, F>(element: E, set: S, f: F) -> (out: (E, R)) where
    S: Fn(E, bool) -> E,
    F: FnOnce(E) -> (E, R),

    requires
        forall|e: E, on: bool| call_requires(set, (e, on)),
        forall|e: E| call_requires(f, (e,)),
    ensures
        exists|off: E, done: (E, R)|
            {
                &&& #[trigger] call_ensures(set, (element, false), off)
                &&& #[trigger] call_ensures(f, (off,), done)
                &&& call_ensures(set, (done.0, true), out.0)
                &&& out.1 == done.1
            },
{
    let off = set(element, false);
    let done = f(off);
    let (element, result) = done;
    let on = set(element, true);
    (on, result)
}

} // verus!
