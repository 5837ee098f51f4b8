use vstd::prelude::*;

verus! {

/// A control law stepped once per tick: it reads an input and yields a
/// command, or `None` once it is done.
pub trait State<I, O> {
    fn init(&mut self) {
    }

    fn update(&mut self, i: &I) -> Option<O>;
}

} // verus!
