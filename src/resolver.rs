use vstd::prelude::*;

pub mod eco;
pub mod parse;
pub mod seoul_nowon;
pub mod seoul_seocho;

verus! {

/// A backend adapter, as the orchestrator sees it: the namespace it owns.
pub trait Resolver {
    /// The resolver's id, which opens the ids of everything it produces.
    spec fn namespace(&self) -> Seq<char>;

    fn id(&self) -> (r: String)
        ensures
            r@ == self.namespace(),
    ;
}

} // verus!
