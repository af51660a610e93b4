use vstd::prelude::*;

use super::eco::Resolver as EcoResolver;
use super::Resolver;

verus! {

/// The Nowon district libraries of Seoul.
pub struct SeoulNowon {
    pub resolver: EcoResolver,
}

impl SeoulNowon {
    pub fn new() -> (r: SeoulNowon)
        ensures
            r.resolver.prefix@ == "seoul-nowon"@,
            r.resolver.host@ == "https://www.nowonlib.kr/"@,
    {
        SeoulNowon { resolver: EcoResolver::new("seoul-nowon", "서울 노원구", "https://www.nowonlib.kr/") }
    }
}

impl Resolver for SeoulNowon {
    open spec fn namespace(&self) -> Seq<char> {
        self.resolver.prefix@
    }

    fn id(&self) -> (r: String) {
        self.resolver.id()
    }
}

} // verus!
