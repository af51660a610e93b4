use vstd::prelude::*;

use super::eco::Resolver as EcoResolver;
use super::Resolver;

verus! {

/// The Seocho district libraries of Seoul.
pub struct SeoulSeocho {
    pub resolver: EcoResolver,
}

impl SeoulSeocho {
    pub fn new() -> (r: SeoulSeocho)
        ensures
            r.resolver.prefix@ == "seoul-seocho"@,
            r.resolver.host@ == "https://public.seocholib.or.kr"@,
    {
        SeoulSeocho { resolver: EcoResolver::new("seoul-seocho", "서울 서초구", "https://public.seocholib.or.kr") }
    }
}

impl Resolver for SeoulSeocho {
    open spec fn namespace(&self) -> Seq<char> {
        self.resolver.prefix@
    }

    fn id(&self) -> (r: String) {
        self.resolver.id()
    }
}

} // verus!
