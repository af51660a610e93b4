use vstd::prelude::*;

use crate::federation::{
    contributed, merge_libraries, plan_search, planned, tagged_library, task_views, texts,
    LibraryOutcome, SearchTask,
};
use crate::model::Library;

verus! {

/// The catalog service: it answers "list libraries" with one aggregate reply
/// and "search" with a stream of per-resolver messages.
pub struct JsonResolver {}

impl JsonResolver {
    pub fn new() -> (r: JsonResolver) {
        JsonResolver {  }
    }

    /// The reply to "list libraries", from what the workers of the resolvers
    /// came back with.
    pub fn get_libraries(&self, outcomes: &Vec<LibraryOutcome>) -> (r: Vec<Library>)
        ensures
            r@.len() == contributed(outcomes@).len(),
            forall|k: int|
                0 <= k < r@.len() ==> tagged_library(
                    #[trigger] contributed(outcomes@)[k].0,
                    contributed(outcomes@)[k].1,
                    r@[k],
                ),
    {
        merge_libraries(outcomes)
    }

    /// The workers that a search over `library_ids` starts, among the
    /// resolvers whose ids are `resolver_ids`.
    pub fn search(&self, resolver_ids: &Vec<String>, library_ids: &Vec<String>) -> (r: Vec<SearchTask>)
        ensures
            task_views(r@) == planned(texts(resolver_ids@), texts(library_ids@)),
    {
        plan_search(resolver_ids, library_ids)
    }
}

} // verus!
