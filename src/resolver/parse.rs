use vstd::prelude::*;

verus! {

/// The backend's answer to a request for its branches.
pub struct LibrariesResponse {
    pub contents: LibrariesContents,
}

pub struct LibrariesContents {
    pub lib_list: Vec<LibrariesLibrary>,
}

/// One branch as the backend lists it.
pub struct LibrariesLibrary {
    pub lib_name: String,
    pub manage_code: String,
    pub group_name: String,
}

/// The body of a search request to the backend.
pub struct SearchPayload {
    pub search_keyword: String,
    pub manage_code: Vec<String>,
}

/// The backend's answer to a search.
pub struct SearchResponse {
    pub contents: SearchContents,
}

pub struct SearchContents {
    pub book_list: Vec<SearchBook>,
}

/// One copy of a book as the backend reports it.
#[derive(Clone, Debug)]
pub struct SearchBook {
    pub title: String,
    pub author: String,
    pub publisher: String,
    pub pub_year: String,
    pub isbn: String,
    pub species_key: String,
    pub book_key: String,
    pub pub_form_code: String,
    pub manage_code: String,
    pub reg_code_desc: String,
    pub reg_no: String,
    pub call_no: String,
    pub loan_status: String,
    pub working_status: String,
    pub return_plan_date: String,
    pub is_active_resv_yn: String,
    pub reservation_count: u32,
}

} // verus!
