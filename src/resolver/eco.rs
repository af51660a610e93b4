use vstd::prelude::*;
use vstd::string::*;

use super::parse::{LibrariesLibrary, LibrariesResponse, SearchBook, SearchPayload, SearchResponse};
use crate::model::{
    Book, Date, DateTime, HoldingState, HoldingStatus, HoldingSummary, Library, SearchEntity,
};
use crate::namespace::{in_namespace, qualified, qualify, strip_namespace};
use crate::text::{all_i32, fields, has_prefix, i32_value, parse_i32_fields, starts_with};

verus! {

/// What `reference` becomes when resolved against the absolute URL `base`, as
/// text; nothing when `base` is no absolute URL or the result is none.
pub uninterp spec fn url_joined(base: Seq<char>, reference: Seq<char>) -> Option<Seq<char>>;

/// Relies on `url::Url::parse` to read `base` and on `url::Url::join` to
/// resolve `reference` against it; the result is the joined URL's text.
#[verifier::external_body]
fn join_url(base: &str, reference: &str) -> (r: Option<String>)
    ensures
        match r {
            Some(u) => url_joined(base@, reference@) == Some(u@),
            None => url_joined(base@, reference@) is None,
        },
{
    match url::Url::parse(base) {
        Ok(b) => match b.join(reference) {
            Ok(u) => Some(u.to_string()),
            Err(_) => None,
        },
        Err(_) => None,
    }
}

/// The entry of a branch list that stands for every branch at once.
pub open spec fn is_branch(e: LibrariesLibrary) -> bool {
    e.manage_code@ != "ALL"@
}

/// The real branches of a branch list, in order.
pub open spec fn branches(list: Seq<LibrariesLibrary>) -> Seq<LibrariesLibrary>
    decreases list.len(),
{
    if list.len() == 0 {
        seq![]
    } else {
        let before = branches(list.drop_last());
        if is_branch(list.last()) {
            before.push(list.last())
        } else {
            before
        }
    }
}

/// `l` is branch `e` of resolver `prefix`, with no coordinate yet.
pub open spec fn library_of(prefix: Seq<char>, e: LibrariesLibrary, l: Library) -> bool {
    &&& l.id@ == qualified(prefix, e.manage_code@)
    &&& l.name == e.lib_name
    &&& l.coordinate is None
}

/// The due date that a text like `2024.01.31` writes: its first three pieces
/// between dots, when every piece is an `i32`.
pub open spec fn due_of(s: Seq<char>) -> Option<DateTime> {
    let fs = fields(s, '.');
    if all_i32(fs) && fs.len() >= 3 {
        Some(
            DateTime {
                date: Some(
                    Date {
                        year: i32_value(fs[0])->Some_0,
                        month: i32_value(fs[1])->Some_0,
                        day: i32_value(fs[2])->Some_0,
                    },
                ),
                time: None,
            },
        )
    } else {
        None
    }
}

/// The holding state that the backend's loan status and working status
/// stand for; none where the loan status is not one that it knows.
pub open spec fn state_of(book: SearchBook) -> Option<HoldingState> {
    if book.loan_status@ == "대출가능"@ {
        Some(HoldingState::Available { detail: Some(book.working_status), available_count: None })
    } else if has_prefix(book.loan_status@, "대출불가"@) {
        if book.working_status@ == "대출중"@ || book.working_status@ == "상호대차중"@ {
            Some(
                HoldingState::OnLoan {
                    detail: Some(book.working_status),
                    due: due_of(book.return_plan_date@),
                },
            )
        } else {
            Some(HoldingState::Unavailable { detail: Some(book.working_status) })
        }
    } else {
        None
    }
}

/// The path of a book's page, relative to the backend's host.
pub open spec fn detail_path(book: SearchBook) -> Seq<char> {
    "./bookDetail/"@ + book.pub_form_code@ + "/"@ + book.book_key@ + "/"@ + book.species_key@
        + "/"@ + book.isbn@
}

/// `e` is the entity that resolver `prefix` on `host` makes of `book`.
pub open spec fn entity_of(prefix: Seq<char>, host: Seq<char>, book: SearchBook, e: SearchEntity) -> bool {
    &&& e.book == Some(
        Book {
            isbn: book.isbn,
            title: book.title,
            author: Some(book.author),
            publisher: Some(book.publisher),
            description: None,
            publish_date: None,
        },
    )
    &&& e.holding_summaries@.len() == 1
    &&& e.holding_summaries@[0].library_id@ == qualified(prefix, book.manage_code@)
    &&& e.holding_summaries@[0].location == Some(book.reg_code_desc)
    &&& e.holding_summaries@[0].call_number == Some(book.call_no)
    &&& e.holding_summaries@[0].status == Some(
        HoldingStatus {
            is_requested: Some(book.reservation_count > 0),
            requests: Some(book.reservation_count),
            requests_available: Some(book.is_active_resv_yn@ == "Y"@),
            state: state_of(book),
        },
    )
    &&& e.url@ == match url_joined(host, detail_path(book)) {
        Some(u) => u,
        None => Seq::<char>::empty(),
    }
}

/// An adapter for the catalog software that several district library
/// systems run: ids of its branches are namespaced with `prefix`, places are
/// looked up under `search_prefix` and the branch name, and the backend
/// answers at `host`.
pub struct Resolver {
    pub prefix: String,
    pub search_prefix: String,
    pub host: String,
}

fn text_is(s: &String, t: &str) -> (r: bool)
    ensures
        r == (s@ == t@),
{
    *s == t.to_owned()
}

impl Resolver {
    pub fn new(prefix: &str, search_prefix: &str, host: &str) -> (r: Resolver)
        ensures
            r.prefix@ == prefix@,
            r.search_prefix@ == search_prefix@,
            r.host@ == host@,
    {
        Resolver {
            prefix: prefix.to_owned(),
            search_prefix: search_prefix.to_owned(),
            host: host.to_owned(),
        }
    }

    pub fn id(&self) -> (r: String)
        ensures
            r@ == self.prefix@,
    {
        self.prefix.clone()
    }

    /// The branches of a branch list, as libraries of this resolver, without
    /// the entry that stands for all of them.
    pub fn libraries(&self, response: &LibrariesResponse) -> (r: Vec<Library>)
        ensures
            r@.len() == branches(response.contents.lib_list@).len(),
            forall|k: int|
                0 <= k < r@.len() ==> library_of(
                    self.prefix@,
                    #[trigger] branches(response.contents.lib_list@)[k],
                    r@[k],
                ),
    {
        let list = &response.contents.lib_list;
        let mut r: Vec<Library> = Vec::new();
        let mut i: usize = 0;
        while i < list.len()
            invariant
                i <= list@.len(),
                r@.len() == branches(list@.take(i as int)).len(),
                forall|k: int|
                    0 <= k < r@.len() ==> library_of(
                        self.prefix@,
                        #[trigger] branches(list@.take(i as int))[k],
                        r@[k],
                    ),
            decreases list.len() - i,
        {
            let e = &list[i];
            assert(list@.take(i + 1).drop_last() =~= list@.take(i as int));
            assert(list@.take(i + 1).last() == *e);
            if !text_is(&e.manage_code, "ALL") {
                let l = Library {
                    id: qualify(self.prefix.as_str(), e.manage_code.as_str()),
                    name: e.lib_name.clone(),
                    coordinate: None,
                };
                r.push(l);
            }
            i += 1;
        }
        assert(list@.take(i as int) =~= list@);
        r
    }

    /// The text under which the geocoder is asked for branch `e`.
    pub fn place_keyword(&self, e: &LibrariesLibrary) -> (r: String)
        ensures
            r@ == self.search_prefix@ + " "@ + e.lib_name@,
    {
        let mut r = self.search_prefix.clone();
        r.append(" ");
        r.append(e.lib_name.as_str());
        r
    }

    /// The text under which the geocoder is asked for each branch of a
    /// branch list, in the order of `libraries`.
    pub fn place_keywords(&self, response: &LibrariesResponse) -> (r: Vec<String>)
        ensures
            r@.len() == branches(response.contents.lib_list@).len(),
            forall|k: int|
                0 <= k < r@.len() ==> (#[trigger] r@[k])@ == self.search_prefix@ + " "@
                    + branches(response.contents.lib_list@)[k].lib_name@,
    {
        let list = &response.contents.lib_list;
        let mut r: Vec<String> = Vec::new();
        let mut i: usize = 0;
        while i < list.len()
            invariant
                i <= list@.len(),
                r@.len() == branches(list@.take(i as int)).len(),
                forall|k: int|
                    0 <= k < r@.len() ==> (#[trigger] r@[k])@ == self.search_prefix@ + " "@
                        + branches(list@.take(i as int))[k].lib_name@,
            decreases list.len() - i,
        {
            let e = &list[i];
            assert(list@.take(i + 1).drop_last() =~= list@.take(i as int));
            assert(list@.take(i + 1).last() == *e);
            if !text_is(&e.manage_code, "ALL") {
                r.push(self.place_keyword(e));
            }
            i += 1;
        }
        assert(list@.take(i as int) =~= list@);
        r
    }

    /// The search request for `keyword` over `library_ids`, with each id
    /// stripped of this resolver's namespace; none when an id lies outside it.
    pub fn search_payload(&self, keyword: &str, library_ids: &Vec<String>) -> (r: Option<SearchPayload>)
        ensures
            r is Some <==> forall|k: int|
                0 <= k < library_ids@.len() ==> in_namespace(#[trigger] library_ids@[k]@, self.prefix@),
            r matches Some(p) ==> {
                &&& p.search_keyword@ == keyword@
                &&& p.manage_code@.len() == library_ids@.len()
                &&& forall|k: int|
                    0 <= k < library_ids@.len() ==> qualified(self.prefix@, #[trigger] p.manage_code@[k]@)
                        == library_ids@[k]@
            },
    {
        let mut codes: Vec<String> = Vec::new();
        let mut i: usize = 0;
        while i < library_ids.len()
            invariant
                i <= library_ids@.len(),
                codes@.len() == i,
                forall|k: int| 0 <= k < i ==> in_namespace(#[trigger] library_ids@[k]@, self.prefix@),
                forall|k: int|
                    0 <= k < i ==> qualified(self.prefix@, #[trigger] codes@[k]@) == library_ids@[k]@,
            decreases library_ids.len() - i,
        {
            match strip_namespace(library_ids[i].as_str(), self.prefix.as_str()) {
                Some(code) => {
                    codes.push(code);
                },
                None => {
                    return None;
                },
            }
            i += 1;
        }
        Some(SearchPayload { search_keyword: keyword.to_owned(), manage_code: codes })
    }

    /// The due date that the backend wrote, as in `2024.01.31`.
    pub fn parse_due(&self, due: &str) -> (r: Option<DateTime>)
        ensures
            r == due_of(due@),
    {
        match parse_i32_fields(due, '.') {
            Some(parts) => {
                if parts.len() >= 3 {
                    Some(
                        DateTime {
                            date: Some(Date { year: parts[0], month: parts[1], day: parts[2] }),
                            time: None,
                        },
                    )
                } else {
                    None
                }
            },
            None => None,
        }
    }

    /// The holding state of a copy; none where the backend's loan status is
    /// not one that it knows.
    pub fn parse_state(&self, book: &SearchBook) -> (r: Option<HoldingState>)
        ensures
            r == state_of(*book),
    {
        if text_is(&book.loan_status, "대출가능") {
            Some(HoldingState::Available { detail: Some(book.working_status.clone()), available_count: None })
        } else if starts_with(book.loan_status.as_str(), "대출불가") {
            if text_is(&book.working_status, "대출중") || text_is(&book.working_status, "상호대차중") {
                Some(
                    HoldingState::OnLoan {
                        detail: Some(book.working_status.clone()),
                        due: self.parse_due(book.return_plan_date.as_str()),
                    },
                )
            } else {
                Some(HoldingState::Unavailable { detail: Some(book.working_status.clone()) })
            }
        } else {
            None
        }
    }

    /// The page of a book on the backend's site; empty where the host is no
    /// absolute URL.
    pub fn detail_url(&self, book: &SearchBook) -> (r: String)
        ensures
            r@ == match url_joined(self.host@, detail_path(*book)) {
                Some(u) => u,
                None => Seq::<char>::empty(),
            },
    {
        let mut path = "./bookDetail/".to_owned();
        path.append(book.pub_form_code.as_str());
        path.append("/");
        path.append(book.book_key.as_str());
        path.append("/");
        path.append(book.species_key.as_str());
        path.append("/");
        path.append(book.isbn.as_str());
        match join_url(self.host.as_str(), path.as_str()) {
            Some(u) => u,
            None => String::new(),
        }
    }

    /// The entity that this resolver makes of one copy that the backend found.
    pub fn entity(&self, book: &SearchBook) -> (r: SearchEntity)
        ensures
            entity_of(self.prefix@, self.host@, *book, r),
    {
        let state = self.parse_state(book);
        let url = self.detail_url(book);
        let summary = HoldingSummary {
            library_id: qualify(self.prefix.as_str(), book.manage_code.as_str()),
            location: Some(book.reg_code_desc.clone()),
            call_number: Some(book.call_no.clone()),
            status: Some(
                HoldingStatus {
                    is_requested: Some(book.reservation_count > 0),
                    requests: Some(book.reservation_count),
                    requests_available: Some(text_is(&book.is_active_resv_yn, "Y")),
                    state,
                },
            ),
        };
        let mut holding_summaries: Vec<HoldingSummary> = Vec::new();
        holding_summaries.push(summary);
        SearchEntity {
            book: Some(
                Book {
                    isbn: book.isbn.clone(),
                    title: book.title.clone(),
                    author: Some(book.author.clone()),
                    publisher: Some(book.publisher.clone()),
                    description: None,
                    publish_date: None,
                },
            ),
            holding_summaries,
            url,
        }
    }

    /// The entities of a search answer, one for each copy, in the backend's
    /// order.
    pub fn entities(&self, response: &SearchResponse) -> (r: Vec<SearchEntity>)
        ensures
            r@.len() == response.contents.book_list@.len(),
            forall|k: int|
                0 <= k < r@.len() ==> entity_of(
                    self.prefix@,
                    self.host@,
                    response.contents.book_list@[k],
                    #[trigger] r@[k],
                ),
    {
        let list = &response.contents.book_list;
        let mut r: Vec<SearchEntity> = Vec::new();
        let mut i: usize = 0;
        while i < list.len()
            invariant
                i <= list@.len(),
                r@.len() == i,
                forall|k: int|
                    0 <= k < i ==> entity_of(self.prefix@, self.host@, list@[k], #[trigger] r@[k]),
            decreases list.len() - i,
        {
            let e = self.entity(&list[i]);
            r.push(e);
            i += 1;
        }
        r
    }
}

} // verus!
