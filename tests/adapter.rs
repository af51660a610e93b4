use json_rs::location::{coordinate_of, Address};
use json_rs::model::{Coordinate, Date, DateTime, HoldingState};
use json_rs::resolver::eco::Resolver;
use json_rs::resolver::parse::{
    LibrariesContents, LibrariesLibrary, LibrariesResponse, SearchBook, SearchContents, SearchResponse,
};
use json_rs::resolver::seoul_nowon::SeoulNowon;
use json_rs::resolver::seoul_seocho::SeoulSeocho;
use json_rs::resolver::Resolver as _;
use json_rs::text::{parse_i32, parse_i32_fields};

fn book(loan_status: &str, working_status: &str, due: &str) -> SearchBook {
    SearchBook {
        title: "Dune".to_string(),
        author: "Frank Herbert".to_string(),
        publisher: "Chilton".to_string(),
        pub_year: "1965".to_string(),
        isbn: "9780441013593".to_string(),
        species_key: "S1".to_string(),
        book_key: "B2".to_string(),
        pub_form_code: "MO".to_string(),
        manage_code: "MA".to_string(),
        reg_code_desc: "Stacks".to_string(),
        reg_no: "R9".to_string(),
        call_no: "813.54".to_string(),
        loan_status: loan_status.to_string(),
        working_status: working_status.to_string(),
        return_plan_date: due.to_string(),
        is_active_resv_yn: "Y".to_string(),
        reservation_count: 2,
    }
}

fn resolver() -> Resolver {
    Resolver::new("seoul-seocho", "서울 서초구", "https://public.seocholib.or.kr")
}

fn chars(s: &str) -> Vec<char> {
    s.chars().collect()
}

#[test]
fn unknown_status_gives_no_state_but_keeps_the_entity() {
    let r = resolver();
    let b = book("정리중", "??", "");
    assert_eq!(r.parse_state(&b), None);
    let response = SearchResponse { contents: SearchContents { book_list: vec![b] } };
    let entities = r.entities(&response);
    assert_eq!(entities.len(), 1);
    let status = entities[0].holding_summaries[0].status.as_ref().unwrap();
    assert_eq!(status.state, None);
    assert_eq!(status.requests, Some(2));
}

#[test]
fn available_status() {
    let state = resolver().parse_state(&book("대출가능", "비치중", ""));
    assert_eq!(
        state,
        Some(HoldingState::Available { detail: Some("비치중".to_string()), available_count: None })
    );
}

#[test]
fn on_loan_status_with_due_date() {
    let state = resolver().parse_state(&book("대출불가(대출중)", "대출중", "2024.01.31"));
    assert_eq!(
        state,
        Some(HoldingState::OnLoan {
            detail: Some("대출중".to_string()),
            due: Some(DateTime { date: Some(Date { year: 2024, month: 1, day: 31 }), time: None }),
        })
    );
    let state = resolver().parse_state(&book("대출불가", "상호대차중", "soon"));
    assert_eq!(state, Some(HoldingState::OnLoan { detail: Some("상호대차중".to_string()), due: None }));
}

#[test]
fn unavailable_status() {
    let state = resolver().parse_state(&book("대출불가", "분실", ""));
    assert_eq!(state, Some(HoldingState::Unavailable { detail: Some("분실".to_string()) }));
}

#[test]
fn due_dates() {
    let r = resolver();
    assert_eq!(
        r.parse_due("2023.12.05"),
        Some(DateTime { date: Some(Date { year: 2023, month: 12, day: 5 }), time: None })
    );
    assert_eq!(r.parse_due("2023.12"), None);
    assert_eq!(r.parse_due(""), None);
    assert_eq!(r.parse_due("2023.x.05"), None);
    assert_eq!(
        r.parse_due("2023.12.05.7"),
        Some(DateTime { date: Some(Date { year: 2023, month: 12, day: 5 }), time: None })
    );
}

#[test]
fn integers() {
    assert_eq!(parse_i32(&chars("0042")), Some(42));
    assert_eq!(parse_i32(&chars("-17")), Some(-17));
    assert_eq!(parse_i32(&chars("+8")), Some(8));
    assert_eq!(parse_i32(&chars("2147483647")), Some(i32::MAX));
    assert_eq!(parse_i32(&chars("-2147483648")), Some(i32::MIN));
    assert_eq!(parse_i32(&chars("2147483648")), None);
    assert_eq!(parse_i32(&chars("99999999999999")), None);
    assert_eq!(parse_i32(&chars("-")), None);
    assert_eq!(parse_i32(&chars("")), None);
    assert_eq!(parse_i32(&chars("1a")), None);
    assert_eq!(parse_i32_fields("1.2.3", '.'), Some(vec![1, 2, 3]));
    assert_eq!(parse_i32_fields("1..3", '.'), None);
}

#[test]
fn entity_of_a_book() {
    let r = resolver();
    let e = r.entity(&book("대출가능", "비치중", ""));
    let b = e.book.as_ref().unwrap();
    assert_eq!(b.isbn, "9780441013593");
    assert_eq!(b.author.as_deref(), Some("Frank Herbert"));
    assert_eq!(e.holding_summaries.len(), 1);
    assert_eq!(e.holding_summaries[0].library_id, "seoul-seocho:MA");
    assert_eq!(e.holding_summaries[0].call_number.as_deref(), Some("813.54"));
    let status = e.holding_summaries[0].status.as_ref().unwrap();
    assert_eq!(status.is_requested, Some(true));
    assert_eq!(status.requests_available, Some(true));
    assert_eq!(e.url, "https://public.seocholib.or.kr/bookDetail/MO/B2/S1/9780441013593");
}

#[test]
fn detail_url_without_a_valid_host_is_empty() {
    let r = Resolver::new("x", "x", "not a url");
    assert_eq!(r.detail_url(&book("", "", "")), "");
}

#[test]
fn branches_leave_out_the_all_entry() {
    let lib = |name: &str, code: &str| LibrariesLibrary {
        lib_name: name.to_string(),
        manage_code: code.to_string(),
        group_name: "g".to_string(),
    };
    let response = LibrariesResponse {
        contents: LibrariesContents { lib_list: vec![lib("전체", "ALL"), lib("반포도서관", "MB"), lib("서초구립", "MA")] },
    };
    let r = resolver();
    let libraries = r.libraries(&response);
    assert_eq!(libraries.len(), 2);
    assert_eq!(libraries[0].id, "seoul-seocho:MB");
    assert_eq!(libraries[0].name, "반포도서관");
    assert_eq!(libraries[1].id, "seoul-seocho:MA");
    assert_eq!(r.place_keyword(&response.contents.lib_list[1]), "서울 서초구 반포도서관");
}

#[test]
fn search_payload_strips_the_namespace() {
    let r = resolver();
    let ids = vec!["seoul-seocho:MA".to_string(), "seoul-seocho:MB".to_string()];
    let p = r.search_payload("dune", &ids).unwrap();
    assert_eq!(p.search_keyword, "dune");
    assert_eq!(p.manage_code, vec!["MA".to_string(), "MB".to_string()]);
    assert!(r.search_payload("dune", &vec!["seoul-nowon:MA".to_string()]).is_none());
}

#[test]
fn branch_resolvers_have_their_ids() {
    assert_eq!(SeoulSeocho::new().id(), "seoul-seocho");
    assert_eq!(SeoulNowon::new().id(), "seoul-nowon");
}

#[test]
fn coordinates_from_the_geocoder() {
    let a = Address { x: "127.03".to_string(), y: "37.48".to_string() };
    assert_eq!(
        coordinate_of(Some(a)),
        Some(Coordinate { latitude: "37.48".to_string(), longitude: "127.03".to_string() })
    );
    assert_eq!(coordinate_of(None), None);
}
