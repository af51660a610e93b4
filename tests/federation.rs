use json_rs::federation::{
    ids_in_namespace, merge_libraries, plan_search, LibraryOutcome, SearchRun, StreamAction,
};
use json_rs::model::{Library, ResolverError, SearchEntity};
use json_rs::namespace::{belongs_to, qualify, strip_namespace, tag};
use json_rs::service::JsonResolver;

fn strings(v: &[&str]) -> Vec<String> {
    v.iter().map(|s| s.to_string()).collect()
}

fn library(id: &str, name: &str) -> Library {
    Library { id: id.to_string(), name: name.to_string(), coordinate: None }
}

fn entity(url: &str) -> SearchEntity {
    SearchEntity { book: None, holding_summaries: vec![], url: url.to_string() }
}

#[test]
fn libraries_of_a_failed_resolver_are_left_out() {
    let outcomes = vec![
        LibraryOutcome {
            resolver_id: "r1".to_string(),
            result: Ok(vec![library("001", "Main"), library("r1:002", "Annex")]),
        },
        LibraryOutcome { resolver_id: "r2".to_string(), result: Err(ResolverError::DeadlineExceeded) },
    ];
    let libraries = JsonResolver::new().get_libraries(&outcomes);
    assert_eq!(libraries, vec![library("r1:001", "Main"), library("r1:002", "Annex")]);
}

#[test]
fn libraries_keep_order_within_a_resolver() {
    let outcomes = vec![
        LibraryOutcome {
            resolver_id: "b".to_string(),
            result: Ok(vec![library("x", "X"), library("y", "Y")]),
        },
        LibraryOutcome {
            resolver_id: "c".to_string(),
            result: Err(ResolverError::Unavailable { msg: "down".to_string() }),
        },
        LibraryOutcome { resolver_id: "a".to_string(), result: Ok(vec![library("z", "Z")]) },
    ];
    let libraries = merge_libraries(&outcomes);
    let ids: Vec<&str> = libraries.iter().map(|l| l.id.as_str()).collect();
    assert_eq!(ids, vec!["b:x", "b:y", "a:z"]);
}

#[test]
fn libraries_when_every_resolver_fails() {
    let outcomes = vec![LibraryOutcome {
        resolver_id: "r1".to_string(),
        result: Err(ResolverError::Unavailable { msg: "parse".to_string() }),
    }];
    assert!(merge_libraries(&outcomes).is_empty());
    assert!(merge_libraries(&vec![]).is_empty());
}

#[test]
fn search_calls_only_resolvers_with_ids() {
    let registry = strings(&["R1", "R3"]);
    let tasks = JsonResolver::new().search(&registry, &strings(&["R1:001", "R2:999"]));
    assert_eq!(tasks.len(), 1);
    assert_eq!(tasks[0].resolver, 0);
    assert_eq!(tasks[0].library_ids, strings(&["R1:001"]));
}

#[test]
fn search_partition_gives_each_resolver_its_own_ids() {
    let registry = strings(&["seoul-seocho", "seoul-nowon", "busan"]);
    let request = strings(&["seoul-nowon:1", "seoul-seocho:MA", "seoul-seochoX:9", "seoul-nowon:2", "zzz"]);
    let tasks = plan_search(&registry, &request);
    assert_eq!(tasks.len(), 2);
    assert_eq!(tasks[0].resolver, 0);
    assert_eq!(tasks[0].library_ids, strings(&["seoul-seocho:MA"]));
    assert_eq!(tasks[1].resolver, 1);
    assert_eq!(tasks[1].library_ids, strings(&["seoul-nowon:1", "seoul-nowon:2"]));
}

#[test]
fn search_with_no_ids_calls_nobody() {
    assert!(plan_search(&strings(&["a"]), &vec![]).is_empty());
    assert!(plan_search(&vec![], &strings(&["a:1"])).is_empty());
}

#[test]
fn ids_in_namespace_keeps_order() {
    let ids = strings(&["a:2", "b:1", "a:1", "ab:3"]);
    assert_eq!(ids_in_namespace(&ids, "a"), strings(&["a:2", "a:1"]));
}

#[test]
fn stream_emits_each_success_as_it_arrives() {
    let mut run = SearchRun::new(2);
    assert!(!run.is_finished());
    match run.on_outcome(1, Ok(vec![entity("fast")])) {
        StreamAction::Emit(m) => assert_eq!(m.entities, vec![entity("fast")]),
        _ => panic!("the fast resolver's message is owed at once"),
    }
    assert!(!run.is_finished());
    match run.on_outcome(0, Ok(vec![entity("slow")])) {
        StreamAction::Emit(m) => assert_eq!(m.entities, vec![entity("slow")]),
        _ => panic!("the slow resolver's message is owed too"),
    }
    assert!(run.is_finished());
}

#[test]
fn stream_skips_a_failure_and_keeps_the_others() {
    let mut run = SearchRun::new(2);
    assert!(matches!(
        run.on_outcome(0, Err(ResolverError::DeadlineExceeded)),
        StreamAction::Skip(ResolverError::DeadlineExceeded)
    ));
    assert!(!run.is_finished());
    assert!(matches!(run.on_outcome(1, Ok(vec![entity("b")])), StreamAction::Emit(_)));
    assert!(run.is_finished());
}

#[test]
fn stream_discards_late_or_unknown_workers() {
    let mut run = SearchRun::new(1);
    assert!(matches!(run.on_outcome(0, Err(ResolverError::DeadlineExceeded)), StreamAction::Skip(_)));
    assert!(matches!(run.on_outcome(0, Ok(vec![entity("late")])), StreamAction::Discard));
    assert!(matches!(run.on_outcome(7, Ok(vec![])), StreamAction::Discard));
    assert!(run.is_finished());
}

#[test]
fn stream_with_no_workers_is_finished() {
    assert!(SearchRun::new(0).is_finished());
}

#[test]
fn namespace_helpers() {
    assert_eq!(qualify("seoul-seocho", "MA"), "seoul-seocho:MA");
    assert!(belongs_to("seoul-seocho:MA", "seoul-seocho"));
    assert!(!belongs_to("seoul-seochoMA", "seoul-seocho"));
    assert!(!belongs_to("seoul", "seoul-seocho"));
    assert_eq!(tag("r1", "r1:5"), "r1:5");
    assert_eq!(tag("r1", "r2:5"), "r1:r2:5");
    assert_eq!(strip_namespace("r1:5", "r1"), Some("5".to_string()));
    assert_eq!(strip_namespace("r1:", "r1"), Some(String::new()));
    assert_eq!(strip_namespace("r2:5", "r1"), None);
}

#[test]
fn namespace_ids_of_two_resolvers_differ() {
    assert_ne!(tag("a", "b:1"), tag("b", "1"));
    assert_ne!(tag("ab", "1"), tag("a", "b1"));
}
