use blaming_diff_filter::baserev::BlameRev;
use blaming_diff_filter::error::AnnotateError;
use blaming_diff_filter::query::Query;

fn rev_parse(query: Option<Query>) -> String {
    match query {
        Some(Query::RevParse { rev }) => rev,
        other => panic!("no rev-parse: {:?}", other),
    }
}

fn merge_base(query: Option<Query>) -> (String, String) {
    match query {
        Some(Query::MergeBase { head, other }) => (head, other),
        other => panic!("no merge-base: {:?}", other),
    }
}

fn list(names: &[&str]) -> Option<Vec<String>> {
    Some(names.iter().map(|n| n.to_string()).collect())
}

#[test]
fn no_back_to_blames_the_head() {
    let search = BlameRev::new(None);
    assert!(search.settled());
    assert!(search.query().is_none());
    assert_eq!(search.rev(), "HEAD");
    let search = BlameRev::new(Some(Vec::new()));
    assert!(search.settled());
    assert_eq!(search.rev(), "HEAD");
}

#[test]
fn first_divergent_candidate_wins() {
    let mut search = BlameRev::new(list(&["gone", "same", "main", "later"]));
    assert!(!search.settled());
    assert_eq!(rev_parse(search.query()), "gone");
    assert_eq!(search.answer(None), Ok(()));
    assert_eq!(rev_parse(search.query()), "same");
    assert_eq!(search.answer(Some("1111".to_string())), Ok(()));
    assert_eq!(rev_parse(search.query()), "HEAD");
    assert_eq!(search.answer(Some("1111".to_string())), Ok(()));
    assert_eq!(rev_parse(search.query()), "main");
    assert_eq!(search.answer(Some("2222".to_string())), Ok(()));
    assert_eq!(merge_base(search.query()), ("HEAD".to_string(), "main".to_string()));
    assert_eq!(search.rev(), "HEAD");
    assert_eq!(search.answer(Some("0123abcd".to_string())), Ok(()));
    assert!(search.settled());
    assert!(search.query().is_none());
    assert_eq!(search.rev(), "0123abcd..");
    assert_eq!(search.answer(Some("ignored".to_string())), Ok(()));
    assert_eq!(search.rev(), "0123abcd..");
}

#[test]
fn candidates_that_all_fail_leave_the_head() {
    let mut search = BlameRev::new(list(&["a", "b"]));
    assert_eq!(search.answer(None), Ok(()));
    assert_eq!(rev_parse(search.query()), "b");
    assert_eq!(search.answer(None), Ok(()));
    assert!(search.settled());
    assert_eq!(search.rev(), "HEAD");
}

#[test]
fn candidates_that_all_are_the_head_leave_the_head() {
    let mut search = BlameRev::new(list(&["a", "b"]));
    assert_eq!(search.answer(Some("1111".to_string())), Ok(()));
    assert_eq!(rev_parse(search.query()), "HEAD");
    assert_eq!(search.answer(Some("1111".to_string())), Ok(()));
    assert_eq!(rev_parse(search.query()), "b");
    assert_eq!(search.answer(Some("1111".to_string())), Ok(()));
    assert!(search.settled());
    assert_eq!(search.rev(), "HEAD");
}

#[test]
fn failing_head_or_merge_base_is_fatal() {
    let mut search = BlameRev::new(list(&["main"]));
    assert_eq!(search.answer(Some("2222".to_string())), Ok(()));
    assert_eq!(rev_parse(search.query()), "HEAD");
    assert_eq!(search.answer(None), Err(AnnotateError::Backend));
    assert_eq!(rev_parse(search.query()), "HEAD");
    assert_eq!(search.answer(Some("1111".to_string())), Ok(()));
    assert_eq!(merge_base(search.query()).1, "main");
    assert_eq!(search.answer(None), Err(AnnotateError::Backend));
    assert!(!search.settled());
}

#[test]
fn answers_are_compared_without_surrounding_whitespace() {
    let mut search = BlameRev::new(list(&["main", "next"]));
    assert_eq!(search.answer(Some("1111\n".to_string())), Ok(()));
    assert_eq!(search.answer(Some(" 1111".to_string())), Ok(()));
    assert_eq!(rev_parse(search.query()), "next");
    assert_eq!(search.answer(Some("2222\n".to_string())), Ok(()));
    assert_eq!(search.answer(Some("0123abcd\n".to_string())), Ok(()));
    assert_eq!(search.rev(), "0123abcd..");
}
