use blaming_diff_filter::annotate::{DiffAnnotator, LineStep};
use blaming_diff_filter::error::AnnotateError;
use blaming_diff_filter::query::Query;
use blaming_diff_filter::render::{pair_lines, render_line};

const PATCH: &str = r"diff --git a/tests/bar.txt b/tests/bar.txt
index 6d0a9487a999..5aa46cc774fb 10064
--- a/tests/bar.txt
+++ b/tests/bar.txt
@@ -1,10 +1,10 @@
-bar
+barbara
 0.5
 1
 2
 3
 foobar
 bar ba baz
-a
-b
+A
+B
 C
diff --git a/tests/foo.txt b/tests/foo.txt
index 06259808ba40..482e77c74da8 100644
--- a/tests/foo.txt
+++ b/tests/foo.txt
@@ -1,5 +1,5 @@
 foo
-bar
+baz
 a
 b
 c
@@ -7,7 +7,7 @@ d
 +
 -
 +++
-extra
+wtextra
 bla
 ---
 @@ foo
@@ -17,7 +17,7 @@ bar
 3
 4
 5
-6
+5z
 6a
 7
 8
@@ -25,4 +25,3 @@ bar
 10
 11
 12
-13
";

const FIRST: &str = "b40c1d";
const SECOND: &str = "6ec7db";
const BOUNDARY: &str = "^b40c1";

fn to_lines(text: &str) -> Vec<String> {
    text.lines().map(str::to_string).collect()
}

/// A blame listing in the backend's layout, one line for each identifier.
fn listing(ids: &[&str], first_line: u32) -> String {
    let mut out = String::new();
    let mut n = first_line;
    for id in ids {
        out.push_str(&format!("{} (Some One 2024-05-01 10:00:00 +0200 {:2}) text\n", id, n));
        n += 1;
    }
    out.trim().to_string()
}

/// The listings that the five hunks of `PATCH` ask for, `old` standing for the
/// first commit of the test repository and `new` for the second.
fn patch_blames(old: &str, new: &str) -> Vec<String> {
    vec![
        listing(&[old, new, old, old, old, new, new, old, old, new, old], 1),
        listing(&[old, old, old, old, old, old], 1),
        listing(&[old, old, old, old, old, old, old, old], 7),
        listing(&[old, old, old, old, new, old, old, old], 17),
        listing(&[old, old, old, new, old], 25),
    ]
}

const ANNOTATED: &str = r"diff --git a/tests/bar.txt b/tests/bar.txt
index 6d0a9487a999..5aa46cc774fb 10064
--- a/tests/bar.txt
+++ b/tests/bar.txt
@@ -1,10 +1,10 @@
b40c1d -bar
++++++ +barbara
6ec7db  0.5
b40c1d  1
b40c1d  2
b40c1d  3
6ec7db  foobar
6ec7db  bar ba baz
b40c1d -a
b40c1d -b
++++++ +A
++++++ +B
6ec7db  C
diff --git a/tests/foo.txt b/tests/foo.txt
index 06259808ba40..482e77c74da8 100644
--- a/tests/foo.txt
+++ b/tests/foo.txt
@@ -1,5 +1,5 @@
b40c1d  foo
b40c1d -bar
++++++ +baz
b40c1d  a
b40c1d  b
b40c1d  c
@@ -7,7 +7,7 @@ d
b40c1d  +
b40c1d  -
b40c1d  +++
b40c1d -extra
++++++ +wtextra
b40c1d  bla
b40c1d  ---
b40c1d  @@ foo
@@ -17,7 +17,7 @@ bar
b40c1d  3
b40c1d  4
b40c1d  5
b40c1d -6
++++++ +5z
6ec7db  6a
b40c1d  7
b40c1d  8
@@ -25,4 +25,3 @@ bar
b40c1d  10
b40c1d  11
b40c1d  12
6ec7db -13
";

#[test]
fn test_annotate_diff() {
    let mut annotator = DiffAnnotator::new(None, None, None).unwrap();

    let lines = to_lines(PATCH);
    let blames = patch_blames(FIRST, SECOND);
    let result = annotator.annotate_diff(&lines, &Vec::new(), &blames, None);
    assert!(result.is_ok());
    let (writer, cwriter) = result.unwrap();
    assert_eq!(writer, ANNOTATED);
    assert_eq!(cwriter, "");
}

#[test]
fn test_annotate_inner() {
    let inner = vec![
        "tr".to_string(),
        "[:lower:]".to_string(),
        "[:upper:]".to_string(),
    ];
    let format = "%h %s".to_string();
    let mut annotator = DiffAnnotator::new(Some(inner), None, Some(format)).unwrap();

    let lines = to_lines(PATCH);
    let filtered: Vec<String> = lines.iter().map(|l| l.to_uppercase()).collect();
    let blames = patch_blames(FIRST, SECOND);
    let shown = "1715000100 6ec7db tests: Add some changes to test files for blame testing\n\
                 1715000000 b40c1d tests: Add some test data";
    let result = annotator.annotate_diff(&lines, &filtered, &blames, Some(shown));
    assert!(result.is_ok());
    let (writer, cwriter) = result.unwrap();
    assert_eq!(
        writer,
        r"DIFF --GIT A/TESTS/BAR.TXT B/TESTS/BAR.TXT
INDEX 6D0A9487A999..5AA46CC774FB 10064
--- A/TESTS/BAR.TXT
+++ B/TESTS/BAR.TXT
@@ -1,10 +1,10 @@
b40c1d -BAR
++++++ +BARBARA
6ec7db  0.5
b40c1d  1
b40c1d  2
b40c1d  3
6ec7db  FOOBAR
6ec7db  BAR BA BAZ
b40c1d -A
b40c1d -B
++++++ +A
++++++ +B
6ec7db  C
DIFF --GIT A/TESTS/FOO.TXT B/TESTS/FOO.TXT
INDEX 06259808BA40..482E77C74DA8 100644
--- A/TESTS/FOO.TXT
+++ B/TESTS/FOO.TXT
@@ -1,5 +1,5 @@
b40c1d  FOO
b40c1d -BAR
++++++ +BAZ
b40c1d  A
b40c1d  B
b40c1d  C
@@ -7,7 +7,7 @@ D
b40c1d  +
b40c1d  -
b40c1d  +++
b40c1d -EXTRA
++++++ +WTEXTRA
b40c1d  BLA
b40c1d  ---
b40c1d  @@ FOO
@@ -17,7 +17,7 @@ BAR
b40c1d  3
b40c1d  4
b40c1d  5
b40c1d -6
++++++ +5Z
6ec7db  6A
b40c1d  7
b40c1d  8
@@ -25,4 +25,3 @@ BAR
b40c1d  10
b40c1d  11
b40c1d  12
6ec7db -13
"
    );
    assert_eq!(
        cwriter,
        r"b40c1d tests: Add some test data
6ec7db tests: Add some changes to test files for blame testing
"
    );
    match annotator.show_query() {
        Some(Query::Show { abbrev, format, revs }) => {
            assert_eq!(abbrev, 6);
            assert_eq!(format, "%at %h %s");
            assert_eq!(revs, vec![FIRST.to_string(), SECOND.to_string()]);
        }
        other => panic!("no show query: {:?}", other),
    }
}

/// Has the backend's answers settle the blame revision of `annotator`.
fn settle(annotator: &mut DiffAnnotator, resolve: &dyn Fn(&Query) -> Option<String>) -> Vec<String> {
    let mut asked = Vec::new();
    while let Some(query) = annotator.rev_query() {
        asked.push(format!("{:?}", query));
        let reply = resolve(&query);
        annotator.make_blame_rev(reply).unwrap();
        assert!(asked.len() < 100);
    }
    asked
}

#[test]
fn test_annotate_backto() {
    let backto = Some(vec!["b40c1dbc28".to_string()]);
    let mut annotator = DiffAnnotator::new(None, backto, None).unwrap();
    settle(&mut annotator, &|query| match query {
        Query::RevParse { rev } if rev == "HEAD" => Some("6ec7db0000".to_string()),
        Query::RevParse { rev } => Some(format!("{}ffff", rev)),
        Query::MergeBase { head, other } => {
            assert_eq!(head, "HEAD");
            assert_eq!(other, "b40c1dbc28");
            Some("b40c1dbc28ffff".to_string())
        }
        _ => None,
    });
    assert_eq!(annotator.rev(), "b40c1dbc28ffff..");

    let lines = to_lines(PATCH);
    let blames = patch_blames(BOUNDARY, SECOND);
    let result = annotator.annotate_diff(&lines, &Vec::new(), &blames, None);
    assert!(result.is_ok());
    let (writer, _) = result.unwrap();
    assert_eq!(
        writer,
        r"diff --git a/tests/bar.txt b/tests/bar.txt
index 6d0a9487a999..5aa46cc774fb 10064
--- a/tests/bar.txt
+++ b/tests/bar.txt
@@ -1,10 +1,10 @@
······ -bar
++++++ +barbara
6ec7db  0.5
······  1
······  2
······  3
6ec7db  foobar
6ec7db  bar ba baz
······ -a
······ -b
++++++ +A
++++++ +B
6ec7db  C
diff --git a/tests/foo.txt b/tests/foo.txt
index 06259808ba40..482e77c74da8 100644
--- a/tests/foo.txt
+++ b/tests/foo.txt
@@ -1,5 +1,5 @@
······  foo
······ -bar
++++++ +baz
······  a
······  b
······  c
@@ -7,7 +7,7 @@ d
······  +
······  -
······  +++
······ -extra
++++++ +wtextra
······  bla
······  ---
······  @@ foo
@@ -17,7 +17,7 @@ bar
······  3
······  4
······  5
······ -6
++++++ +5z
6ec7db  6a
······  7
······  8
@@ -25,4 +25,3 @@ bar
······  10
······  11
······  12
6ec7db -13
"
    );
    assert_eq!(annotator.candidates(), &vec![SECOND.to_string()]);
}

#[test]
fn back_to_equal_to_head_blames_the_head() {
    let backto = Some(vec!["main".to_string()]);
    let mut annotator = DiffAnnotator::new(None, backto, None).unwrap();
    let asked = settle(&mut annotator, &|query| match query {
        Query::RevParse { .. } => Some("6ec7db0000".to_string()),
        _ => None,
    });
    assert_eq!(asked.len(), 2);
    assert_eq!(annotator.rev(), "HEAD");
    let lines = to_lines(PATCH);
    let result = annotator.simple_diff(&lines, &patch_blames(FIRST, SECOND));
    assert_eq!(result.unwrap(), ANNOTATED);
}

#[test]
fn single_commit_with_one_exception() {
    let patch = "diff --git a/A.txt b/A.txt\n\
                 --- a/A.txt\n\
                 +++ b/A.txt\n\
                 @@ -1,10 +1,10 @@\n\
                 -one\n\
                 +uno\n \
                 two\n \
                 three\n\
                 -four\n \
                 five\n \
                 six\n \
                 seven\n \
                 eight\n\
                 -nine\n\
                 +nueve\n \
                 ten\n\
                 diff --git a/B.txt b/B.txt\n\
                 --- /dev/null\n\
                 +++ b/B.txt\n\
                 @@ -0,0 +1,2 @@\n\
                 +first\n\
                 +second\n";
    let mut annotator = DiffAnnotator::new(None, None, None).unwrap();
    let ids = [FIRST, FIRST, FIRST, FIRST, FIRST, SECOND, FIRST, FIRST, FIRST, FIRST];
    let text = annotator.simple_diff(&to_lines(patch), &vec![listing(&ids, 1)]).unwrap();
    assert_eq!(
        text,
        "diff --git a/A.txt b/A.txt\n\
         --- a/A.txt\n\
         +++ b/A.txt\n\
         @@ -1,10 +1,10 @@\n\
         b40c1d -one\n\
         ++++++ +uno\n\
         b40c1d  two\n\
         b40c1d  three\n\
         b40c1d -four\n\
         b40c1d  five\n\
         6ec7db  six\n\
         b40c1d  seven\n\
         b40c1d  eight\n\
         b40c1d -nine\n\
         ++++++ +nueve\n\
         b40c1d  ten\n\
         diff --git a/B.txt b/B.txt\n\
         --- /dev/null\n\
         +++ b/B.txt\n\
         @@ -0,0 +1,2 @@\n\
         ++++++ +first\n\
         ++++++ +second\n"
    );
    assert_eq!(annotator.file(), &None);
}

#[test]
fn hunk_header_asks_for_blame_of_old_range() {
    let mut annotator = DiffAnnotator::new(None, None, None).unwrap();
    assert!(matches!(annotator.process_line("--- a/src/lib.rs"), Ok(LineStep::Prefix(None))));
    assert_eq!(annotator.file(), &Some("src/lib.rs".to_string()));
    assert!(matches!(annotator.process_line("+++ b/src/lib.rs"), Ok(LineStep::Prefix(None))));
    match annotator.process_line("@@ -36,7 +36,8 @@ fn main()") {
        Ok(LineStep::Blame(Query::Blame { rev, abbrev, start, end, file })) => {
            assert_eq!(rev, "HEAD");
            assert_eq!(abbrev, 5);
            assert_eq!(start, 36);
            assert_eq!(end, 43);
            assert_eq!(file, "src/lib.rs");
        }
        other => panic!("no blame query: {:?}", other),
    }
    assert_eq!(annotator.start(), 36);
    assert_eq!(annotator.offset(), 36);
    assert_eq!(annotator.lookup_commit(), None);
    annotator.blame_hunk("aaaaaa 1\nbbbbbb 2").unwrap();
    assert_eq!(annotator.lookup_commit(), Some("aaaaaa".to_string()));
    match annotator.process_line(" context") {
        Ok(LineStep::Prefix(Some(p))) => assert_eq!(p, "aaaaaa "),
        other => panic!("{:?}", other),
    }
    assert_eq!(annotator.offset(), 37);
    assert_eq!(annotator.lookup_commit(), Some("bbbbbb".to_string()));
}

#[test]
fn escape_sequences_are_taken_out_before_a_line_is_read() {
    let mut annotator = DiffAnnotator::new(None, None, None).unwrap();
    match annotator.process_line("\x1b[32m+added\x1b[m") {
        Ok(LineStep::Prefix(Some(p))) => assert_eq!(p, "++++++ "),
        other => panic!("{:?}", other),
    }
    match annotator.process_plain("\x1b[32m+added\x1b[m") {
        Ok(LineStep::Prefix(None)) => {}
        other => panic!("{:?}", other),
    }
    assert!(matches!(
        annotator.process_line("\x1b[1m--- a/colour.txt\x1b[m"),
        Ok(LineStep::Prefix(None))
    ));
    assert_eq!(annotator.file(), &Some("colour.txt".to_string()));
    let text = annotator
        .simple_diff(&vec!["\x1b[31m-gone\x1b[m".to_string()], &Vec::new())
        .unwrap();
    assert_eq!(text, "?????? \x1b[31m-gone\x1b[m\n");
}

#[test]
fn lines_past_the_listing_are_unknown() {
    let mut annotator = DiffAnnotator::new(None, None, None).unwrap();
    let lines = to_lines("--- a/f\n+++ b/f\n@@ -3,2 +3,2 @@\n x\n y\n z\n-w\n+v\nother");
    let text = annotator.simple_diff(&lines, &vec!["abcdef0 3\nabcdef1 4".to_string()]).unwrap();
    assert_eq!(
        text,
        "--- a/f\n+++ b/f\n@@ -3,2 +3,2 @@\nabcdef0  x\nabcdef1  y\n???????  z\n??????? -w\n+++++++ +v\nother\n"
    );
    assert_eq!(annotator.width(), 7);
    assert_eq!(annotator.offset(), 7);
}

#[test]
fn every_field_of_a_hunk_has_its_width() {
    let mut annotator = DiffAnnotator::new(None, None, None).unwrap();
    let lines = to_lines("--- a/f\n@@ -1,4 +1,4 @@\n a\n-b\n+c\n d\n e\n f");
    let listing = "^1234567 1\n00000000 2\n89abcdef 3\n89abcdef 4";
    let prefixes = annotator.annotate_lines(&lines, &vec![listing.to_string()]).unwrap();
    let fields: Vec<&str> = prefixes.iter().flatten().map(String::as_str).collect();
    assert_eq!(
        fields,
        vec!["········ ", "········ ", "++++++++ ", "89abcdef ", "89abcdef ", "???????? "]
    );
    for field in fields {
        assert_eq!(field.chars().count(), 9);
    }
    assert_eq!(prefixes[0], None);
    assert_eq!(prefixes[1], None);
}

#[test]
fn a_short_identifier_is_not_padded() {
    let mut annotator = DiffAnnotator::new(None, None, None).unwrap();
    let lines = to_lines("--- a/f\n@@ -1,2 +1,2 @@\n a\n b\n+c");
    let prefixes = annotator
        .annotate_lines(&lines, &vec!["abc 1\nabcdef01 2".to_string()])
        .unwrap();
    assert_eq!(prefixes[2], Some("abc ".to_string()));
    assert_eq!(prefixes[3], Some("abcdef01 ".to_string()));
    assert_eq!(prefixes[4], Some("++++++++ ".to_string()));
}

#[test]
fn boundaries_are_no_candidates() {
    let mut annotator = DiffAnnotator::new(None, None, Some("%s".to_string())).unwrap();
    let lines = to_lines("--- a/f\n@@ -1,5 +1,5 @@\n a\n b\n c\n d\n e");
    let listing = "^abcde 1\n000000 2\nabcdef 3\n0 4\nabcdef 5";
    let text = annotator.simple_diff(&lines, &vec![listing.to_string()]).unwrap();
    assert_eq!(
        text,
        "--- a/f\n@@ -1,5 +1,5 @@\n······  a\n······  b\nabcdef  c\n······  d\nabcdef  e\n"
    );
    assert_eq!(annotator.candidates(), &vec!["abcdef".to_string()]);
    match annotator.show_query() {
        Some(Query::Show { revs, .. }) => assert_eq!(revs, vec!["abcdef".to_string()]),
        other => panic!("{:?}", other),
    }
}

#[test]
fn annotation_can_be_done_again() {
    let lines = to_lines(PATCH);
    let blames = patch_blames(FIRST, SECOND);
    let mut first = DiffAnnotator::new(None, None, None).unwrap();
    let prefixes = first.annotate_lines(&lines, &blames).unwrap();
    let text = pair_lines(&prefixes, &lines);
    let stripped: Vec<String> = text
        .lines()
        .zip(prefixes.iter())
        .map(|(line, prefix)| match prefix {
            Some(p) => line[p.len()..].to_string(),
            None => line.to_string(),
        })
        .collect();
    assert_eq!(stripped, lines);
    let mut second = DiffAnnotator::new(None, None, None).unwrap();
    assert_eq!(second.annotate_lines(&stripped, &blames).unwrap(), prefixes);
}

#[test]
fn identity_filter_changes_nothing() {
    let lines = to_lines(PATCH);
    let blames = patch_blames(FIRST, SECOND);
    let mut direct = DiffAnnotator::new(None, None, None).unwrap();
    let mut wrapping = DiffAnnotator::new(Some(vec!["cat".to_string()]), None, None).unwrap();
    assert!(!direct.has_filter());
    assert!(wrapping.has_filter());
    assert_eq!(wrapping.inner(), &Some(vec!["cat".to_string()]));
    let plain = direct.annotate_diff(&lines, &Vec::new(), &blames, None).unwrap();
    let wrapped = wrapping.annotate_diff(&lines, &lines, &blames, None).unwrap();
    assert_eq!(plain, wrapped);
    assert_eq!(plain.0, ANNOTATED);
}

#[test]
fn fields_and_lines_pair_as_far_as_both_reach() {
    let prefixes = vec![Some("aaaaaa ".to_string()), None, Some("bbbbbb ".to_string())];
    let lines = vec!["one".to_string(), "two".to_string()];
    assert_eq!(pair_lines(&prefixes, &lines), "aaaaaa one\ntwo\n");
    let more = vec!["one".to_string(), "two".to_string(), "three".to_string(), "four".to_string()];
    assert_eq!(pair_lines(&prefixes, &more), "aaaaaa one\ntwo\nbbbbbb three\n");
    assert_eq!(render_line(&None, "plain"), "plain\n");
    assert_eq!(render_line(&Some("?????? ".to_string()), "-x"), "?????? -x\n");
}

#[test]
fn new_takes_its_configuration_as_given() {
    let annotator = DiffAnnotator::new(Some(Vec::new()), None, Some("%s".to_string())).unwrap();
    assert_eq!(annotator.inner(), &Some(Vec::new()));
    assert_eq!(annotator.format(), &Some("%s".to_string()));
    assert_eq!(annotator.rev(), "HEAD");
    assert_eq!(annotator.file(), &None);
    assert_eq!(annotator.candidates(), &Vec::<String>::new());
    assert_eq!((annotator.start(), annotator.end(), annotator.offset()), (0, 0, 0));
    assert_eq!(annotator.width(), 6);
    assert!(annotator.rev_query().is_none());
    assert!(annotator.show_query().is_none());
}

#[test]
fn malformed_hunk_header_ends_the_run() {
    let mut annotator = DiffAnnotator::new(None, None, None).unwrap();
    let lines = to_lines("--- a/f\n@@ -1 +1 @@\n a");
    assert_eq!(annotator.simple_diff(&lines, &Vec::new()), Err(AnnotateError::MalformedHunk));
    let mut annotator = DiffAnnotator::new(None, None, None).unwrap();
    assert!(matches!(
        annotator.process_line("@@ -one,2 +1,2 @@"),
        Err(AnnotateError::MalformedHunk)
    ));
}

#[test]
fn cursor_moves_past_the_hunk_without_an_error() {
    let mut annotator = DiffAnnotator::new(None, None, None).unwrap();
    let lines = to_lines("@@ -4294967294,1 +1,1 @@\n a\n b\n c");
    let prefixes = annotator.annotate_lines(&lines, &Vec::new()).unwrap();
    assert_eq!(prefixes[1], Some("?????? ".to_string()));
    assert_eq!(prefixes[3], Some("?????? ".to_string()));
    assert_eq!(annotator.end(), 4294967295);
    assert_eq!(annotator.offset(), 4294967297);
}

#[test]
fn parse_hunk_changes_the_start_alone() {
    let mut annotator = DiffAnnotator::new(None, None, None).unwrap();
    annotator.process_line("--- a/f").unwrap();
    annotator.process_line("@@ -3,4 +3,4 @@").unwrap();
    annotator.blame_hunk("abcdef01 3\nabcdef01 4").unwrap();
    annotator.process_line(" x").unwrap();
    assert_eq!(annotator.parse_hunk("@@ -36,7 +36,7 @@"), Ok(43));
    assert_eq!(annotator.start(), 36);
    assert_eq!(annotator.end(), 7);
    assert_eq!(annotator.offset(), 4);
    assert_eq!(annotator.width(), 8);
    assert_eq!(annotator.file(), &Some("f".to_string()));
    assert_eq!(annotator.candidates(), &vec!["abcdef01".to_string()]);
    assert_eq!(annotator.lookup_commit(), None);
}

#[test]
fn lines_of_a_hunk_are_taken_by_their_first_character() {
    let mut annotator = DiffAnnotator::new(None, None, None).unwrap();
    let lines = to_lines(
        "--- a/f\n+++ b/f\n@@ -1,3 +1,3 @@\n--- a/x\n+++ b/x\n @@ -1,2 +1,2 @@\n--- y\n+z\n--- a/g\n+++ b/g\n@@ -5,1 +5,1 @@\n q",
    );
    let blames = vec!["aaaaaa 1\nbbbbbb 2\ncccccc 3".to_string(), "dddddd 5".to_string()];
    let text = annotator.simple_diff(&lines, &blames).unwrap();
    assert_eq!(
        text,
        "--- a/f\n+++ b/f\n@@ -1,3 +1,3 @@\naaaaaa --- a/x\n++++++ +++ b/x\nbbbbbb  @@ -1,2 +1,2 @@\ncccccc --- y\n++++++ +z\n--- a/g\n+++ b/g\n@@ -5,1 +5,1 @@\ndddddd  q\n"
    );
    assert_eq!(annotator.file(), &Some("g".to_string()));
}

#[test]
fn removed_line_that_reads_like_a_marker_keeps_the_file() {
    let mut annotator = DiffAnnotator::new(None, None, None).unwrap();
    annotator.process_line("--- a/f").unwrap();
    annotator.process_line("@@ -1,2 +1,1 @@").unwrap();
    annotator.blame_hunk("abcdef 1\nabcdef 2").unwrap();
    match annotator.process_line("--- a/x") {
        Ok(LineStep::Prefix(Some(p))) => assert_eq!(p, "abcdef "),
        other => panic!("{:?}", other),
    }
    assert_eq!(annotator.offset(), 2);
    assert_eq!(annotator.file(), &Some("f".to_string()));
}

#[test]
fn a_failing_run_has_written_the_lines_before_the_failure() {
    let lines = to_lines("--- a/f\n@@ -1,1 +1,1 @@\n a\n@@ -9 +9 @@\n b");
    let blames = vec!["abcdef 1".to_string()];
    let mut annotator = DiffAnnotator::new(None, None, None).unwrap();
    let mut writer = "kept\n".to_string();
    assert_eq!(
        annotator.simple_diff_into(&lines, &blames, &mut writer),
        Err(AnnotateError::MalformedHunk)
    );
    assert_eq!(writer, "kept\n--- a/f\n@@ -1,1 +1,1 @@\nabcdef  a\n");
    let mut annotator = DiffAnnotator::new(None, None, None).unwrap();
    let mut prefixes = vec![Some("x ".to_string())];
    assert_eq!(
        annotator.annotate_lines_into(&lines, &Vec::new(), &mut prefixes),
        Err(AnnotateError::Backend)
    );
    assert_eq!(prefixes, vec![Some("x ".to_string()), None]);
    let mut annotator = DiffAnnotator::new(Some(vec!["cat".to_string()]), None, None).unwrap();
    let mut writer = String::new();
    assert_eq!(
        annotator.wrapping_diff_into(&lines, &lines, &blames, &mut writer),
        Err(AnnotateError::MalformedHunk)
    );
    assert_eq!(writer, "--- a/f\n@@ -1,1 +1,1 @@\nabcdef  a\n");
    let mut annotator = DiffAnnotator::new(None, None, Some("%s".to_string())).unwrap();
    let (mut writer, mut cand_writer) = (String::new(), String::new());
    let whole = to_lines("--- a/f\n@@ -1,1 +1,1 @@\n a");
    assert_eq!(
        annotator.annotate_diff_into(&whole, &Vec::new(), &blames, None, &mut writer, &mut cand_writer),
        Err(AnnotateError::Backend)
    );
    assert_eq!(writer, "--- a/f\n@@ -1,1 +1,1 @@\nabcdef  a\n");
    assert_eq!(cand_writer, "");
    let mut annotator = DiffAnnotator::new(None, None, Some("%s".to_string())).unwrap();
    let (mut writer, mut cand_writer) = (String::new(), "legend:\n".to_string());
    assert_eq!(
        annotator.annotate_diff_into(
            &whole,
            &Vec::new(),
            &blames,
            Some("5 abcdef fix  two  spaces"),
            &mut writer,
            &mut cand_writer
        ),
        Ok(())
    );
    assert_eq!(writer, "--- a/f\n@@ -1,1 +1,1 @@\nabcdef  a\n");
    assert_eq!(cand_writer, "legend:\nabcdef fix  two  spaces\n");
}

#[test]
fn blame_listing_with_an_empty_line_ends_the_run() {
    let mut annotator = DiffAnnotator::new(None, None, None).unwrap();
    let lines = to_lines("--- a/f\n@@ -1,2 +1,2 @@\n a");
    assert_eq!(
        annotator.simple_diff(&lines, &vec!["abcdef 1\n\nabcdef 2".to_string()]),
        Err(AnnotateError::MalformedBlame)
    );
    assert_eq!(
        annotator.blame_hunk("abcdef 1\n   \nabcdef 2"),
        Err(AnnotateError::MalformedBlame)
    );
    assert_eq!(annotator.blame_hunk("abcdef 1\n   \n"), Ok(()));
    assert_eq!(annotator.blame_hunk(""), Ok(()));
}

#[test]
fn missing_answers_end_the_run() {
    let mut annotator = DiffAnnotator::new(None, None, None).unwrap();
    let lines = to_lines("--- a/f\n@@ -1,2 +1,2 @@\n a");
    assert_eq!(annotator.simple_diff(&lines, &Vec::new()), Err(AnnotateError::Backend));
    let mut annotator = DiffAnnotator::new(None, None, Some("%s".to_string())).unwrap();
    let blames = vec!["abcdef 1".to_string()];
    assert_eq!(
        annotator.annotate_diff(&lines, &Vec::new(), &blames, None),
        Err(AnnotateError::Backend)
    );
}

#[test]
fn error_messages() {
    assert_eq!(AnnotateError::MalformedHunk.message(), "malformed hunk header");
    assert_eq!(AnnotateError::MalformedBlame.message(), "blame listing: line without a revision");
    assert_eq!(AnnotateError::Backend.message(), "backend query failed");
}

#[test]
fn blame_listing_is_taken_without_surrounding_whitespace() {
    let mut annotator = DiffAnnotator::new(None, None, None).unwrap();
    assert_eq!(annotator.blame_hunk("\n\nabcdef0 1\nabcdef1 2\n\n"), Ok(()));
    assert_eq!(annotator.width(), 7);
    assert_eq!(annotator.lookup_commit(), Some("abcdef0".to_string()));
}

#[test]
fn no_candidate_no_summary() {
    let mut annotator = DiffAnnotator::new(None, None, Some("%h %s".to_string())).unwrap();
    assert_eq!(
        annotator.annotate_diff(&Vec::new(), &Vec::new(), &Vec::new(), None),
        Ok((String::new(), String::new()))
    );
    assert!(annotator.show_query().is_none());
    let mut annotator = DiffAnnotator::new(None, None, Some("%h %s".to_string())).unwrap();
    let lines = to_lines("--- a/f\n@@ -1,1 +1,2 @@\n a\n+b");
    let shown = "5 abcdef what the backend shows when it is asked about nothing";
    assert_eq!(
        annotator.annotate_diff(&lines, &Vec::new(), &vec!["^abcde 1".to_string()], Some(shown)),
        Ok(("--- a/f\n@@ -1,1 +1,2 @@\n······  a\n++++++ +b\n".to_string(), String::new()))
    );
}

#[test]
fn summary_keeps_the_text_behind_the_time() {
    let mut annotator = DiffAnnotator::new(None, None, Some("%h %s".to_string())).unwrap();
    let lines = to_lines("--- a/f\n+++ b/f\n@@ -1,1 +1,1 @@\n x");
    let result = annotator.annotate_diff(
        &lines,
        &Vec::new(),
        &vec!["abcdef 1".to_string()],
        Some("5 abcdef fix  two  spaces"),
    );
    assert_eq!(
        result,
        Ok((
            "--- a/f\n+++ b/f\n@@ -1,1 +1,1 @@\nabcdef  x\n".to_string(),
            "abcdef fix  two  spaces\n".to_string()
        ))
    );
}
