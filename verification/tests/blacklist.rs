use e621_downloader::blacklist::{Blacklist, BlacklistParser, Rating, ScoreOrdering, TagType};
use e621_downloader::entries::{PostEntry, Score, Tags};
use e621_downloader::parser::ParseErrorKind;

fn post(id: i64, rating: &str, general: &[&str]) -> PostEntry {
    PostEntry {
        id,
        rating: rating.to_string(),
        tags: Tags { general: general.iter().map(|s| s.to_string()).collect(), ..Default::default() },
        ..Default::default()
    }
}

fn ids(posts: &[PostEntry]) -> Vec<i64> {
    posts.iter().map(|p| p.id).collect()
}

fn blacklist(text: &str) -> Blacklist {
    let mut b = Blacklist::new();
    b.parse_blacklist(text.to_string()).unwrap();
    b
}

#[test]
fn parses_lines_and_special_tags() {
    let mut parser = BlacklistParser::new("rating:s\n-cat dog\nscore:<5 id:12".to_string());
    let root = parser.parse_blacklist().unwrap();
    assert_eq!(root.lines.len(), 3);
    let first = &root.lines[0].tags;
    assert_eq!(first.len(), 1);
    assert!(matches!(first[0].tag_type, TagType::Rating(Rating::Safe)));
    assert_eq!(first[0].name, "rating");
    let second = &root.lines[1].tags;
    assert_eq!(second.len(), 2);
    assert!(second[0].negated);
    assert_eq!(second[0].name, "cat");
    assert!(!second[1].negated);
    assert_eq!(second[1].name, "dog");
    let third = &root.lines[2].tags;
    assert!(matches!(third[0].tag_type, TagType::Score(ScoreOrdering::Less, 5)));
    assert!(matches!(third[1].tag_type, TagType::Id(Some(12))));
}

#[test]
fn tag_names_are_lowercased_and_ratings_read_in_full() {
    let mut parser = BlacklistParser::new("Cat rating:Explicit rating:q".to_string());
    let root = parser.parse_blacklist().unwrap();
    let tags = &root.lines[0].tags;
    assert_eq!(tags[0].name, "cat");
    assert!(matches!(tags[1].tag_type, TagType::Rating(Rating::Explicit)));
    assert!(matches!(tags[2].tag_type, TagType::Rating(Rating::Questionable)));
}

#[test]
fn unknown_special_tag_is_an_error() {
    let mut parser = BlacklistParser::new("foo:bar".to_string());
    let err = parser.parse_blacklist().unwrap_err();
    assert_eq!(err.kind, ParseErrorKind::UnknownSpecialTag);
    assert_eq!(err.detail, "foo");
    assert_eq!(err.pos, 4);
}

#[test]
fn error_reports_its_column() {
    let mut parser = BlacklistParser::new("cat\nfoo:bar".to_string());
    let err = parser.parse_blacklist().unwrap_err();
    assert_eq!(err.kind, ParseErrorKind::UnknownSpecialTag);
    assert_eq!(err.detail, "foo");
    assert_eq!(err.pos, 8);
    assert_eq!(err.column, 1);
}

#[test]
fn score_without_digits_is_an_error() {
    let mut parser = BlacklistParser::new("score:<".to_string());
    let err = parser.parse_blacklist().unwrap_err();
    assert_eq!(err.kind, ParseErrorKind::InvalidScore);
    assert_eq!(err.detail, "");
}

#[test]
fn rating_line_filters_matching_posts() {
    let b = blacklist("rating:s");
    let mut posts = vec![post(1, "s", &[]), post(2, "e", &[]), post(3, "s", &[])];
    let removed = b.filter_posts(&mut posts);
    assert_eq!(removed, 2);
    assert_eq!(ids(&posts), vec![2]);
}

#[test]
fn every_tag_of_a_line_must_match() {
    let b = blacklist("cat dog");
    let mut posts = vec![post(1, "s", &["cat"]), post(2, "s", &["cat", "dog"]), post(3, "s", &["dog"])];
    assert_eq!(b.filter_posts(&mut posts), 1);
    assert_eq!(ids(&posts), vec![1, 3]);
}

#[test]
fn negated_tag_spares_posts_that_have_it() {
    let b = blacklist("cat -dog");
    let mut posts = vec![post(1, "s", &["cat"]), post(2, "s", &["cat", "dog"]), post(3, "s", &["bird"])];
    assert_eq!(b.filter_posts(&mut posts), 1);
    assert_eq!(ids(&posts), vec![2, 3]);
}

#[test]
fn score_and_id_lines() {
    let b = blacklist("score:<0\nid:7");
    let mut low = post(1, "s", &[]);
    low.score = Score { up: 0, down: 3, total: -3 };
    let mut high = post(2, "s", &[]);
    high.score = Score { up: 5, down: 0, total: 5 };
    let mut posts = vec![low, high, post(7, "s", &[])];
    assert_eq!(b.filter_posts(&mut posts), 2);
    assert_eq!(ids(&posts), vec![2]);
}

#[test]
fn any_line_blacklists() {
    let b = blacklist("cat\ndog");
    let mut posts = vec![post(1, "s", &["cat"]), post(2, "s", &["dog"]), post(3, "s", &["bird"])];
    assert_eq!(b.filter_posts(&mut posts), 2);
    assert_eq!(ids(&posts), vec![3]);
}

#[test]
fn filtering_twice_removes_nothing_more() {
    let b = blacklist("cat\nrating:e");
    let mut posts = vec![post(1, "e", &[]), post(2, "s", &["cat"]), post(3, "s", &["dog"]), post(4, "q", &[])];
    assert_eq!(b.filter_posts(&mut posts), 2);
    let once = ids(&posts);
    assert_eq!(b.filter_posts(&mut posts), 0);
    assert_eq!(ids(&posts), once);
    assert_eq!(b.count_blacklisted(&posts), 0);
}

#[test]
fn counting_matches_filtering() {
    let b = blacklist("cat");
    let posts = vec![post(1, "s", &["cat"]), post(2, "s", &["dog"]), post(3, "s", &["cat"])];
    assert_eq!(b.count_blacklisted(&posts), 2);
    assert!(b.is_blacklisted(&posts[0]));
    assert!(!b.is_blacklisted(&posts[1]));
}

#[test]
fn user_tags_are_cached_as_ids() {
    let mut b = blacklist("user:Bob");
    assert!(!b.is_checkable());
    let users = b.users_to_cache();
    assert_eq!(users.len(), 1);
    assert_eq!(users[0].name, "Bob");
    assert_eq!((users[0].line, users[0].tag), (0, 0));
    b.cache_users(&users, &vec![42]);
    assert!(b.is_checkable());
    let mut by_bob = post(1, "s", &[]);
    by_bob.uploader_id = 42;
    let mut posts = vec![by_bob, post(2, "s", &[])];
    assert_eq!(b.filter_posts(&mut posts), 1);
    assert_eq!(ids(&posts), vec![2]);
}

#[test]
fn empty_blacklist() {
    let b = Blacklist::new();
    assert!(b.is_empty());
    assert!(b.is_checkable());
    let parsed = blacklist("   \n  ");
    assert!(parsed.is_empty());
    let mut posts = vec![post(1, "e", &["cat"])];
    assert_eq!(parsed.filter_posts(&mut posts), 0);
    assert_eq!(posts.len(), 1);
}

#[test]
fn failed_parse_keeps_previous_lines() {
    let mut b = blacklist("cat");
    assert!(b.parse_blacklist("bad:tag".to_string()).is_err());
    let mut posts = vec![post(1, "s", &["cat"])];
    assert_eq!(b.filter_posts(&mut posts), 1);
}

#[test]
fn letters_beyond_ascii_belong_to_tags() {
    let mut parser = BlacklistParser::new("Café cat".to_string());
    let root = parser.parse_blacklist().unwrap();
    let names: Vec<&str> = root.lines[0].tags.iter().map(|t| t.name.as_str()).collect();
    assert_eq!(names, vec!["café", "cat"]);
}

#[test]
fn any_matching_negated_tag_spares_the_post() {
    let b = blacklist("dog -cat -bird");
    let mut posts = vec![
        post(1, "s", &["dog", "cat"]),
        post(2, "s", &["dog"]),
        post(3, "s", &["dog", "bird", "cat"]),
        post(4, "s", &["cat"]),
    ];
    assert_eq!(b.filter_posts(&mut posts), 1);
    assert_eq!(ids(&posts), vec![1, 3, 4]);
}

#[test]
fn negated_scores_are_ignored() {
    let b = blacklist("dog -score:<0");
    let mut low = post(1, "s", &["dog"]);
    low.score = Score { up: 0, down: 9, total: -9 };
    let mut posts = vec![low];
    assert_eq!(b.filter_posts(&mut posts), 1);
}

#[test]
fn a_newline_ends_a_line_after_trailing_whitespace() {
    let mut parser = BlacklistParser::new("dog cat\r\nbird".to_string());
    let root = parser.parse_blacklist().unwrap();
    assert_eq!(root.lines.len(), 2);
    assert_eq!(root.lines[0].tags.len(), 2);
    assert_eq!(root.lines[1].tags[0].name, "bird");
    let mut parser = BlacklistParser::new("dog cat \t\n\n  bird".to_string());
    let root = parser.parse_blacklist().unwrap();
    assert_eq!(root.lines.len(), 2);
}

#[test]
fn text_ending_beyond_ascii_is_read() {
    let mut parser = BlacklistParser::new("rating:s café".to_string());
    let root = parser.parse_blacklist().unwrap();
    assert_eq!(root.lines[0].tags[1].name, "café");
    let mut parser = BlacklistParser::new("€".to_string());
    assert_eq!(parser.parse_blacklist().unwrap_err().kind, ParseErrorKind::NoProgress);
}
