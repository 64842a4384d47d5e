use e621_downloader::entries::{AliasEntry, TagEntry};
use e621_downloader::parser::ParseErrorKind;
use e621_downloader::tag::{
    create_tag, parse_tag_file, trim_dashes, IdPhase, IdRequest, IdStep, Tag, TagIdentifier,
    TagSearchType, TagType,
};

fn entry(category: u8, post_count: i64) -> TagEntry {
    TagEntry { category, post_count, ..Default::default() }
}

fn fetch_tags(step: &IdStep) -> String {
    match step {
        IdStep::Fetch(IdRequest::TagsByName(n)) => n.clone(),
        other => panic!("expected a tag lookup, got {:?}", other),
    }
}

fn identified(step: IdStep) -> Tag {
    match step {
        IdStep::Identified(t) => t,
        other => panic!("expected a tag, got {:?}", other),
    }
}

const TAG_FILE: &str = "# The tags to download.\n\
[artists]\n\
somebody # a comment\n\
[pools]\n\
12345\n\
[sets]\n\
678\n\
[single-post]\n\
999\n\
[general]\n\
cat dog\n";

#[test]
fn parses_groups_and_tags() {
    let groups = parse_tag_file(TAG_FILE.to_string()).unwrap();
    let names: Vec<&str> = groups.iter().map(|g| g.name()).collect();
    assert_eq!(names, vec!["artists", "pools", "sets", "single-post", "general"]);

    let artist = &groups[0].tags()[0];
    assert_eq!(artist.name(), "somebody");
    assert_eq!(*artist.search_type(), TagSearchType::NoSearch);
    assert!(artist.needs_identification());

    let pool = &groups[1].tags()[0];
    assert_eq!((pool.name(), *pool.search_type(), *pool.tag_type()), ("12345", TagSearchType::Special, TagType::Pool));
    let set = &groups[2].tags()[0];
    assert_eq!((set.name(), *set.tag_type()), ("678", TagType::PostSet));
    let single = &groups[3].tags()[0];
    assert_eq!((single.name(), *single.tag_type()), ("999", TagType::Post));
    let general = &groups[4].tags()[0];
    assert_eq!(general.name(), "cat dog");
    assert_eq!(groups[4].tags().len(), 1);
}

#[test]
fn empty_file_has_no_groups() {
    assert_eq!(parse_tag_file("  \n # only a comment\n".to_string()).unwrap().len(), 0);
    assert_eq!(parse_tag_file(String::new()).unwrap().len(), 0);
}

#[test]
fn tags_outside_groups_are_an_error() {
    let err = parse_tag_file("hello".to_string()).unwrap_err();
    assert_eq!(err.kind, ParseErrorKind::TagsMustBeInGroups);
    assert_eq!(err.pos, 0);
}

#[test]
fn unknown_group_is_an_error() {
    let err = parse_tag_file("[friends]\n123".to_string()).unwrap_err();
    assert_eq!(err.kind, ParseErrorKind::UnknownTagType);
}

#[test]
fn unclosed_group_is_an_error() {
    let err = parse_tag_file("[pools\n1".to_string()).unwrap_err();
    assert_eq!(err.kind, ParseErrorKind::UnclosedGroup);
}

#[test]
fn id_group_with_a_word_cannot_advance() {
    let err = parse_tag_file("[pools]\nabc".to_string()).unwrap_err();
    assert_eq!(err.kind, ParseErrorKind::NoProgress);
}

#[test]
fn group_without_tags() {
    let groups = parse_tag_file("[pools]\n[sets]\n5".to_string()).unwrap();
    assert_eq!(groups.len(), 2);
    assert_eq!(groups[0].tags().len(), 0);
    assert_eq!(groups[1].tags()[0].name(), "5");
}

#[test]
fn artists_are_special() {
    let t = create_tag("someone", &entry(1, 10));
    assert_eq!((t.name(), *t.search_type(), *t.tag_type()), ("someone", TagSearchType::Special, TagType::Artist));
}

#[test]
fn characters_with_few_posts_are_special() {
    let t = create_tag("hero", &entry(4, 1500));
    assert_eq!((*t.search_type(), *t.tag_type()), (TagSearchType::Special, TagType::General));
}

#[test]
fn characters_with_many_posts_are_general() {
    let t = create_tag("hero", &entry(4, 1501));
    assert_eq!((*t.search_type(), *t.tag_type()), (TagSearchType::General, TagType::General));
}

#[test]
fn general_copyright_and_species_are_general() {
    for category in [0u8, 3, 5, 6, 7, 8] {
        let t = create_tag("x", &entry(category, 10));
        assert_eq!((*t.search_type(), *t.tag_type()), (TagSearchType::General, TagType::General));
    }
}

#[test]
fn dashes_are_trimmed() {
    assert_eq!(trim_dashes("--cat"), "cat");
    assert_eq!(trim_dashes("cat-"), "cat-");
    assert_eq!(trim_dashes("---"), "");
}

#[test]
fn artist_line_is_identified_at_once() {
    let (mut id, step) = TagIdentifier::new("someone");
    assert_eq!(fetch_tags(&step), "someone");
    let t = identified(id.receive_tags(vec![entry(1, 3)]));
    assert_eq!((t.name(), *t.search_type(), *t.tag_type()), ("someone", TagSearchType::Special, TagType::Artist));
}

#[test]
fn first_special_word_decides_for_the_whole_line() {
    let (mut id, step) = TagIdentifier::new("-cat hero");
    assert_eq!(fetch_tags(&step), "cat");
    let step = id.receive_tags(vec![entry(0, 90000)]);
    assert_eq!(fetch_tags(&step), "hero");
    let t = identified(id.receive_tags(vec![entry(4, 20)]));
    assert_eq!((t.name(), *t.search_type(), *t.tag_type()), ("-cat hero", TagSearchType::Special, TagType::General));
}

#[test]
fn line_without_special_word_is_general() {
    let (mut id, _) = TagIdentifier::new("cat dog");
    let step = id.receive_tags(vec![entry(0, 5)]);
    assert_eq!(fetch_tags(&step), "dog");
    let t = identified(id.receive_tags(vec![entry(5, 5)]));
    assert_eq!((t.name(), *t.search_type(), *t.tag_type()), ("cat dog", TagSearchType::General, TagType::General));
}

#[test]
fn aliases_are_followed() {
    let (mut id, _) = TagIdentifier::new("old_name");
    let step = id.receive_tags(vec![]);
    assert!(matches!(&step, IdStep::Fetch(IdRequest::Aliases(n)) if n == "old_name"));
    assert_eq!(id.phase_waited(), IdPhase::Alias);
    let alias = AliasEntry { consequent_name: "new_name".to_string(), ..Default::default() };
    let step = id.receive_aliases(Some(vec![alias]));
    assert_eq!(fetch_tags(&step), "new_name");
    assert_eq!(id.phase_waited(), IdPhase::Consequent);
    let t = identified(id.receive_tags(vec![entry(1, 2)]));
    assert_eq!((t.name(), *t.search_type()), ("old_name", TagSearchType::Special));
}

#[test]
fn special_syntax_words_are_skipped() {
    let (mut id, _) = TagIdentifier::new("rating:s someone");
    let step = id.receive_tags(vec![]);
    assert!(matches!(step, IdStep::Fetch(IdRequest::Aliases(_))));
    let step = id.receive_aliases(None);
    assert_eq!(fetch_tags(&step), "someone");
    let t = identified(id.receive_tags(vec![entry(1, 2)]));
    assert_eq!(*t.tag_type(), TagType::Artist);
}

#[test]
fn unknown_words_are_invalid() {
    let (mut id, _) = TagIdentifier::new("nonsense");
    id.receive_tags(vec![]);
    match id.receive_aliases(None) {
        IdStep::Invalid(n) => assert_eq!(n, "nonsense"),
        other => panic!("expected an invalid tag, got {:?}", other),
    }
}

#[test]
fn empty_alias_list_means_no_alias() {
    let (mut id, _) = TagIdentifier::new("nonsense");
    id.receive_tags(vec![]);
    match id.receive_aliases(Some(vec![])) {
        IdStep::Invalid(n) => assert_eq!(n, "nonsense"),
        other => panic!("expected an invalid tag, got {:?}", other),
    }
    let (mut id, _) = TagIdentifier::new("order:score someone");
    id.receive_tags(vec![]);
    assert_eq!(fetch_tags(&id.receive_aliases(Some(vec![]))), "someone");
}

#[test]
fn tag_file_ending_beyond_ascii_is_read() {
    let groups = parse_tag_file("[artists]\nsomeone # café".to_string()).unwrap();
    assert_eq!(groups[0].tags()[0].name(), "someone");
    let groups = parse_tag_file("[general]\ncafé".to_string()).unwrap();
    assert_eq!(groups[0].tags()[0].name(), "café");
}
