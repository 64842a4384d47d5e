use e621_downloader::connector::{blacklist_text, get_total_file_size, remove_invalid_chars};
use e621_downloader::entries::{File, PostEntry, Tags, TagEntry, ToTagType, UserEntry};
use e621_downloader::grabber::Grabber;
use e621_downloader::io::{Config, ConfigError, Login};
use e621_downloader::program::Program;
use e621_downloader::sender::{classify_status, RequestFailure, RequestSender};
use e621_downloader::tag::{Tag, TagSearchType, TagType};
use e621_downloader::web::{CreatedAt, EWeb, Post};

fn pairs(q: &[(String, String)]) -> Vec<(&str, &str)> {
    q.iter().map(|(a, b)| (a.as_str(), b.as_str())).collect()
}

#[test]
fn credentials_are_base64_url_encoded() {
    let sender = RequestSender::new(&Login::new("user".to_string(), "key".to_string(), true));
    assert_eq!(sender.auth(), "dXNlcjprZXk");
    assert!(sender.is_authenticated());
    assert_eq!(sender.authorization(), Some("dXNlcjprZXk".to_string()));
    let other = RequestSender::new(&Login::new("a>b?".to_string(), "~~~".to_string(), false));
    assert_eq!(other.auth(), "YT5iPzp-fn4");
}

#[test]
fn no_credentials_without_user_or_key() {
    let sender = RequestSender::new(&Login::new("user".to_string(), String::new(), true));
    assert_eq!(sender.auth(), "");
    assert!(!sender.is_authenticated());
    assert_eq!(sender.authorization(), None);
}

#[test]
fn urls_by_name_and_safe_mode() {
    let mut sender = RequestSender::new(&Login::default());
    assert_eq!(sender.url("posts"), Some("https://e621.net/posts.json".to_string()));
    assert_eq!(sender.url("alias"), Some("https://e621.net/tag_aliases.json".to_string()));
    assert_eq!(sender.url("nothing"), None);
    sender.update_to_safe();
    assert_eq!(sender.url("posts"), Some("https://e926.net/posts.json".to_string()));
    assert_eq!(sender.url("tag_bulk"), Some("https://e926.net/tags.json".to_string()));
    sender.update_to_safe();
    assert_eq!(sender.url("user"), Some("https://e926.net/users/".to_string()));
    assert_eq!(RequestSender::initialize_url_map().len(), 9);
}

#[test]
fn appended_urls_end_in_json() {
    let sender = RequestSender::new(&Login::default());
    assert_eq!(sender.append_url("https://e621.net/pools/", "12"), "https://e621.net/pools/12.json");
}

#[test]
fn bulk_search_asks_for_full_pages() {
    let sender = RequestSender::new(&Login::default());
    let q = sender.bulk_search_query("cat dog", 3);
    assert_eq!(pairs(&q), vec![("tags", "cat dog"), ("page", "3"), ("limit", "320")]);
}

#[test]
fn status_codes() {
    assert_eq!(classify_status(500), RequestFailure::ServerInternal);
    assert_eq!(classify_status(503), RequestFailure::RateLimited);
    assert_eq!(classify_status(403), RequestFailure::Forbidden);
    assert_eq!(classify_status(421), RequestFailure::Throttled);
    assert_eq!(classify_status(404), RequestFailure::Other);
}

#[test]
fn naming_convention_is_lowercased_and_checked() {
    let c = Config::from_parts("dl/".to_string(), "MD5".to_string()).unwrap();
    assert_eq!((c.download_directory(), c.naming_convention()), ("dl/", "md5"));
    let c = Config::from_parts("dl/".to_string(), "Id".to_string()).unwrap();
    assert_eq!(c.naming_convention(), "id");
    match Config::from_parts("dl/".to_string(), "Name".to_string()) {
        Err(ConfigError::UnknownNamingConvention(n)) => assert_eq!(n, "name"),
        Ok(_) => panic!("accepted an unknown convention"),
    }
    let d = Config::default();
    assert_eq!((d.download_directory(), d.naming_convention()), ("downloads/", "md5"));
    assert_eq!(d.duplicate().download_directory(), "downloads/");
}

#[test]
fn login_is_empty_without_user_or_key() {
    let d = Login::default();
    assert!(d.is_empty());
    assert!(d.download_favorites());
    let l = Login::new("u".to_string(), "k".to_string(), false);
    assert!(!l.is_empty());
    assert_eq!((l.username(), l.api_key(), l.download_favorites()), ("u", "k", false));
    assert!(Login::new(String::new(), "k".to_string(), true).is_empty());
}

#[test]
fn invalid_path_characters_are_replaced() {
    assert_eq!(remove_invalid_chars("a?b:c*d<e>f\"g|h/i"), "a_b_c_d_e_f_g_h/i");
    assert_eq!(remove_invalid_chars(""), "");
}

#[test]
fn blacklist_text_only_when_not_empty() {
    let mut user = UserEntry::default();
    assert_eq!(blacklist_text(&user), None);
    user.blacklisted_tags = Some(String::new());
    assert_eq!(blacklist_text(&user), None);
    user.blacklisted_tags = Some("rating:e".to_string());
    assert_eq!(blacklist_text(&user), Some("rating:e".to_string()));
}

#[test]
fn total_file_size_adds_every_collection() {
    let config = Config::default();
    let mut g = Grabber::new(RequestSender::new(&Login::default()), false, &config);
    assert_eq!(get_total_file_size(&g), 0);
    let post = |id: i64, size: i64| PostEntry {
        id,
        rating: "s".to_string(),
        file: File { size, url: Some("u".to_string()), ..Default::default() },
        ..Default::default()
    };
    g.grab_post(post(1, 100));
    g.grab_general(&Tag::new("t", TagSearchType::General, TagType::General), vec![post(2, 20), post(3, 3)]);
    assert_eq!(get_total_file_size(&g), 123);
}

#[test]
fn tag_entries_convert_to_tag_types() {
    let artist = TagEntry { category: 1, ..Default::default() };
    assert_eq!(artist.to_tag_type(), TagType::Artist);
    for category in [0u8, 3, 4, 5, 6, 7, 8] {
        assert_eq!(TagEntry { category, ..Default::default() }.to_tag_type(), TagType::General);
    }
}

#[test]
fn tags_are_combined_in_category_order() {
    let mut tags = Tags {
        general: vec!["g".to_string()],
        species: vec!["s".to_string()],
        character: vec!["c".to_string()],
        copyright: vec!["cr".to_string()],
        artist: vec!["a".to_string()],
        invalid: vec!["i".to_string()],
        lore: vec!["l".to_string()],
        meta: vec!["m".to_string()],
    };
    assert_eq!(tags.get_total_tags_len(), 8);
    assert!(tags.has_tag("cr"));
    assert!(!tags.has_tag("x"));
    let all = tags.combine_tags();
    assert_eq!(all, vec!["g", "s", "c", "cr", "a", "i", "l", "m"]);
    assert_eq!(tags.get_total_tags_len(), 0);
}

fn web_post(id: i64) -> Post {
    Post {
        id,
        tags: "cat dog".to_string(),
        locked_tags: None,
        description: String::new(),
        created_at: CreatedAt { json_class: "Time".to_string(), s: 0, n: 0 },
        creator_id: 1,
        author: "someone".to_string(),
        change: 0,
        source: None,
        score: 0,
        fav_count: 0,
        md5: None,
        file_size: None,
        file_url: String::new(),
        file_ext: None,
        preview_url: String::new(),
        preview_width: None,
        preview_height: None,
        sample_url: None,
        sample_width: None,
        sample_height: None,
        rating: "s".to_string(),
        status: "active".to_string(),
        width: 1,
        height: 1,
        has_comments: false,
        has_notes: false,
        has_children: None,
        children: None,
        parent_id: None,
        artist: vec![],
        sources: None,
    }
}

#[test]
fn first_api_connector() {
    let config = Config::default();
    let mut web = EWeb::new(&config);
    assert_eq!(web.url, "https://e621.net/post/index.json");
    web.set_safe();
    assert_eq!(web.url, "https://e926.net/post/index.json");
    let tags = vec![
        Tag::new("cat", TagSearchType::General, TagType::General),
        Tag::new("dog", TagSearchType::General, TagType::General),
    ];
    let mut search = web.get_posts(&tags, "2020-01-01");
    assert_eq!(
        pairs(&search.query()),
        vec![("tags", "cat dog date:>=2020-01-01"), ("page", "1"), ("limit", "1000")]
    );
    assert_eq!(search.receive(vec![web_post(1)]), Some(true));
    assert_eq!(pairs(&search.query())[1], ("page", "2"));
    assert_eq!(search.receive(vec![]), Some(false));
    assert!(search.is_done());
    assert_eq!(search.into_posts().len(), 1);
}

#[test]
fn program_is_made() {
    let _program = Program::new();
}

#[test]
fn combining_twice_gives_nothing() {
    let mut tags = Tags { general: vec!["g".to_string()], meta: vec!["m".to_string()], ..Default::default() };
    assert_eq!(tags.combine_tags(), vec!["g", "m"]);
    assert!(tags.combine_tags().is_empty());
}

#[test]
fn authenticated_exactly_with_user_and_key() {
    for (u, k) in [("u", "k"), ("", "k"), ("u", ""), ("", "")] {
        let login = Login::new(u.to_string(), k.to_string(), true);
        assert_eq!(RequestSender::new(&login).is_authenticated(), !login.is_empty());
    }
}
