use e621_downloader::blacklist::Blacklist;
use e621_downloader::entries::{File, Flags, PoolEntry, PostEntry, SetEntry, Tags};
use e621_downloader::grabber::{
    count_invalid_posts, remove_invalid_posts, sort_pool_by_id, GrabRequest, GrabbedPost, Grabber,
    PostCollection, PostOutcome, SearchError, SearchStep,
};
use e621_downloader::io::{Config, Login};
use e621_downloader::sender::RequestSender;
use e621_downloader::tag::{Tag, TagSearchType, TagType};

fn post(id: i64) -> PostEntry {
    PostEntry {
        id,
        rating: "s".to_string(),
        file: File {
            ext: "png".to_string(),
            md5: format!("md5of{}", id),
            size: 10 * id,
            url: Some(format!("https://static1.e621.net/{}.png", id)),
            ..Default::default()
        },
        ..Default::default()
    }
}

fn ids(posts: &[PostEntry]) -> Vec<i64> {
    posts.iter().map(|p| p.id).collect()
}

fn config(convention: &str) -> Config {
    Config::from_parts("downloads/".to_string(), convention.to_string()).unwrap()
}

fn grabber(authenticated: bool) -> Grabber {
    let login = if authenticated {
        Login::new("user".to_string(), "key".to_string(), true)
    } else {
        Login::default()
    };
    Grabber::new(RequestSender::new(&login), false, &config("md5"))
}

fn page(from: i64, count: i64) -> Vec<PostEntry> {
    (from..from + count).map(post).collect()
}

#[test]
fn file_names_follow_the_convention() {
    let p = post(42);
    let by_md5 = GrabbedPost::from_post(&p, "md5");
    assert_eq!(by_md5.name(), "md5of42.png");
    assert_eq!(by_md5.url(), "https://static1.e621.net/42.png");
    assert_eq!(by_md5.file_size(), 420);
    let by_id = GrabbedPost::from_post(&p, "id");
    assert_eq!(by_id.name(), "42.png");
    let negative = GrabbedPost::from_post(&post(-3), "id");
    assert_eq!(negative.name(), "-3.png");
}

#[test]
fn pool_pages_are_numbered_with_five_digits() {
    let p = post(1);
    assert_eq!(GrabbedPost::from_pool_post(&p, "My Pool", 3).name(), "My Pool Page_00003.png");
    assert_eq!(GrabbedPost::from_pool_post(&p, "P", 65535).name(), "P Page_65535.png");
    let all = GrabbedPost::new_pool_vec(page(1, 3), "Comic");
    let names: Vec<&str> = all.iter().map(|g| g.name()).collect();
    assert_eq!(names, vec!["Comic Page_00001.png", "Comic Page_00002.png", "Comic Page_00003.png"]);
}

#[test]
fn new_vec_keeps_order() {
    let all = GrabbedPost::new_vec(page(5, 2), "id");
    let names: Vec<&str> = all.iter().map(|g| g.name()).collect();
    assert_eq!(names, vec!["5.png", "6.png"]);
}

#[test]
fn long_names_are_shortened() {
    let c = PostCollection::new("abcdefghijklmnopqrstuvwxyz1234", "Pools", vec![]);
    assert_eq!(c.shorten_str("..."), "abcdefghijklmnopqrstuvwxy...");
    assert_eq!(c.shorten_char('_'), "abcdefghijklmnopqrstuvwxy_");
    let short = PostCollection::new("short", "", vec![]);
    assert_eq!(short.shorten_str("..."), "short");
    let exact = PostCollection::new("abcdefghijklmnopqrstuvwxy", "", vec![]);
    assert_eq!(exact.shorten_str("~"), "abcdefghijklmnopqrstuvwxy");
    let wide = PostCollection::new("ééééééééééééééééééééééééééé", "", vec![]);
    assert_eq!(wide.shorten_char('_'), "ééééééééééééééééééééééééé_");
}

#[test]
fn sets_are_their_own_category() {
    let set = SetEntry { name: "My Set".to_string(), shortname: "my_set".to_string(), ..Default::default() };
    let c = PostCollection::from_set(&set, vec![]);
    assert_eq!((c.name(), c.category()), ("My Set", "Sets"));
    assert_eq!(Grabber::set_search_tag(&set), "set:my_set");
}

#[test]
fn pool_is_sorted_by_its_ids() {
    let entry = PoolEntry { post_ids: vec![1, 2, 3], ..Default::default() };
    let mut posts = vec![post(3), post(1), post(2)];
    sort_pool_by_id(&entry, &mut posts);
    assert_eq!(ids(&posts), vec![1, 2, 3]);
    let entry = PoolEntry { post_ids: vec![9, 4], ..Default::default() };
    let mut posts = vec![post(4), post(7), post(9)];
    sort_pool_by_id(&entry, &mut posts);
    assert_eq!(ids(&posts), vec![9, 4, 7]);
}

#[test]
fn invalid_posts_are_removed() {
    let mut deleted = post(2);
    deleted.flags = Flags { deleted: true, ..Default::default() };
    let mut no_url = post(3);
    no_url.file.url = None;
    let mut posts = vec![post(1), deleted, no_url, post(4)];
    assert_eq!(count_invalid_posts(&posts), 2);
    assert_eq!(remove_invalid_posts(&mut posts), 2);
    assert_eq!(ids(&posts), vec![1, 4]);
}

#[test]
fn grabber_starts_with_single_posts() {
    let g = grabber(false);
    assert_eq!(g.posts().len(), 1);
    assert_eq!(g.posts()[0].name(), "Single Posts");
    assert_eq!(g.posts()[0].category(), "");
}

#[test]
fn general_search_asks_for_four_pages() {
    let g = grabber(false);
    let mut s = g.start_search("cat", TagSearchType::General);
    assert_eq!(s.next_step(), SearchStep::Fetch(1));
    assert_eq!(g.take_page(&mut s, page(1, 320)), Ok(SearchStep::Fetch(2)));
    assert_eq!(g.take_page(&mut s, page(1000, 320)), Ok(SearchStep::Fetch(3)));
    assert_eq!(g.take_page(&mut s, page(2000, 320)), Ok(SearchStep::Fetch(4)));
    assert_eq!(g.take_page(&mut s, page(3000, 320)), Ok(SearchStep::Done));
    assert_eq!(s.next_step(), SearchStep::Done);
    let posts = s.into_posts();
    assert_eq!(posts.len(), 1280);
    assert_eq!(posts[0].id, 320);
    assert_eq!(posts[319].id, 1);
}

#[test]
fn special_search_runs_until_an_empty_page() {
    let g = grabber(false);
    let mut s = g.start_search("someone", TagSearchType::Special);
    for n in 1..7u16 {
        assert_eq!(g.take_page(&mut s, page(n as i64 * 10, 2)), Ok(SearchStep::Fetch(n + 1)));
    }
    assert_eq!(g.take_page(&mut s, vec![]), Ok(SearchStep::Done));
    assert_eq!(s.into_posts().len(), 12);
}

#[test]
fn unidentified_tag_is_not_searched() {
    let g = grabber(false);
    let s = g.start_search("x", TagSearchType::NoSearch);
    assert_eq!(s.next_step(), SearchStep::Done);
}

#[test]
fn pages_are_filtered_only_when_authenticated() {
    let mut b = Blacklist::new();
    b.parse_blacklist("cat".to_string()).unwrap();
    let mut cat = post(1);
    cat.tags = Tags { general: vec!["cat".to_string()], ..Default::default() };
    let mut deleted = post(3);
    deleted.flags.deleted = true;

    let mut anonymous = grabber(false);
    anonymous.set_blacklist(b);
    let mut s = anonymous.start_search("t", TagSearchType::Special);
    assert_eq!(anonymous.take_page(&mut s, vec![cat.clone(), post(2), deleted.clone()]), Ok(SearchStep::Fetch(2)));
    assert_eq!((s.filtered(), s.invalid()), (0, 1));
    assert_eq!(ids(&s.into_posts()), vec![2, 1]);

    let mut b = Blacklist::new();
    b.parse_blacklist("cat".to_string()).unwrap();
    let mut user = grabber(true);
    user.set_blacklist(b);
    let mut s = user.start_search("t", TagSearchType::Special);
    assert_eq!(user.take_page(&mut s, vec![cat, post(2), deleted]), Ok(SearchStep::Fetch(2)));
    assert_eq!((s.filtered(), s.invalid()), (1, 1));
    assert_eq!(ids(&s.into_posts()), vec![2]);
}

#[test]
fn counters_that_overflow_stop_the_search() {
    let g = grabber(false);
    let mut s = g.start_search("t", TagSearchType::Special);
    let mut bad = page(1, 40000);
    for p in bad.iter_mut() {
        p.file.url = None;
    }
    assert_eq!(g.take_page(&mut s, bad), Ok(SearchStep::Fetch(2)));
    let mut bad = page(1, 30000);
    for p in bad.iter_mut() {
        p.file.url = None;
    }
    assert_eq!(g.take_page(&mut s, bad), Err(SearchError::CounterOverflow));
}

#[test]
fn grabbing_fills_collections() {
    let mut g = grabber(false);
    let tag = Tag::new("cat", TagSearchType::General, TagType::General);
    g.grab_general(&tag, page(1, 2));
    assert_eq!(g.posts().len(), 2);
    assert_eq!((g.posts()[1].name(), g.posts()[1].category()), ("cat", "General Searches"));
    assert_eq!(g.posts()[1].posts()[1].name(), "md5of2.png");

    let entry = PoolEntry { id: 77, name: "Comic".to_string(), post_ids: vec![2, 1, 5], ..Default::default() };
    assert_eq!(Grabber::pool_search_tag(&entry), "pool:77");
    g.grab_pool(entry, vec![post(1), post(2)]);
    let pool = &g.posts()[2];
    assert_eq!((pool.name(), pool.category()), ("Comic", "Pools"));
    let urls: Vec<&str> = pool.posts().iter().map(|p| p.url()).collect();
    assert_eq!(urls, vec!["https://static1.e621.net/2.png", "https://static1.e621.net/1.png"]);
    assert_eq!(pool.posts()[1].name(), "Comic Page_00002.png");
}

#[test]
fn single_posts_respect_safe_mode() {
    let mut g = grabber(false);
    assert_eq!(g.grab_post(post(1)), PostOutcome::Grabbed);
    let mut no_url = post(2);
    no_url.file.url = None;
    assert_eq!(g.grab_post(no_url), PostOutcome::NoUrl);
    g.set_safe_mode(true);
    let mut explicit = post(3);
    explicit.rating = "e".to_string();
    assert_eq!(g.grab_post(explicit), PostOutcome::NotSafe);
    assert_eq!(g.grab_post(post(4)), PostOutcome::Grabbed);
    assert_eq!(g.posts().len(), 1);
    let names: Vec<&str> = g.posts()[0].posts().iter().map(|p| p.name()).collect();
    assert_eq!(names, vec!["md5of1.png", "md5of4.png"]);
}

#[test]
fn favorites_need_a_user_who_wants_them() {
    let g = grabber(false);
    assert_eq!(g.favorites_tag(&Login::new("bob".to_string(), String::new(), true)), Some("fav:bob".to_string()));
    assert_eq!(g.favorites_tag(&Login::new("bob".to_string(), "k".to_string(), false)), None);
    assert_eq!(g.favorites_tag(&Login::default()), None);
}

#[test]
fn requests_follow_the_tag_type() {
    let g = grabber(false);
    let pool = Tag::new("12", TagSearchType::Special, TagType::Pool);
    assert!(matches!(g.grab_request(&pool), GrabRequest::Pool(n) if n == "12"));
    let set = Tag::new("3", TagSearchType::Special, TagType::PostSet);
    assert!(matches!(g.grab_request(&set), GrabRequest::PostSet(n) if n == "3"));
    let single = Tag::new("4", TagSearchType::Special, TagType::Post);
    assert!(matches!(g.grab_request(&single), GrabRequest::Post(n) if n == "4"));
    let artist = Tag::new("someone", TagSearchType::Special, TagType::Artist);
    assert!(matches!(g.grab_request(&artist), GrabRequest::Search(n, TagSearchType::Special) if n == "someone"));
}

#[test]
fn safe_mode_moves_urls_to_e926() {
    let mut g = grabber(true);
    g.enter_safe_mode();
    assert_eq!(g.request_sender().url("posts"), Some("https://e926.net/posts.json".to_string()));
    assert!(g.request_sender().is_authenticated());
}
