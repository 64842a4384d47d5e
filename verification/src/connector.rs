//! What the web connector decides around the downloads: which blacklist to
//! parse, how collection and file names become path components, and how many
//! bytes are to be downloaded.

use vstd::prelude::*;

use crate::entries::UserEntry;
use crate::grabber::{collection_views, grabbed_views, GrabbedPostView, Grabber, PostCollectionView};
use crate::text::{push_char, str_to_chars};

verus! {

/// The characters a path component cannot hold on every system.
pub open spec fn is_invalid_path_char(c: char) -> bool {
    c == '?' || c == ':' || c == '*' || c == '<' || c == '>' || c == '"' || c == '|'
}

/// `name` with each character a path cannot hold replaced by `_`.
pub open spec fn path_safe(name: Seq<char>) -> Seq<char> {
    name.map_values(|c: char| if is_invalid_path_char(c) { '_' } else { c })
}

/// Removes invalid characters from a directory or file name.
pub fn remove_invalid_chars(dir_name: &str) -> (r: String)
    ensures
        r@ == path_safe(dir_name@),
{
    let chars = str_to_chars(dir_name);
    let mut r = String::new();
    let mut i: usize = 0;
    while i < chars.len()
        invariant
            i <= chars.len(),
            chars@ == dir_name@,
            r@ == path_safe(dir_name@).take(i as int),
        decreases chars.len() - i,
    {
        let c = chars[i];
        let safe = if c == '?' || c == ':' || c == '*' || c == '<' || c == '>' || c == '"' || c == '|' {
            '_'
        } else {
            c
        };
        push_char(&mut r, safe);
        assert(path_safe(dir_name@).take(i + 1) =~= path_safe(dir_name@).take(i as int).push(safe));
        i = i + 1;
    }
    assert(path_safe(dir_name@).take(chars.len() as int) =~= path_safe(dir_name@));
    r
}

/// The blacklist text of the user, when the user has a non-empty one.
pub fn blacklist_text(user: &UserEntry) -> (r: Option<String>)
    ensures
        match user.blacklisted_tags {
            Some(t) => if t@.len() > 0 {
                r matches Some(s) && s@ == t@
            } else {
                r is None
            },
            None => r is None,
        },
{
    match &user.blacklisted_tags {
        Some(tags) => if tags.as_str().is_empty() {
            None
        } else {
            Some(crate::text::string_from_str(tags.as_str()))
        },
        None => None,
    }
}

/// The bytes of a list of posts: their file sizes, each read as a `u64`.
pub open spec fn posts_bytes(posts: Seq<GrabbedPostView>) -> int
    decreases posts.len(),
{
    if posts.len() == 0 {
        0
    } else {
        posts_bytes(posts.drop_last()) + (posts.last().file_size as u64) as int
    }
}

/// The bytes of all the posts of a list of collections.
pub open spec fn total_bytes(collections: Seq<PostCollectionView>) -> int
    decreases collections.len(),
{
    if collections.len() == 0 {
        0
    } else {
        total_bytes(collections.drop_last()) + posts_bytes(collections.last().posts)
    }
}

proof fn lemma_posts_bytes_prefix(posts: Seq<GrabbedPostView>, i: int)
    requires
        0 <= i <= posts.len(),
    ensures
        0 <= posts_bytes(posts.take(i)) <= posts_bytes(posts),
    decreases posts.len() - i,
{
    if i < posts.len() {
        lemma_posts_bytes_prefix(posts, i + 1);
        assert(posts.take(i + 1).drop_last() =~= posts.take(i));
        assert(posts.take(i + 1).last() == posts[i]);
        lemma_posts_bytes_nonneg(posts.take(i));
    } else {
        assert(posts.take(i) =~= posts);
        lemma_posts_bytes_nonneg(posts);
    }
}

proof fn lemma_posts_bytes_nonneg(posts: Seq<GrabbedPostView>)
    ensures
        posts_bytes(posts) >= 0,
    decreases posts.len(),
{
    if posts.len() > 0 {
        lemma_posts_bytes_nonneg(posts.drop_last());
    }
}

proof fn lemma_total_bytes_prefix(collections: Seq<PostCollectionView>, i: int)
    requires
        0 <= i <= collections.len(),
    ensures
        0 <= total_bytes(collections.take(i)) <= total_bytes(collections),
    decreases collections.len() - i,
{
    if i < collections.len() {
        lemma_total_bytes_prefix(collections, i + 1);
        assert(collections.take(i + 1).drop_last() =~= collections.take(i));
        assert(collections.take(i + 1).last() == collections[i]);
        lemma_posts_bytes_nonneg(collections[i].posts);
        lemma_total_bytes_nonneg(collections.take(i));
    } else {
        assert(collections.take(i) =~= collections);
        lemma_total_bytes_nonneg(collections);
    }
}

proof fn lemma_total_bytes_nonneg(collections: Seq<PostCollectionView>)
    ensures
        total_bytes(collections) >= 0,
    decreases collections.len(),
{
    if collections.len() > 0 {
        lemma_total_bytes_nonneg(collections.drop_last());
        lemma_posts_bytes_nonneg(collections.last().posts);
    }
}

/// Gets the total size, in bytes, of every post file to be downloaded.
pub fn get_total_file_size(grabber: &Grabber) -> (total: u64)
    requires
        total_bytes(grabber.spec_posts()) <= u64::MAX,
    ensures
        total == total_bytes(grabber.spec_posts()),
{
    let collections = grabber.posts();
    let ghost cs = grabber.spec_posts();
    let mut total: u64 = 0;
    let mut i: usize = 0;
    proof {
        lemma_total_bytes_prefix(cs, 0);
        assert(cs.take(0) =~= Seq::<PostCollectionView>::empty());
    }
    while i < collections.len()
        invariant
            i <= collections@.len(),
            collection_views(collections@) == cs,
            total_bytes(cs) <= u64::MAX,
            total == total_bytes(cs.take(i as int)),
        decreases collections@.len() - i,
    {
        let posts = collections[i].posts();
        let ghost ps = cs[i as int].posts;
        assert(grabbed_views(posts@) == ps);
        proof {
            lemma_total_bytes_prefix(cs, i + 1);
            assert(cs.take(i + 1).drop_last() =~= cs.take(i as int));
            assert(ps.take(0) =~= Seq::<GrabbedPostView>::empty());
        }
        let mut sum: u64 = 0;
        let mut j: usize = 0;
        while j < posts.len()
            invariant
                j <= posts@.len(),
                grabbed_views(posts@) == ps,
                total + posts_bytes(ps) <= u64::MAX,
                sum == posts_bytes(ps.take(j as int)),
            decreases posts@.len() - j,
        {
            proof {
                lemma_posts_bytes_prefix(ps, j + 1);
                lemma_total_bytes_nonneg(cs.take(i as int));
                assert(ps.take(j + 1).drop_last() =~= ps.take(j as int));
                assert(ps[j as int] == posts@[j as int]@);
            }
            sum = sum + posts[j].file_size() as u64;
            j = j + 1;
        }
        assert(ps.take(posts@.len() as int) =~= ps);
        total = total + sum;
        i = i + 1;
    }
    assert(cs.take(collections@.len() as int) =~= cs);
    total
}

} // verus!
