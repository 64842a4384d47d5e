//! The grabber: it searches posts page by page, drops the blacklisted and
//! the invalid ones, and gathers what is left into named collections ready to
//! download.

use vstd::prelude::*;
use vstd::string::StringExecFns;

use crate::blacklist::{keep, lemma_keep_concat, lemma_keep_len, survives_all, Blacklist, TagModel};
use crate::entries::{PoolEntry, PostEntry, SetEntry};
use crate::io::{known_convention, Config, Login};
use crate::sender::{RequestSender, POSTS_PER_PAGE};
use crate::tag::{Tag, TagSearchType, TagType};
use crate::text::{decimal, i64_to_string, nat_digits, str_eq, string_from_str, zero_pad};

verus! {

/// The name a post's file gets under the naming convention `convention`:
/// its MD5 hash or its id, then a dot and its extension.
pub open spec fn post_file_name(post: PostEntry, convention: Seq<char>) -> Seq<char> {
    if convention == "md5"@ {
        post.file.md5@ + seq!['.'] + post.file.ext@
    } else {
        decimal(post.id as int) + seq!['.'] + post.file.ext@
    }
}

/// The name of the file of the `page`-th post of the pool `pool`: the pool's
/// name, ` Page_`, the page number padded with zeros to five digits, a dot
/// and the extension.
pub open spec fn pool_file_name(post: PostEntry, pool: Seq<char>, page: u16) -> Seq<char> {
    pool + " Page_"@ + zero_pad(nat_digits(page as nat), 5) + seq!['.'] + post.file.ext@
}

/// A post that can be downloaded: it has a url.
pub open spec fn has_url(post: PostEntry) -> bool {
    post.file.url is Some
}

/// The url of a post that has one.
pub open spec fn post_url(post: PostEntry) -> Seq<char> {
    post.file.url->Some_0@
}

/// A collection of values taken from a [PostEntry].
#[derive(Debug)]
pub struct GrabbedPost {
    /// The url that leads to the file to download.
    url: String,
    /// The name of the file to download.
    name: String,
    /// The size of the file to download.
    file_size: i64,
}

/// The model of a [GrabbedPost].
pub struct GrabbedPostView {
    pub url: Seq<char>,
    pub name: Seq<char>,
    pub file_size: i64,
}

impl View for GrabbedPost {
    type V = GrabbedPostView;

    closed spec fn view(&self) -> GrabbedPostView {
        GrabbedPostView { url: self.url@, name: self.name@, file_size: self.file_size }
    }
}

/// The grabbed posts of `posts`, each named by `convention`.
pub open spec fn grabbed(posts: Seq<PostEntry>, convention: Seq<char>) -> Seq<GrabbedPostView> {
    posts.map_values(
        |p: PostEntry|
            GrabbedPostView {
                url: post_url(p),
                name: post_file_name(p, convention),
                file_size: p.file.size,
            },
    )
}

/// The grabbed posts of the pool `pool`, numbered from one in their order.
pub open spec fn grabbed_pool(posts: Seq<PostEntry>, pool: Seq<char>) -> Seq<GrabbedPostView> {
    Seq::new(
        posts.len(),
        |i: int|
            GrabbedPostView {
                url: post_url(posts[i]),
                name: pool_file_name(posts[i], pool, ((i + 1) % 65536) as u16),
                file_size: posts[i].file.size,
            },
    )
}

/// The views of a list of grabbed posts.
pub open spec fn grabbed_views(posts: Seq<GrabbedPost>) -> Seq<GrabbedPostView> {
    posts.map_values(|p: GrabbedPost| p@)
}

impl GrabbedPost {
    /// The url that leads to the file to download.
    pub fn url(&self) -> (u: &str)
        ensures
            u@ == self@.url,
    {
        self.url.as_str()
    }

    /// The name of the file to download.
    pub fn name(&self) -> (n: &str)
        ensures
            n@ == self@.name,
    {
        self.name.as_str()
    }

    /// The size of the file to download.
    pub fn file_size(&self) -> (s: i64)
        ensures
            s == self@.file_size,
    {
        self.file_size
    }

    /// The url of a post that has one.
    fn url_of(post: &PostEntry) -> (u: String)
        requires
            has_url(*post),
        ensures
            u@ == post_url(*post),
    {
        match &post.file.url {
            Some(u) => string_from_str(u.as_str()),
            None => String::new(),
        }
    }

    /// The post `post`, its file named by the naming convention
    /// `name_convention` (`md5` or `id`).
    pub fn from_post(post: &PostEntry, name_convention: &str) -> (g: Self)
        requires
            has_url(*post),
            known_convention(name_convention@),
        ensures
            g@ == (GrabbedPostView {
                url: post_url(*post),
                name: post_file_name(*post, name_convention@),
                file_size: post.file.size,
            }),
    {
        let mut name = if str_eq(name_convention, "md5") {
            string_from_str(post.file.md5.as_str())
        } else {
            i64_to_string(post.id)
        };
        let ghost stem = name@;
        name.append(".");
        name.append(post.file.ext.as_str());
        proof {
            reveal_strlit(".");
            assert(name@ =~= stem + seq!['.'] + post.file.ext@);
        }
        GrabbedPost { url: Self::url_of(post), name, file_size: post.file.size }
    }

    /// The post `post` as the page `current_page` of the pool `name`.
    pub fn from_pool_post(post: &PostEntry, name: &str, current_page: u16) -> (g: Self)
        requires
            has_url(*post),
        ensures
            g@ == (GrabbedPostView {
                url: post_url(*post),
                name: pool_file_name(*post, name@, current_page),
                file_size: post.file.size,
            }),
    {
        let digits = i64_to_string(current_page as i64);
        let mut file_name = string_from_str(name);
        file_name.append(" Page_");
        let mut k: usize = digits.as_str().unicode_len();
        while k < 5
            invariant
                digits@ == nat_digits(current_page as nat),
                digits@.len() <= k <= 5 || (k == digits@.len() && k > 5),
                file_name@ == name@ + " Page_"@ + Seq::new((k - digits@.len()) as nat, |i: int| '0'),
            decreases 5 - k,
        {
            file_name.append("0");
            proof {
                reveal_strlit("0");
                assert(file_name@ =~= name@ + " Page_"@ + Seq::new((k + 1 - digits@.len()) as nat, |i: int| '0'));
            }
            k = k + 1;
        }
        file_name.append(digits.as_str());
        file_name.append(".");
        file_name.append(post.file.ext.as_str());
        proof {
            reveal_strlit(".");
            let pad = zero_pad(nat_digits(current_page as nat), 5);
            if digits@.len() >= 5 {
                assert(Seq::new(0nat, |i: int| '0') + digits@ =~= digits@);
            }
            assert(Seq::new((k - digits@.len()) as nat, |i: int| '0') + digits@ =~= pad);
            assert(file_name@ =~= pool_file_name(*post, name@, current_page));
        }
        GrabbedPost { url: Self::url_of(post), name: file_name, file_size: post.file.size }
    }

    /// The posts `vec`, each named by the naming convention.
    pub fn new_vec(vec: Vec<PostEntry>, name_convention: &str) -> (r: Vec<Self>)
        requires
            forall|i: int| 0 <= i < vec@.len() ==> has_url(#[trigger] vec@[i]),
            known_convention(name_convention@),
        ensures
            grabbed_views(r@) == grabbed(vec@, name_convention@),
    {
        let mut r: Vec<Self> = Vec::new();
        let mut i: usize = 0;
        while i < vec.len()
            invariant
                i <= vec.len(),
                forall|k: int| 0 <= k < vec@.len() ==> has_url(#[trigger] vec@[k]),
                known_convention(name_convention@),
                grabbed_views(r@) == grabbed(vec@.take(i as int), name_convention@),
            decreases vec.len() - i,
        {
            let g = Self::from_post(&vec[i], name_convention);
            let ghost before = grabbed_views(r@);
            r.push(g);
            assert(grabbed_views(r@) =~= before.push(g@));
            assert(vec@.take(i + 1) =~= vec@.take(i as int).push(vec@[i as int]));
            assert(grabbed(vec@.take(i + 1), name_convention@) =~= grabbed(
                vec@.take(i as int),
                name_convention@,
            ).push(g@));
            i = i + 1;
        }
        assert(vec@.take(vec.len() as int) =~= vec@);
        r
    }

    /// The posts `vec` of the pool `pool_name`, numbered from one in order.
    pub fn new_pool_vec(vec: Vec<PostEntry>, pool_name: &str) -> (r: Vec<Self>)
        requires
            forall|i: int| 0 <= i < vec@.len() ==> has_url(#[trigger] vec@[i]),
        ensures
            grabbed_views(r@) == grabbed_pool(vec@, pool_name@),
    {
        let mut r: Vec<Self> = Vec::new();
        let mut i: usize = 0;
        while i < vec.len()
            invariant
                i <= vec.len(),
                forall|k: int| 0 <= k < vec@.len() ==> has_url(#[trigger] vec@[k]),
                grabbed_views(r@) == grabbed_pool(vec@, pool_name@).take(i as int),
            decreases vec.len() - i,
        {
            let page: u16 = ((i + 1) % 65536) as u16;
            let g = Self::from_pool_post(&vec[i], pool_name, page);
            let ghost before = grabbed_views(r@);
            r.push(g);
            assert(grabbed_views(r@) =~= before.push(g@));
            assert(grabbed_pool(vec@, pool_name@).take(i + 1) =~= grabbed_pool(vec@, pool_name@).take(
                i as int,
            ).push(g@));
            i = i + 1;
        }
        assert(grabbed_pool(vec@, pool_name@).take(vec.len() as int) =~= grabbed_pool(vec@, pool_name@));
        r
    }
}

/// The longest name, in characters, a collection keeps when shortened.
pub const SHORT_NAME_LEN: usize = 25;

/// A set of posts with category and name.
#[derive(Debug)]
pub struct PostCollection {
    /// The name of the set.
    name: String,
    /// The category of the set.
    category: String,
    /// The posts in the set.
    posts: Vec<GrabbedPost>,
}

/// The model of a [PostCollection].
pub struct PostCollectionView {
    pub name: Seq<char>,
    pub category: Seq<char>,
    pub posts: Seq<GrabbedPostView>,
}

impl View for PostCollection {
    type V = PostCollectionView;

    closed spec fn view(&self) -> PostCollectionView {
        PostCollectionView { name: self.name@, category: self.category@, posts: grabbed_views(self.posts@) }
    }
}

/// A name of more than [SHORT_NAME_LEN] characters cut to its first
/// [SHORT_NAME_LEN] characters, with `delimiter` attached; a shorter name
/// unchanged.
pub open spec fn shortened(name: Seq<char>, delimiter: Seq<char>) -> Seq<char> {
    if name.len() > SHORT_NAME_LEN {
        name.take(SHORT_NAME_LEN as int) + delimiter
    } else {
        name
    }
}

impl PostCollection {
    /// Creates a new post collection.
    pub fn new(name: &str, category: &str, posts: Vec<GrabbedPost>) -> (c: Self)
        ensures
            c@ == (PostCollectionView { name: name@, category: category@, posts: grabbed_views(posts@) }),
    {
        PostCollection { name: string_from_str(name), category: string_from_str(category), posts }
    }

    /// The collection of the set `set`, in the category `Sets`.
    pub fn from_set(set: &crate::entries::SetEntry, posts: Vec<GrabbedPost>) -> (c: Self)
        ensures
            c@ == (PostCollectionView { name: set.name@, category: "Sets"@, posts: grabbed_views(posts@) }),
    {
        PostCollection::new(set.name.as_str(), "Sets", posts)
    }

    /// The name of the set.
    pub fn name(&self) -> (n: &str)
        ensures
            n@ == self@.name,
    {
        self.name.as_str()
    }

    /// The category of the set.
    pub fn category(&self) -> (c: &str)
        ensures
            c@ == self@.category,
    {
        self.category.as_str()
    }

    /// The posts in the set.
    pub fn posts(&self) -> (p: &Vec<GrabbedPost>)
        ensures
            grabbed_views(p@) == self@.posts,
    {
        &self.posts
    }

    /// Adds a post at the end of the collection.
    pub fn push(&mut self, post: GrabbedPost)
        ensures
            final(self)@ == (PostCollectionView { posts: old(self)@.posts.push(post@), ..old(self)@ }),
    {
        let ghost before = grabbed_views(self.posts@);
        self.posts.push(post);
        assert(grabbed_views(self.posts@) =~= before.push(post@));
    }

    /// The name's first [SHORT_NAME_LEN] characters, when it has more.
    fn short_prefix(&self) -> (r: Option<String>)
        ensures
            self@.name.len() > SHORT_NAME_LEN <==> r is Some,
            r matches Some(p) ==> p@ == self@.name.take(SHORT_NAME_LEN as int),
    {
        let chars = crate::text::str_to_chars(self.name.as_str());
        if chars.len() > SHORT_NAME_LEN {
            let head = crate::text::chars_to_string(&chars, 0, SHORT_NAME_LEN);
            assert(chars@.subrange(0, SHORT_NAME_LEN as int) =~= self@.name.take(SHORT_NAME_LEN as int));
            Some(head)
        } else {
            None
        }
    }

    /// Shortens the name when it has more than [SHORT_NAME_LEN] characters,
    /// attaching `delimiter` in place of the rest.
    pub fn shorten_str(&self, delimiter: &str) -> (r: String)
        ensures
            r@ == shortened(self@.name, delimiter@),
    {
        match self.short_prefix() {
            Some(mut short_name) => {
                short_name.append(delimiter);
                short_name
            },
            None => string_from_str(self.name.as_str()),
        }
    }

    /// Shortens the name when it has more than [SHORT_NAME_LEN] characters,
    /// attaching the character `delimiter` in place of the rest.
    pub fn shorten_char(&self, delimiter: char) -> (r: String)
        ensures
            r@ == shortened(self@.name, seq![delimiter]),
    {
        match self.short_prefix() {
            Some(mut short_name) => {
                crate::text::push_char(&mut short_name, delimiter);
                short_name
            },
            None => string_from_str(self.name.as_str()),
        }
    }
}

// ---------------------------------------------------------------------------
// Pools
// ---------------------------------------------------------------------------

/// Whether some post of `posts` has the id `id`.
pub open spec fn has_id(posts: Seq<PostEntry>, id: i64) -> bool {
    exists|j: int| 0 <= j < posts.len() && posts[j].id == id
}

/// No id occurs twice in `ids`.
pub open spec fn distinct_ids(ids: Seq<i64>) -> bool {
    forall|a: int, b: int| 0 <= a < b < ids.len() ==> ids[a] != ids[b]
}

/// `posts` with the posts at `a` and `b` exchanged.
pub open spec fn swapped(posts: Seq<PostEntry>, a: int, b: int) -> Seq<PostEntry> {
    posts.update(a, posts[b]).update(b, posts[a])
}

/// Exchanging two posts keeps the same posts.
pub proof fn lemma_swapped_multiset(posts: Seq<PostEntry>, a: int, b: int)
    requires
        0 <= a < b < posts.len(),
    ensures
        swapped(posts, a, b).to_multiset() == posts.to_multiset(),
{
    broadcast use vstd::multiset::group_multiset_axioms;
    broadcast use vstd::seq_lib::group_to_multiset_ensures;
    let p = posts.take(a);
    let q = posts.subrange(a + 1, b);
    let r = posts.skip(b + 1);
    let x = seq![posts[a]];
    let y = seq![posts[b]];
    assert(posts =~= p + x + q + y + r);
    assert(swapped(posts, a, b) =~= p + y + q + x + r);
    vstd::seq_lib::lemma_multiset_commutative(p + x + q + y, r);
    vstd::seq_lib::lemma_multiset_commutative(p + x + q, y);
    vstd::seq_lib::lemma_multiset_commutative(p + x, q);
    vstd::seq_lib::lemma_multiset_commutative(p, x);
    vstd::seq_lib::lemma_multiset_commutative(p + y + q + x, r);
    vstd::seq_lib::lemma_multiset_commutative(p + y + q, x);
    vstd::seq_lib::lemma_multiset_commutative(p + y, q);
    vstd::seq_lib::lemma_multiset_commutative(p, y);
    assert(swapped(posts, a, b).to_multiset() =~= posts.to_multiset());
}

/// Exchanges the posts at `a` and `b`.
fn swap_posts(posts: &mut Vec<PostEntry>, a: usize, b: usize)
    requires
        a < old(posts)@.len(),
        b < old(posts)@.len(),
        a != b,
    ensures
        final(posts)@ == swapped(old(posts)@, a as int, b as int),
        final(posts)@.to_multiset() == old(posts)@.to_multiset(),
{
    let (lo, hi) = if a < b {
        (a, b)
    } else {
        (b, a)
    };
    let high = posts.remove(hi);
    let low = posts.remove(lo);
    posts.insert(lo, high);
    posts.insert(hi, low);
    proof {
        assert(posts@ =~= swapped(old(posts)@, lo as int, hi as int));
        assert(swapped(old(posts)@, lo as int, hi as int) =~= swapped(old(posts)@, a as int, b as int));
        lemma_swapped_multiset(old(posts)@, lo as int, hi as int);
    }
}

/// `r` is the index of the first post of `posts` with the id `id`.
pub open spec fn is_first_with_id(posts: Seq<PostEntry>, id: i64, r: int) -> bool {
    0 <= r < posts.len() && posts[r].id == id && forall|m: int| 0 <= m < r ==> posts[m].id != id
}

/// The index of the first post of `posts` with the id `id`.
pub open spec fn first_with_id(posts: Seq<PostEntry>, id: i64) -> int {
    choose|r: int| is_first_with_id(posts, id, r)
}

/// There is one first post with a given id.
pub proof fn lemma_first_with_id(posts: Seq<PostEntry>, id: i64, r: int)
    requires
        is_first_with_id(posts, id, r),
    ensures
        first_with_id(posts, id) == r,
{
    let f = first_with_id(posts, id);
    assert(is_first_with_id(posts, id, f));
    if f < r {
        assert(posts[f].id != id);
    } else if r < f {
        assert(posts[r].id != id);
    }
}

/// The posts after the first `k` steps of sorting them by `ids`: step `i`
/// leaves them as they are when the post at `i` has the `i`-th id, and
/// otherwise exchanges it with the first post that has that id.
pub open spec fn pool_order(ids: Seq<i64>, posts: Seq<PostEntry>, k: int) -> Seq<PostEntry>
    decreases k,
{
    if k <= 0 {
        posts
    } else {
        let prev = pool_order(ids, posts, k - 1);
        let i = k - 1;
        if prev[i].id == ids[i] {
            prev
        } else {
            swapped(prev, i, first_with_id(prev, ids[i]))
        }
    }
}

/// The index of the first post with the id `id`.
fn position_of_id(posts: &Vec<PostEntry>, id: i64) -> (r: usize)
    requires
        has_id(posts@, id),
    ensures
        is_first_with_id(posts@, id, r as int),
        r as int == first_with_id(posts@, id),
{
    let mut c: usize = 0;
    while c < posts.len() && posts[c].id != id
        invariant
            c <= posts@.len(),
            has_id(posts@, id),
            forall|m: int| 0 <= m < c ==> posts@[m].id != id,
        decreases posts@.len() - c,
    {
        c = c + 1;
    }
    proof {
        if c == posts@.len() {
            let j = choose|j: int| 0 <= j < posts@.len() && posts@[j].id == id;
            assert(posts@[j].id != id);
        }
        lemma_first_with_id(posts@, id, c as int);
    }
    c
}

/// Sorts a pool's posts into the order of the pool entry's ids: the post at
/// each index `i` below the number of ids is moved there from the first
/// place that holds a post with the `i`-th id.
pub fn sort_pool_by_id(entry: &PoolEntry, posts: &mut Vec<PostEntry>)
    requires
        entry.post_ids@.len() <= old(posts)@.len(),
        forall|i: int| 0 <= i < entry.post_ids@.len() ==> has_id(old(posts)@, #[trigger] entry.post_ids@[i]),
    ensures
        final(posts)@ == pool_order(entry.post_ids@, old(posts)@, entry.post_ids@.len() as int),
        final(posts)@.len() == old(posts)@.len(),
        final(posts)@.to_multiset() == old(posts)@.to_multiset(),
        distinct_ids(entry.post_ids@) ==> forall|i: int|
            0 <= i < entry.post_ids@.len() ==> #[trigger] final(posts)@[i].id == entry.post_ids@[i],
{
    let ghost start = posts@;
    let ids = &entry.post_ids;
    let mut i: usize = 0;
    while i < ids.len()
        invariant
            i <= ids@.len() <= posts@.len(),
            posts@ == pool_order(ids@, start, i as int),
            posts@.len() == start.len(),
            posts@.to_multiset() == start.to_multiset(),
            ids == &entry.post_ids,
            forall|k: int| 0 <= k < ids@.len() ==> has_id(posts@, #[trigger] ids@[k]),
            distinct_ids(ids@) ==> forall|k: int| 0 <= k < i ==> #[trigger] posts@[k].id == ids@[k],
        decreases ids@.len() - i,
    {
        let id = ids[i];
        if posts[i].id != id {
            assert(has_id(posts@, ids@[i as int]));
            let correct_index = position_of_id(posts, id);
            let ghost before = posts@;
            swap_posts(posts, i, correct_index);
            proof {
                assert forall|k: int| 0 <= k < ids@.len() implies has_id(posts@, #[trigger] ids@[k]) by {
                    assert(has_id(before, ids@[k]));
                    let j = choose|j: int| 0 <= j < before.len() && before[j].id == ids@[k];
                    if j == i {
                        assert(posts@[correct_index as int].id == ids@[k]);
                    } else if j == correct_index {
                        assert(posts@[i as int].id == ids@[k]);
                    } else {
                        assert(posts@[j].id == ids@[k]);
                    }
                }
                if distinct_ids(ids@) {
                    assert forall|k: int| 0 <= k < i + 1 implies #[trigger] posts@[k].id == ids@[k] by {
                        if k < i {
                            assert(before[k].id == ids@[k]);
                            assert(ids@[k] != ids@[i as int]);
                            assert(correct_index != k);
                        }
                    }
                }
            }
        }
        i = i + 1;
    }
}

// ---------------------------------------------------------------------------
// Searching
// ---------------------------------------------------------------------------

/// A post that can be downloaded: not deleted, and with a url.
pub open spec fn is_valid_post(post: PostEntry) -> bool {
    !post.flags.deleted && post.file.url is Some
}

pub open spec fn valid_posts() -> spec_fn(PostEntry) -> bool {
    |post: PostEntry| is_valid_post(post)
}

/// Every post of `posts` can be downloaded.
pub open spec fn all_valid(posts: Seq<PostEntry>) -> bool {
    forall|i: int| 0 <= i < posts.len() ==> is_valid_post(#[trigger] posts[i])
}

pub proof fn lemma_keep_valid(s: Seq<PostEntry>)
    ensures
        all_valid(keep(s, valid_posts())),
    decreases s.len(),
{
    if s.len() > 0 {
        lemma_keep_valid(s.drop_last());
    }
}

/// How many of `posts` cannot be downloaded.
pub fn count_invalid_posts(posts: &Vec<PostEntry>) -> (n: usize)
    ensures
        n == posts@.len() - keep(posts@, valid_posts()).len(),
{
    let mut n: usize = 0;
    let mut i: usize = 0;
    assert(posts@.take(0) =~= Seq::<PostEntry>::empty());
    while i < posts.len()
        invariant
            i <= posts.len(),
            n == i - keep(posts@.take(i as int), valid_posts()).len(),
            keep(posts@.take(i as int), valid_posts()).len() <= i,
        decreases posts.len() - i,
    {
        assert(posts@.take(i + 1).drop_last() =~= posts@.take(i as int));
        assert(posts@.take(i + 1).last() == posts@[i as int]);
        if posts[i].flags.deleted || posts[i].file.url.is_none() {
            n = n + 1;
        }
        i = i + 1;
    }
    assert(posts@.take(posts.len() as int) =~= posts@);
    n
}

/// Removes the posts that cannot be downloaded (deleted, or without a url)
/// and returns how many were removed.
pub fn remove_invalid_posts(posts: &mut Vec<PostEntry>) -> (invalid_posts: u16)
    requires
        old(posts)@.len() - keep(old(posts)@, valid_posts()).len() <= u16::MAX,
    ensures
        final(posts)@ == keep(old(posts)@, valid_posts()),
        invalid_posts == old(posts)@.len() - final(posts)@.len(),
{
    let ghost before = posts@;
    let ghost f = valid_posts();
    let mut rest: Vec<PostEntry> = Vec::new();
    std::mem::swap(posts, &mut rest);
    let mut kept: Vec<PostEntry> = Vec::new();
    let mut invalid_posts: u16 = 0;
    proof {
        lemma_keep_concat(Seq::empty(), before, f);
    }
    for post in it: rest.into_iter()
        invariant
            it.seq() == before,
            f == valid_posts(),
            kept@ == keep(before.take(it.index() as int), f),
            invalid_posts == it.index() - kept@.len(),
            before.len() - keep(before, f).len() <= u16::MAX,
    {
        let ghost k = it.index() as int;
        proof {
            assert(before.take(k + 1).drop_last() =~= before.take(k));
            assert(before.take(k + 1).last() == post);
            assert(before =~= before.take(k + 1) + before.skip(k + 1));
            lemma_keep_concat(before.take(k + 1), before.skip(k + 1), f);
            lemma_keep_len(before.skip(k + 1), f);
            lemma_keep_len(before.take(k), f);
        }
        if !post.flags.deleted && post.file.url.is_some() {
            kept.push(post);
        } else {
            invalid_posts = invalid_posts + 1;
        }
    }
    assert(before.take(before.len() as int) =~= before);
    *posts = kept;
    invalid_posts
}

/// Moves the posts of `page` to the end of `posts`, last first.
fn append_reversed(posts: &mut Vec<PostEntry>, page: Vec<PostEntry>)
    ensures
        final(posts)@ == old(posts)@ + page@.reverse(),
{
    let ghost target = old(posts)@ + page@.reverse();
    let mut page = page;
    while page.len() > 0
        invariant
            posts@ + page@.reverse() == target,
        decreases page@.len(),
    {
        let ghost rest = page@;
        let post = page.pop().unwrap();
        assert(rest.reverse() =~= seq![post] + rest.drop_last().reverse());
        posts.push(post);
        assert(posts@ + page@.reverse() =~= target);
    }
    assert(posts@ + page@.reverse() =~= posts@);
}

/// The total of the numbers of `s`.
pub open spec fn total(s: Seq<nat>) -> nat
    decreases s.len(),
{
    if s.len() == 0 {
        0
    } else {
        total(s.drop_last()) + s.last()
    }
}

/// The number of pages a general search asks for, plus one.
pub const POST_SEARCH_LIMIT: u8 = 5;

/// What is left of a page of a search: the posts the blacklist lets through
/// (when it filters), then those that can be downloaded, last first.
pub open spec fn page_yield(page: Seq<PostEntry>, lines: Seq<Seq<TagModel>>, filtering: bool) -> Seq<PostEntry> {
    let passed = if filtering {
        keep(page, survives_all(lines))
    } else {
        page
    };
    keep(passed, valid_posts()).reverse()
}

/// The number of posts of a page the blacklist removes.
pub open spec fn page_blacklisted(page: Seq<PostEntry>, lines: Seq<Seq<TagModel>>, filtering: bool) -> int {
    if filtering {
        page.len() - keep(page, survives_all(lines)).len()
    } else {
        0
    }
}

/// The number of posts of a page, past the blacklist, that cannot be
/// downloaded.
pub open spec fn page_invalid(page: Seq<PostEntry>, lines: Seq<Seq<TagModel>>, filtering: bool) -> int {
    let passed = if filtering {
        keep(page, survives_all(lines))
    } else {
        page
    };
    passed.len() - keep(passed, valid_posts()).len()
}

/// What a search asks for next.
#[derive(Debug, PartialEq, Eq, Structural)]
pub enum SearchStep {
    /// The page of that number, with the search's tag.
    Fetch(u16),
    /// Nothing: the search is over.
    Done,
}

/// Where a search stops before it is over: a counter outgrew its type.
#[derive(Debug, PartialEq, Eq, Structural)]
pub enum SearchError {
    /// More than `u16::MAX` posts were blacklisted, or found invalid.
    CounterOverflow,
    /// The page number outgrew `u16`.
    PageOverflow,
}

/// A search for posts, one page at a time. A general search asks for the
/// pages before [POST_SEARCH_LIMIT]; a special one asks until a page comes
/// back empty.
pub struct PostSearch {
    /// The tag searched.
    tag: String,
    /// How far the search goes.
    search_type: TagSearchType,
    /// The page asked for next.
    page: u16,
    /// The posts gathered.
    posts: Vec<PostEntry>,
    /// How many posts the blacklist removed.
    filtered: u16,
    /// How many posts could not be downloaded.
    invalid: u16,
    /// Whether the search is over.
    done: bool,
    /// The number of posts of each page handed over but the last, empty one.
    pages: Ghost<Seq<nat>>,
}

/// The model of a [PostSearch].
pub struct PostSearchView {
    pub tag: Seq<char>,
    pub search_type: TagSearchType,
    pub page: u16,
    pub posts: Seq<PostEntry>,
    pub filtered: u16,
    pub invalid: u16,
    pub done: bool,
    pub pages: Seq<nat>,
}

impl View for PostSearch {
    type V = PostSearchView;

    closed spec fn view(&self) -> PostSearchView {
        PostSearchView {
            tag: self.tag@,
            search_type: self.search_type,
            page: self.page,
            posts: self.posts@,
            filtered: self.filtered,
            invalid: self.invalid,
            done: self.done,
            pages: self.pages@,
        }
    }
}

impl PostSearchView {
    /// The search is consistent: one page counted for each asked for before
    /// the next, the posts gathered no more than those handed over and all
    /// downloadable, a general search within its limit, and no search for an
    /// unidentified tag.
    pub open spec fn wf(self) -> bool {
        &&& self.page >= 1
        &&& self.pages.len() == self.page - 1
        &&& self.posts.len() <= total(self.pages)
        &&& all_valid(self.posts)
        &&& self.search_type == TagSearchType::General ==> self.page <= POST_SEARCH_LIMIT && (self.page
            == POST_SEARCH_LIMIT ==> self.done)
        &&& self.search_type == TagSearchType::NoSearch ==> self.done
    }

    /// What the search asks for next.
    pub open spec fn step(self) -> SearchStep {
        if self.done {
            SearchStep::Done
        } else {
            SearchStep::Fetch(self.page)
        }
    }
}

pub proof fn lemma_total_bound(s: Seq<nat>, cap: nat)
    requires
        forall|i: int| 0 <= i < s.len() ==> s[i] <= cap,
    ensures
        total(s) <= cap * s.len(),
    decreases s.len(),
{
    if s.len() > 0 {
        lemma_total_bound(s.drop_last(), cap);
        assert(cap * s.len() == cap * (s.len() - 1) + cap) by (nonlinear_arith);
    }
}

/// A general search asks for at most four pages: fed pages of at most
/// [POSTS_PER_PAGE] posts, it gathers at most 1,280 posts.
pub proof fn lemma_general_search_limit(search: PostSearchView)
    requires
        search.wf(),
        search.search_type == TagSearchType::General,
        forall|i: int| 0 <= i < search.pages.len() ==> search.pages[i] <= POSTS_PER_PAGE,
    ensures
        search.pages.len() <= 4,
        search.posts.len() <= 1280,
{
    lemma_total_bound(search.pages, POSTS_PER_PAGE as nat);
    assert(POSTS_PER_PAGE * search.pages.len() <= 1280) by (nonlinear_arith)
        requires
            search.pages.len() <= 4,
            POSTS_PER_PAGE == 320,
    ;
}

impl PostSearch {
    /// A search for `tag`, of the kind `search_type`; one for an unidentified
    /// tag is over before it starts.
    pub fn new(tag: &str, search_type: TagSearchType) -> (s: Self)
        ensures
            s@.wf(),
            s@.tag == tag@,
            s@.search_type == search_type,
            s@.page == 1,
            s@.posts == Seq::<PostEntry>::empty(),
            s@.filtered == 0,
            s@.invalid == 0,
            s@.done == (search_type == TagSearchType::NoSearch),
    {
        PostSearch {
            tag: string_from_str(tag),
            search_type,
            page: 1,
            posts: Vec::new(),
            filtered: 0,
            invalid: 0,
            done: search_type == TagSearchType::NoSearch,
            pages: Ghost(Seq::empty()),
        }
    }

    /// The tag searched.
    pub fn tag(&self) -> (t: &str)
        ensures
            t@ == self@.tag,
    {
        self.tag.as_str()
    }

    /// What the search asks for next.
    pub fn next_step(&self) -> (step: SearchStep)
        ensures
            step == self@.step(),
    {
        if self.done {
            SearchStep::Done
        } else {
            SearchStep::Fetch(self.page)
        }
    }

    /// How many posts the blacklist removed.
    pub fn filtered(&self) -> (n: u16)
        ensures
            n == self@.filtered,
    {
        self.filtered
    }

    /// How many posts could not be downloaded.
    pub fn invalid(&self) -> (n: u16)
        ensures
            n == self@.invalid,
    {
        self.invalid
    }

    /// The posts gathered.
    pub fn into_posts(self) -> (posts: Vec<PostEntry>)
        requires
            self@.wf(),
        ensures
            posts@ == self@.posts,
            all_valid(posts@),
    {
        self.posts
    }
}

// ---------------------------------------------------------------------------
// The grabber
// ---------------------------------------------------------------------------

/// The name of the collection single posts are gathered in.
pub open spec fn single_posts_name() -> Seq<char> {
    "Single Posts"@
}

/// What the grabber needs fetched to grab a tag.
#[derive(Debug)]
pub enum GrabRequest {
    /// The pool of that id (`get_entry_from_appended_id(.., "pool")`).
    Pool(String),
    /// The set of that id.
    PostSet(String),
    /// The single post of that id.
    Post(String),
    /// The posts of a search for that tag, of that kind.
    Search(String, TagSearchType),
}

/// What became of a single post.
#[derive(Debug, PartialEq, Eq, Structural)]
pub enum PostOutcome {
    /// Added to the single posts.
    Grabbed,
    /// Left out: it has no url.
    NoUrl,
    /// Left out in safe mode: it is not rated safe.
    NotSafe,
}

/// Is a collector that grabs posts, categorizes them, and prepares them for
/// the downloader to use in downloading.
pub struct Grabber {
    /// All grabbed posts; the first collection holds the single posts.
    posts: Vec<PostCollection>,
    /// `RequestSender` for the API calls.
    request_sender: RequestSender,
    /// Blacklist used to throw away posts that contain tags the user may not
    /// want.
    blacklist: Option<Blacklist>,
    /// Is grabber in safe mode or not.
    safe_mode: bool,
    /// The file naming convention of the configuration.
    naming_convention: String,
}

/// The views of a list of collections.
pub open spec fn collection_views(c: Seq<PostCollection>) -> Seq<PostCollectionView> {
    c.map_values(|x: PostCollection| x@)
}

impl Grabber {
    #[verifier::type_invariant]
    closed spec fn inv(&self) -> bool {
        &&& self.posts@.len() >= 1
        &&& self.posts@[0]@.name == single_posts_name()
        &&& self.posts@[0]@.category == Seq::<char>::empty()
        &&& known_convention(self.naming_convention@)
        &&& self.blacklist matches Some(b) ==> b.checkable()
    }

    /// The collections grabbed so far.
    pub closed spec fn spec_posts(&self) -> Seq<PostCollectionView> {
        collection_views(self.posts@)
    }

    pub closed spec fn spec_sender(&self) -> RequestSender {
        self.request_sender
    }

    pub closed spec fn spec_safe_mode(&self) -> bool {
        self.safe_mode
    }

    pub closed spec fn spec_convention(&self) -> Seq<char> {
        self.naming_convention@
    }

    /// The lines of the blacklist in use, if one is.
    pub closed spec fn spec_blacklist(&self) -> Option<Seq<Seq<TagModel>>> {
        match self.blacklist {
            Some(b) => Some(b.lines()),
            None => None,
        }
    }

    /// Whether pages are filtered with the blacklist: only with a blacklist,
    /// and only for an authenticated user.
    pub open spec fn filters(&self) -> bool {
        self.spec_blacklist() is Some && self.spec_sender().spec_auth().len() > 0
    }

    /// The lines pages are filtered with.
    pub open spec fn lines(&self) -> Seq<Seq<TagModel>> {
        match self.spec_blacklist() {
            Some(l) => l,
            None => Seq::empty(),
        }
    }

    /// Creates a grabber for searching and grabbing posts, naming files by
    /// the configuration's naming convention.
    pub fn new(request_sender: RequestSender, safe_mode: bool, config: &Config) -> (g: Self)
        ensures
            g.spec_posts() == seq![
                PostCollectionView { name: single_posts_name(), category: Seq::empty(), posts: Seq::empty() },
            ],
            g.spec_sender() == request_sender,
            g.spec_safe_mode() == safe_mode,
            g.spec_blacklist() is None,
            g.spec_convention() == config@.naming_convention,
    {
        let single = PostCollection::new("Single Posts", "", Vec::new());
        let ghost sv = single@;
        let mut posts: Vec<PostCollection> = Vec::new();
        posts.push(single);
        proof {
            reveal_strlit("");
            assert(grabbed_views(Seq::<GrabbedPost>::empty()) =~= Seq::<GrabbedPostView>::empty());
            let c = collection_views(posts@)[0];
            assert(c == sv);
            assert(c.name == single_posts_name());
            assert(c.category =~= Seq::<char>::empty());
            assert(c.posts =~= Seq::<GrabbedPostView>::empty());
            assert(collection_views(posts@) =~~= seq![
                PostCollectionView { name: single_posts_name(), category: Seq::empty(), posts: Seq::empty() },
            ]);
        }
        Grabber {
            posts,
            request_sender,
            blacklist: None,
            safe_mode,
            naming_convention: string_from_str(config.naming_convention()),
        }
    }

    /// All grabbed posts; the first collection holds the single posts.
    pub fn posts(&self) -> (p: &Vec<PostCollection>)
        ensures
            collection_views(p@) == self.spec_posts(),
            self.spec_posts().len() >= 1,
            self.spec_posts()[0].name == single_posts_name(),
            self.spec_posts()[0].category == Seq::<char>::empty(),
    {
        proof {
            use_type_invariant(self);
        }
        &self.posts
    }

    /// The sender the grabber's requests go through.
    pub fn request_sender(&self) -> (r: &RequestSender)
        ensures
            *r == self.spec_sender(),
    {
        &self.request_sender
    }

    /// Sets the blacklist, when it has any line.
    pub fn set_blacklist(&mut self, blacklist: Blacklist)
        requires
            blacklist.checkable(),
        ensures
            final(self).spec_blacklist() == (if blacklist.lines().len() == 0 {
                old(self).spec_blacklist()
            } else {
                Some(blacklist.lines())
            }),
            final(self).spec_posts() == old(self).spec_posts(),
            final(self).spec_sender() == old(self).spec_sender(),
            final(self).spec_safe_mode() == old(self).spec_safe_mode(),
            final(self).spec_convention() == old(self).spec_convention(),
    {
        proof {
            use_type_invariant(&*self);
        }
        if !blacklist.is_empty() {
            self.blacklist = Some(blacklist);
        }
    }

    /// Sets safe mode: only safe posts are grabbed in it.
    pub fn set_safe_mode(&mut self, mode: bool)
        ensures
            final(self).spec_safe_mode() == mode,
            final(self).spec_posts() == old(self).spec_posts(),
            final(self).spec_sender() == old(self).spec_sender(),
            final(self).spec_blacklist() == old(self).spec_blacklist(),
            final(self).spec_convention() == old(self).spec_convention(),
    {
        proof {
            use_type_invariant(&*self);
        }
        self.safe_mode = mode;
    }

    /// Enters safe mode: the urls move to e926 and only safe posts are
    /// grabbed.
    pub fn enter_safe_mode(&mut self)
        ensures
            final(self).spec_safe_mode(),
            final(self).spec_sender().spec_auth() == old(self).spec_sender().spec_auth(),
            final(self).spec_sender().spec_urls() == crate::sender::safe_urls(
                old(self).spec_sender().spec_urls(),
            ),
            final(self).spec_posts() == old(self).spec_posts(),
            final(self).spec_blacklist() == old(self).spec_blacklist(),
            final(self).spec_convention() == old(self).spec_convention(),
    {
        proof {
            use_type_invariant(&*self);
        }
        let mut sender = RequestSender::new(&Login::default());
        std::mem::swap(&mut sender, &mut self.request_sender);
        sender.update_to_safe();
        self.request_sender = sender;
        self.safe_mode = true;
    }

    /// Checks through posts and removes any that the blacklist blacklists,
    /// when the user is authenticated; returns how many were removed.
    pub fn filter_posts_with_blacklist(&self, posts: &mut Vec<PostEntry>) -> (filtered: u16)
        requires
            page_blacklisted(old(posts)@, self.lines(), self.filters()) <= u16::MAX,
        ensures
            final(posts)@ == (if self.filters() {
                keep(old(posts)@, survives_all(self.lines()))
            } else {
                old(posts)@
            }),
            filtered == page_blacklisted(old(posts)@, self.lines(), self.filters()),
    {
        proof {
            use_type_invariant(self);
        }
        if self.request_sender.is_authenticated() {
            if let Some(blacklist) = &self.blacklist {
                return blacklist.filter_posts(posts);
            }
        }
        0
    }

    /// Starts a search for `tag`; it asks for its first page unless the tag
    /// is not identified.
    pub fn start_search(&self, tag: &str, search_type: TagSearchType) -> (s: PostSearch)
        ensures
            s@.wf(),
            s@.tag == tag@,
            s@.search_type == search_type,
            s@.page == 1,
            s@.posts == Seq::<PostEntry>::empty(),
            s@.filtered == 0 && s@.invalid == 0,
            s@.done == (search_type == TagSearchType::NoSearch),
    {
        PostSearch::new(tag, search_type)
    }

    /// Hands the search the page it asked for. An empty page ends it; the
    /// posts of another are filtered with the blacklist, cleared of those
    /// that cannot be downloaded, and gathered last first. A general search
    /// ends after its last page.
    pub fn take_page(&self, search: &mut PostSearch, page: Vec<PostEntry>) -> (r: Result<SearchStep, SearchError>)
        requires
            old(search)@.wf(),
            !old(search)@.done,
        ensures
            page@.len() == 0 ==> r == Ok::<SearchStep, SearchError>(SearchStep::Done) && final(search)@
                == (PostSearchView { done: true, ..old(search)@ }),
            page@.len() > 0 ==> {
                let blk = page_blacklisted(page@, self.lines(), self.filters());
                let inv = page_invalid(page@, self.lines(), self.filters());
                if old(search)@.filtered + blk > u16::MAX || old(search)@.invalid + inv > u16::MAX {
                    r == Err::<SearchStep, SearchError>(SearchError::CounterOverflow)
                } else if old(search)@.page == u16::MAX {
                    r == Err::<SearchStep, SearchError>(SearchError::PageOverflow)
                } else {
                    let next = (old(search)@.page + 1) as u16;
                    let done = old(search)@.search_type == TagSearchType::General && next
                        == POST_SEARCH_LIMIT;
                    &&& final(search)@ == (PostSearchView {
                        page: next,
                        posts: old(search)@.posts + page_yield(page@, self.lines(), self.filters()),
                        filtered: (old(search)@.filtered + blk) as u16,
                        invalid: (old(search)@.invalid + inv) as u16,
                        done,
                        pages: old(search)@.pages.push(page@.len()),
                        ..old(search)@
                    })
                    &&& r == Ok::<SearchStep, SearchError>(final(search)@.step())
                }
            },
            r is Ok ==> final(search)@.wf(),
            r is Err ==> final(search)@ == old(search)@,
    {
        proof {
            use_type_invariant(self);
        }
        if page.len() == 0 {
            self.stop(search);
            return Ok(SearchStep::Done);
        }
        let ghost lines = self.lines();
        let ghost filtering = self.filters();
        let blacklisted: usize = if self.request_sender.is_authenticated() {
            match &self.blacklist {
                Some(blacklist) => blacklist.count_blacklisted(&page),
                None => 0,
            }
        } else {
            0
        };
        if blacklisted > (u16::MAX - search.filtered) as usize {
            return Err(SearchError::CounterOverflow);
        }
        let mut page = page;
        let ghost fetched = page@;
        let filtered = self.filter_posts_with_blacklist(&mut page);
        let ghost passed = page@;
        let invalid = count_invalid_posts(&page);
        if invalid > (u16::MAX - search.invalid) as usize {
            return Err(SearchError::CounterOverflow);
        }
        if search.page == u16::MAX {
            return Err(SearchError::PageOverflow);
        }
        let removed = remove_invalid_posts(&mut page);
        proof {
            lemma_keep_valid(passed);
            lemma_keep_len(passed, valid_posts());
            if filtering {
                lemma_keep_len(fetched, survives_all(lines));
            }
        }
        self.gather(search, page, filtered, removed, Ghost(fetched.len() as nat));
        Ok(search.next_step())
    }

    /// Ends the search.
    fn stop(&self, search: &mut PostSearch)
        requires
            old(search)@.wf(),
        ensures
            final(search)@ == (PostSearchView { done: true, ..old(search)@ }),
    {
        search.done = true;
    }

    /// Gathers what is left of a page into the search and moves it on.
    fn gather(&self, search: &mut PostSearch, page: Vec<PostEntry>, filtered: u16, removed: u16, Ghost(seen): Ghost<nat>)
        requires
            old(search)@.wf(),
            !old(search)@.done,
            old(search)@.page < u16::MAX,
            old(search)@.filtered + filtered <= u16::MAX,
            old(search)@.invalid + removed <= u16::MAX,
            all_valid(page@),
            page@.len() <= seen,
        ensures
            final(search)@ == (PostSearchView {
                page: (old(search)@.page + 1) as u16,
                posts: old(search)@.posts + page@.reverse(),
                filtered: (old(search)@.filtered + filtered) as u16,
                invalid: (old(search)@.invalid + removed) as u16,
                done: old(search)@.search_type == TagSearchType::General && old(search)@.page + 1
                    == POST_SEARCH_LIMIT,
                pages: old(search)@.pages.push(seen),
                ..old(search)@
            }),
            final(search)@.wf(),
    {
        let ghost before = search.posts@;
        let ghost pg = page@;
        let ghost reversed = page@.reverse();
        append_reversed(&mut search.posts, page);
        search.filtered = search.filtered + filtered;
        search.invalid = search.invalid + removed;
        search.page = search.page + 1;
        search.done = search.search_type == TagSearchType::General && search.page == 5;
        proof {
            search.pages@ = search.pages@.push(seen);
            assert(search.pages@.drop_last() =~= old(search)@.pages);
            assert forall|i: int| 0 <= i < search.posts@.len() implies is_valid_post(#[trigger] search.posts@[i]) by {
                if i >= before.len() {
                    assert(search.posts@[i] == reversed[i - before.len()]);
                    assert(reversed[i - before.len()] == pg[pg.len() - 1 - (i - before.len())]);
                }
            }
        }
    }
}

/// The ids of `ids` that some post of `posts` has, in order.
pub open spec fn retained_ids(ids: Seq<i64>, posts: Seq<PostEntry>) -> Seq<i64>
    decreases ids.len(),
{
    if ids.len() == 0 {
        Seq::empty()
    } else if has_id(posts, ids.last()) {
        retained_ids(ids.drop_last(), posts).push(ids.last())
    } else {
        retained_ids(ids.drop_last(), posts)
    }
}

pub proof fn lemma_retained_ids(ids: Seq<i64>, posts: Seq<PostEntry>)
    ensures
        forall|i: int| 0 <= i < retained_ids(ids, posts).len() ==> has_id(posts, #[trigger] retained_ids(ids, posts)[i]),
        distinct_ids(ids) ==> distinct_ids(retained_ids(ids, posts)),
        forall|i: int| 0 <= i < retained_ids(ids, posts).len() ==> ids.contains(#[trigger] retained_ids(ids, posts)[i]),
    decreases ids.len(),
{
    if ids.len() > 0 {
        let init = ids.drop_last();
        lemma_retained_ids(init, posts);
        let r = retained_ids(ids, posts);
        let ri = retained_ids(init, posts);
        assert forall|i: int| 0 <= i < r.len() implies ids.contains(#[trigger] r[i]) by {
            if i < ri.len() {
                assert(r[i] == ri[i]);
                let j = choose|j: int| 0 <= j < init.len() && init[j] == ri[i];
                assert(ids[j] == r[i]);
            } else {
                assert(ids[ids.len() - 1] == r[i]);
            }
        }
        if distinct_ids(ids) {
            assert(distinct_ids(init)) by {
                assert forall|a: int, b: int| 0 <= a < b < init.len() implies init[a] != init[b] by {
                    assert(ids[a] == init[a] && ids[b] == init[b]);
                }
            }
            assert forall|i: int| 0 <= i < ri.len() implies ri[i] != ids.last() by {
                let j = choose|j: int| 0 <= j < init.len() && init[j] == ri[i];
                assert(ids[j] == ri[i]);
            }
        }
    }
}

/// The ids kept are exactly those of `ids` that some post has, in the
/// order of `ids`: `ids` filtered by [has_id].
pub proof fn lemma_retained_ids_filter(ids: Seq<i64>, posts: Seq<PostEntry>)
    ensures
        retained_ids(ids, posts) == ids.filter(|id: i64| has_id(posts, id)),
        forall|id: i64| #[trigger] retained_ids(ids, posts).contains(id) == (ids.contains(id) && has_id(posts, id)),
    decreases ids.len(),
{
    let f = |id: i64| has_id(posts, id);
    reveal(Seq::filter);
    if ids.len() > 0 {
        lemma_retained_ids_filter(ids.drop_last(), posts);
        assert(ids.filter(f) == if f(ids.last()) {
            ids.drop_last().filter(f).push(ids.last())
        } else {
            ids.drop_last().filter(f)
        });
    }
    assert forall|id: i64| #[trigger] retained_ids(ids, posts).contains(id) == (ids.contains(id) && has_id(
        posts,
        id,
    )) by {
        let r = retained_ids(ids, posts);
        lemma_retained_ids(ids, posts);
        if ids.contains(id) && has_id(posts, id) {
            let k = choose|k: int| 0 <= k < ids.len() && ids[k] == id;
            ids.lemma_filter_contains(f, k);
        }
        if r.contains(id) {
            let k = choose|k: int| 0 <= k < r.len() && r[k] == id;
            assert(has_id(posts, r[k]));
            assert(ids.contains(r[k]));
        }
    }
}

/// The ids of `ids` that some post of `posts` has (`Vec::retain`).
pub fn retain_ids(ids: &mut Vec<i64>, posts: &Vec<PostEntry>)
    ensures
        final(ids)@ == retained_ids(old(ids)@, posts@),
{
    let ghost start = ids@;
    let mut kept: Vec<i64> = Vec::new();
    let mut i: usize = 0;
    while i < ids.len()
        invariant
            i <= ids@.len(),
            ids@ == start,
            kept@ == retained_ids(start.take(i as int), posts@),
        decreases ids@.len() - i,
    {
        let id = ids[i];
        let mut found = false;
        let mut j: usize = 0;
        while j < posts.len()
            invariant
                j <= posts@.len(),
                found == exists|k: int| 0 <= k < j && posts@[k].id == id,
            decreases posts@.len() - j,
        {
            if posts[j].id == id {
                found = true;
            }
            j = j + 1;
        }
        assert(start.take(i + 1).drop_last() =~= start.take(i as int));
        assert(start.take(i + 1).last() == id);
        if found {
            kept.push(id);
        }
        i = i + 1;
    }
    assert(start.take(start.len() as int) =~= start);
    *ids = kept;
}

impl Grabber {
    /// Adds the collection `collection` after the others.
    fn add_collection(&mut self, collection: PostCollection)
        ensures
            final(self).spec_posts() == old(self).spec_posts().push(collection@),
            final(self).spec_sender() == old(self).spec_sender(),
            final(self).spec_safe_mode() == old(self).spec_safe_mode(),
            final(self).spec_blacklist() == old(self).spec_blacklist(),
            final(self).spec_convention() == old(self).spec_convention(),
    {
        proof {
            use_type_invariant(&*self);
        }
        proof {
            reveal_strlit("");
        }
        let mut collections: Vec<PostCollection> = Vec::new();
        collections.push(PostCollection::new("Single Posts", "", Vec::new()));
        assert(collections@[0]@.category =~= Seq::<char>::empty());
        std::mem::swap(&mut collections, &mut self.posts);
        let ghost before = collection_views(collections@);
        collections.push(collection);
        assert(collection_views(collections@) =~= before.push(collection@));
        self.posts = collections;
    }

    /// The tag of the user's favorites, when there is a user who wants them.
    pub fn favorites_tag(&self, login: &Login) -> (tag: Option<String>)
        ensures
            (login@.username.len() > 0 && login@.download_favorites) <==> tag is Some,
            tag matches Some(t) ==> t@ == "fav:"@ + login@.username,
    {
        if !login.username().is_empty() && login.download_favorites() {
            let mut tag = string_from_str("fav:");
            tag.append(login.username());
            Some(tag)
        } else {
            None
        }
    }

    /// Grabs the user's favorites, found by searching `tag`.
    pub fn grab_favorites(&mut self, tag: &str, posts: Vec<PostEntry>)
        requires
            all_valid(posts@),
        ensures
            final(self).spec_posts() == old(self).spec_posts().push(
                PostCollectionView {
                    name: tag@,
                    category: Seq::empty(),
                    posts: grabbed(posts@, old(self).spec_convention()),
                },
            ),
            final(self).spec_sender() == old(self).spec_sender(),
            final(self).spec_safe_mode() == old(self).spec_safe_mode(),
            final(self).spec_blacklist() == old(self).spec_blacklist(),
            final(self).spec_convention() == old(self).spec_convention(),
    {
        proof {
            use_type_invariant(&*self);
            reveal_strlit("");
        }
        let grabbed_posts = GrabbedPost::new_vec(posts, self.naming_convention.as_str());
        let collection = PostCollection::new(tag, "", grabbed_posts);
        assert(collection@.category =~= Seq::<char>::empty());
        self.add_collection(collection);
    }

    /// What must be fetched to grab the tag `tag`: its pool, set or post, or
    /// the posts of a search for it.
    pub fn grab_request(&self, tag: &Tag) -> (r: GrabRequest)
        requires
            tag@.tag_type != TagType::Unknown,
        ensures
            match tag@.tag_type {
                TagType::Pool => r matches GrabRequest::Pool(n) && n@ == tag@.name,
                TagType::PostSet => r matches GrabRequest::PostSet(n) && n@ == tag@.name,
                TagType::Post => r matches GrabRequest::Post(n) && n@ == tag@.name,
                _ => r matches GrabRequest::Search(n, t) && n@ == tag@.name && t == tag@.search_type,
            },
    {
        let name = string_from_str(tag.name());
        match tag.tag_type() {
            TagType::Pool => GrabRequest::Pool(name),
            TagType::PostSet => GrabRequest::PostSet(name),
            TagType::Post => GrabRequest::Post(name),
            _ => GrabRequest::Search(name, *tag.search_type()),
        }
    }

    /// Grabs the posts of the general or artist tag `tag`.
    pub fn grab_general(&mut self, tag: &Tag, posts: Vec<PostEntry>)
        requires
            all_valid(posts@),
        ensures
            final(self).spec_posts() == old(self).spec_posts().push(
                PostCollectionView {
                    name: tag@.name,
                    category: "General Searches"@,
                    posts: grabbed(posts@, old(self).spec_convention()),
                },
            ),
            final(self).spec_sender() == old(self).spec_sender(),
            final(self).spec_safe_mode() == old(self).spec_safe_mode(),
            final(self).spec_blacklist() == old(self).spec_blacklist(),
            final(self).spec_convention() == old(self).spec_convention(),
    {
        proof {
            use_type_invariant(&*self);
        }
        let grabbed_posts = GrabbedPost::new_vec(posts, self.naming_convention.as_str());
        self.add_collection(PostCollection::new(tag.name(), "General Searches", grabbed_posts));
    }

    /// Adds a post to the single posts, when it has a url; returns whether
    /// it did.
    pub fn add_single_post(&mut self, entry: PostEntry) -> (added: bool)
        ensures
            added == has_url(entry),
            added ==> final(self).spec_posts() == old(self).spec_posts().update(
                0,
                PostCollectionView {
                    posts: old(self).spec_posts()[0].posts.push(
                        GrabbedPostView {
                            url: post_url(entry),
                            name: post_file_name(entry, old(self).spec_convention()),
                            file_size: entry.file.size,
                        },
                    ),
                    ..old(self).spec_posts()[0]
                },
            ),
            !added ==> final(self).spec_posts() == old(self).spec_posts(),
            final(self).spec_sender() == old(self).spec_sender(),
            final(self).spec_safe_mode() == old(self).spec_safe_mode(),
            final(self).spec_blacklist() == old(self).spec_blacklist(),
            final(self).spec_convention() == old(self).spec_convention(),
    {
        proof {
            use_type_invariant(&*self);
        }
        if entry.file.url.is_none() {
            return false;
        }
        let grabbed_post = GrabbedPost::from_post(&entry, self.naming_convention.as_str());
        proof {
            reveal_strlit("");
        }
        let mut collections: Vec<PostCollection> = Vec::new();
        collections.push(PostCollection::new("Single Posts", "", Vec::new()));
        assert(collections@[0]@.category =~= Seq::<char>::empty());
        std::mem::swap(&mut collections, &mut self.posts);
        let ghost before = collection_views(collections@);
        let mut single = collections.remove(0);
        single.push(grabbed_post);
        collections.insert(0, single);
        assert(collection_views(collections@) =~= before.update(0, single@));
        self.posts = collections;
        true
    }

    /// Grabs the single post `entry`: in safe mode only when it is rated
    /// safe (`s`).
    pub fn grab_post(&mut self, entry: PostEntry) -> (outcome: PostOutcome)
        ensures
            outcome == (if old(self).spec_safe_mode() && entry.rating@ != "s"@ {
                PostOutcome::NotSafe
            } else if !has_url(entry) {
                PostOutcome::NoUrl
            } else {
                PostOutcome::Grabbed
            }),
            outcome == PostOutcome::Grabbed ==> final(self).spec_posts() == old(self).spec_posts().update(
                0,
                PostCollectionView {
                    posts: old(self).spec_posts()[0].posts.push(
                        GrabbedPostView {
                            url: post_url(entry),
                            name: post_file_name(entry, old(self).spec_convention()),
                            file_size: entry.file.size,
                        },
                    ),
                    ..old(self).spec_posts()[0]
                },
            ),
            outcome != PostOutcome::Grabbed ==> final(self).spec_posts() == old(self).spec_posts(),
            final(self).spec_sender() == old(self).spec_sender(),
            final(self).spec_safe_mode() == old(self).spec_safe_mode(),
            final(self).spec_blacklist() == old(self).spec_blacklist(),
            final(self).spec_convention() == old(self).spec_convention(),
    {
        if self.safe_mode && !str_eq(entry.rating.as_str(), "s") {
            return PostOutcome::NotSafe;
        }
        if self.add_single_post(entry) {
            PostOutcome::Grabbed
        } else {
            PostOutcome::NoUrl
        }
    }

    /// The tag that finds the posts of the set `entry`.
    pub fn set_search_tag(entry: &SetEntry) -> (tag: String)
        ensures
            tag@ == "set:"@ + entry.shortname@,
    {
        let mut tag = string_from_str("set:");
        tag.append(entry.shortname.as_str());
        tag
    }

    /// Grabs the posts of the set `entry`.
    pub fn grab_set(&mut self, entry: &SetEntry, posts: Vec<PostEntry>)
        requires
            all_valid(posts@),
        ensures
            final(self).spec_posts() == old(self).spec_posts().push(
                PostCollectionView {
                    name: entry.name@,
                    category: "Sets"@,
                    posts: grabbed(posts@, old(self).spec_convention()),
                },
            ),
            final(self).spec_sender() == old(self).spec_sender(),
            final(self).spec_safe_mode() == old(self).spec_safe_mode(),
            final(self).spec_blacklist() == old(self).spec_blacklist(),
            final(self).spec_convention() == old(self).spec_convention(),
    {
        proof {
            use_type_invariant(&*self);
        }
        let grabbed_posts = GrabbedPost::new_vec(posts, self.naming_convention.as_str());
        self.add_collection(PostCollection::from_set(entry, grabbed_posts));
    }

    /// The tag that finds the posts of the pool `entry`.
    pub fn pool_search_tag(entry: &PoolEntry) -> (tag: String)
        ensures
            tag@ == "pool:"@ + decimal(entry.id as int),
    {
        let mut tag = string_from_str("pool:");
        let id = i64_to_string(entry.id);
        tag.append(id.as_str());
        tag
    }

    /// Grabs the posts of the pool `entry`: the pool's ids are cut down to
    /// those of posts found, the posts are put in the pool's order, and they
    /// are named after the pool and numbered.
    pub fn grab_pool(&mut self, entry: PoolEntry, posts: Vec<PostEntry>)
        requires
            all_valid(posts@),
            retained_ids(entry.post_ids@, posts@).len() <= posts@.len(),
        ensures
            ({
                let ids = retained_ids(entry.post_ids@, posts@);
                let sorted = pool_order(ids, posts@, ids.len() as int);
                &&& final(self).spec_posts() == old(self).spec_posts().push(
                    PostCollectionView { name: entry.name@, category: "Pools"@, posts: grabbed_pool(sorted, entry.name@) },
                )
                &&& sorted.to_multiset() == posts@.to_multiset()
                &&& distinct_ids(entry.post_ids@) ==> forall|i: int|
                    0 <= i < ids.len() ==> #[trigger] sorted[i].id == ids[i]
            }),
            final(self).spec_sender() == old(self).spec_sender(),
            final(self).spec_safe_mode() == old(self).spec_safe_mode(),
            final(self).spec_blacklist() == old(self).spec_blacklist(),
            final(self).spec_convention() == old(self).spec_convention(),
    {
        let ghost ids0 = entry.post_ids@;
        let mut entry = entry;
        let mut posts = posts;
        let ghost start = posts@;
        retain_ids(&mut entry.post_ids, &posts);
        proof {
            lemma_retained_ids(ids0, start);
        }
        sort_pool_by_id(&entry, &mut posts);
        let ghost sorted = posts@;
        proof {
            broadcast use vstd::seq_lib::group_to_multiset_ensures;
            assert forall|i: int| 0 <= i < sorted.len() implies has_url(#[trigger] sorted[i]) by {
                assert(sorted.contains(sorted[i]));
                assert(sorted.to_multiset().count(sorted[i]) > 0);
                assert(start.to_multiset().count(sorted[i]) > 0);
                assert(start.contains(sorted[i]));
            }
        }
        let grabbed_posts = GrabbedPost::new_pool_vec(posts, entry.name.as_str());
        self.add_collection(PostCollection::new(entry.name.as_str(), "Pools", grabbed_posts));
    }
}

} // verus!
