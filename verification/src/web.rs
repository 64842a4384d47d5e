//! The web connector of the API's first version: it searches the posts of a
//! list of tags uploaded since the last run, page after page.

use vstd::prelude::*;
use vstd::string::StringExecFns;

use crate::io::{Config, ConfigView};
use crate::tag::{Tag, TagView};
use crate::text::{decimal, i64_to_string, replace_all, str_replace, string_from_str};

verus! {

/// Time the post was created.
#[derive(Debug)]
pub struct CreatedAt {
    pub json_class: String,
    pub s: i64,
    pub n: i64,
}

/// Post from e621 or e926. Of a deleted post, `source`, `sources`, `md5`,
/// `file_size`, `file_ext`, `preview_width`, `preview_height`, `sample_url`,
/// `sample_width`, `sample_height`, `has_children` and `children` are not
/// usable.
#[derive(Debug)]
pub struct Post {
    /// The ID of the post.
    pub id: i64,
    /// Tags from the post.
    pub tags: String,
    /// Tags that are locked by the admins.
    pub locked_tags: Option<String>,
    /// Description of the post.
    pub description: String,
    /// When the post was uploaded.
    pub created_at: CreatedAt,
    /// User ID of the user who uploaded the post.
    pub creator_id: i64,
    /// Username of the user who uploaded the post.
    pub author: String,
    /// The amount of changes that the post went through since uploaded.
    pub change: i64,
    /// The main source of the work.
    pub source: Option<String>,
    /// How many upvoted or downvoted the post.
    pub score: i64,
    /// How many favorites the post has.
    pub fav_count: i64,
    /// The MD5 hash of the post.
    pub md5: Option<String>,
    /// Size of the source file.
    pub file_size: Option<i64>,
    /// URL of the source file.
    pub file_url: String,
    /// Extension of the source file (png, jpg, webm, gif, etc).
    pub file_ext: Option<String>,
    /// URL for the preview file.
    pub preview_url: String,
    /// Width of the preview file.
    pub preview_width: Option<i64>,
    /// Height of the preview file.
    pub preview_height: Option<i64>,
    /// URL for the sample file.
    pub sample_url: Option<String>,
    /// Width of the sample file.
    pub sample_width: Option<i64>,
    /// Height of the sample file.
    pub sample_height: Option<i64>,
    /// Rating of the post: "s", "q" or "e".
    pub rating: String,
    /// Post status, one of: active, flagged, pending, deleted.
    pub status: String,
    /// Width of image.
    pub width: i64,
    /// Height of image.
    pub height: i64,
    /// If the post has comments.
    pub has_comments: bool,
    /// If the post has notes.
    pub has_notes: bool,
    /// If the post has children.
    pub has_children: Option<bool>,
    /// All of the children attached to post.
    pub children: Option<String>,
    /// If this post is a child, this will be the parent post's ID.
    pub parent_id: Option<i64>,
    /// The artist or artists that drew this image.
    pub artist: Vec<String>,
    /// All the sources for the work.
    pub sources: Option<Vec<String>>,
}

/// The most posts a page of the first API gives.
pub const PAGE_LIMIT: i64 = 1000;

/// The names of `tags`, each followed by a space.
pub open spec fn tag_string(tags: Seq<TagView>) -> Seq<char>
    decreases tags.len(),
{
    if tags.len() == 0 {
        Seq::empty()
    } else {
        tag_string(tags.drop_last()) + tags.last().name + seq![' ']
    }
}

/// Basic web connector for e621.
pub struct EWeb {
    /// Url used for connecting and downloading images.
    pub url: String,
    /// Whether the site is the safe version or not. If true, it will force
    /// connection to e926 instead of e621.
    safe: bool,
    /// Configuration data used for downloading images and tag searches.
    config: Config,
}

impl EWeb {
    pub closed spec fn spec_url(&self) -> Seq<char> {
        self.url@
    }

    pub closed spec fn is_safe(&self) -> bool {
        self.safe
    }

    pub closed spec fn spec_config(&self) -> ConfigView {
        self.config@
    }

    /// Creates new EWeb object for connecting and downloading images.
    pub fn new(config: &Config) -> (web: EWeb)
        ensures
            web.spec_url() == "https://e621.net/post/index.json"@,
            !web.is_safe(),
            web.spec_config() == config@,
    {
        EWeb { url: string_from_str("https://e621.net/post/index.json"), safe: false, config: config.duplicate() }
    }

    /// Sets the site into safe mode so no NSFW images popup in the course of
    /// downloading.
    pub fn set_safe(&mut self)
        ensures
            final(self).is_safe(),
            final(self).spec_url() == replace_all(old(self).spec_url(), "e621"@, "e926"@),
            final(self).spec_config() == old(self).spec_config(),
    {
        self.safe = true;
        self.update_to_safe_url();
    }

    /// Updates the url for safe mode.
    pub fn update_to_safe_url(&mut self)
        ensures
            final(self).spec_url() == replace_all(old(self).spec_url(), "e621"@, "e926"@),
            final(self).is_safe() == old(self).is_safe(),
            final(self).spec_config() == old(self).spec_config(),
    {
        proof {
            reveal_strlit("e621");
        }
        self.url = str_replace(self.url.as_str(), "e621", "e926");
    }

    /// Starts getting the posts of `tags` uploaded on or after `last_run`,
    /// page after page until one comes back empty.
    pub fn get_posts(&self, tags: &Vec<Tag>, last_run: &str) -> (search: EWebSearch)
        ensures
            search@.tags == tag_string(tags@.map_values(|t: Tag| t@)) + "date:>="@ + last_run@,
            search@.page == 1,
            search@.posts == Seq::<Post>::empty(),
            !search@.done,
    {
        let ghost views = tags@.map_values(|t: Tag| t@);
        let mut joined = String::new();
        let mut i: usize = 0;
        while i < tags.len()
            invariant
                i <= tags@.len(),
                views == tags@.map_values(|t: Tag| t@),
                joined@ == tag_string(views.take(i as int)),
            decreases tags@.len() - i,
        {
            joined.append(tags[i].name());
            joined.append(" ");
            proof {
                reveal_strlit(" ");
                assert(views.take(i + 1).drop_last() =~= views.take(i as int));
            }
            i = i + 1;
        }
        assert(views.take(tags@.len() as int) =~= views);
        joined.append("date:>=");
        joined.append(last_run);
        EWebSearch { tags: joined, page: 1, posts: Vec::new(), done: false }
    }
}

/// A search of the first API for posts, one page at a time.
pub struct EWebSearch {
    /// The tags searched, with the date they must be uploaded after.
    tags: String,
    /// The page asked for next.
    page: i32,
    /// The posts gathered.
    posts: Vec<Post>,
    /// Whether a page came back empty.
    done: bool,
}

/// The model of an [EWebSearch].
pub struct EWebSearchView {
    pub tags: Seq<char>,
    pub page: i32,
    pub posts: Seq<Post>,
    pub done: bool,
}

impl View for EWebSearch {
    type V = EWebSearchView;

    closed spec fn view(&self) -> EWebSearchView {
        EWebSearchView { tags: self.tags@, page: self.page, posts: self.posts@, done: self.done }
    }
}

/// The query of a page of the search, as pairs of names and values.
pub open spec fn page_query(tags: Seq<char>, page: i32) -> Seq<(Seq<char>, Seq<char>)> {
    seq![("tags"@, tags), ("page"@, decimal(page as int)), ("limit"@, decimal(PAGE_LIMIT as int))]
}

impl EWebSearch {
    /// Whether the search is over.
    pub fn is_done(&self) -> (b: bool)
        ensures
            b == self@.done,
    {
        self.done
    }

    /// The query of the page asked for next.
    pub fn query(&self) -> (q: Vec<(String, String)>)
        ensures
            crate::sender::url_views(q@) == page_query(self@.tags, self@.page),
    {
        let mut q: Vec<(String, String)> = Vec::new();
        q.push((string_from_str("tags"), string_from_str(self.tags.as_str())));
        q.push((string_from_str("page"), i64_to_string(self.page as i64)));
        q.push((string_from_str("limit"), i64_to_string(PAGE_LIMIT)));
        assert(crate::sender::url_views(q@) =~= page_query(self@.tags, self@.page));
        q
    }

    /// Hands the search the page it asked for: an empty one ends it, the
    /// posts of another are gathered and the next page is asked for. `None`
    /// when the page number outgrows `i32`.
    pub fn receive(&mut self, json: Vec<Post>) -> (r: Option<bool>)
        requires
            !old(self)@.done,
        ensures
            json@.len() == 0 ==> r == Some(false) && final(self)@ == (EWebSearchView {
                done: true,
                ..old(self)@
            }),
            json@.len() > 0 && old(self)@.page == i32::MAX ==> r is None,
            json@.len() > 0 && old(self)@.page < i32::MAX ==> r == Some(true) && final(self)@ == (
            EWebSearchView {
                page: (old(self)@.page + 1) as i32,
                posts: old(self)@.posts + json@,
                ..old(self)@
            }),
    {
        if json.len() == 0 {
            self.done = true;
            return Some(false);
        }
        if self.page == i32::MAX {
            return None;
        }
        let mut json = json;
        self.posts.append(&mut json);
        self.page = self.page + 1;
        Some(true)
    }

    /// The posts gathered.
    pub fn into_posts(self) -> (posts: Vec<Post>)
        ensures
            posts@ == self@.posts,
    {
        self.posts
    }
}

} // verus!
