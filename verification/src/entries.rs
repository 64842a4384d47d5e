//! The entries that the e621/e926 API returns: posts, tags, aliases, sets,
//! pools and users.

use vstd::prelude::*;

use crate::tag::TagType;
use crate::text::views;

verus! {

#[derive(Default, Debug, Clone, PartialEq)]
pub struct AliasEntry {
    pub id: i64,
    pub antecedent_name: String,
    pub reason: String,
    pub creator_id: i64,
    pub created_at: String,
    pub forum_post_id: Option<i64>,
    pub updated_at: Option<String>,
    pub forum_topic_id: Option<i64>,
    pub consequent_name: String,
    pub status: String,
    pub post_count: i64,
    pub approver_id: Option<i64>,
}

#[derive(Default, Debug, Clone, PartialEq)]
pub struct TagEntry {
    pub id: i64,
    pub name: String,
    pub post_count: i64,
    pub related_tags: String,
    pub related_tags_updated_at: String,
    /// The type of tag it is.
    ///
    /// # Important
    /// This tag can be the following types:
    /// `0`: General;
    /// `1`: Artist;
    /// `2`: Nil (This used to be something, but was removed);
    /// `3`: Copyright;
    /// `4`: Character;
    /// `5`: Species;
    pub category: u8,
    pub is_locked: bool,
    pub created_at: String,
    pub updated_at: String,
}

#[derive(Default, Debug, Clone, PartialEq)]
pub struct BulkPostEntry {
    pub posts: Vec<PostEntry>,
}

/// GET return for post entry on e621/e926.
#[derive(Default, Debug, Clone, PartialEq)]
pub struct PostEntry {
    pub id: i64,
    pub created_at: String,
    pub updated_at: Option<String>,
    pub file: File,
    pub preview: Preview,
    pub sample: Sample,
    pub score: Score,
    pub tags: Tags,
    pub locked_tags: Vec<String>,
    pub change_seq: i64,
    pub flags: Flags,
    pub rating: String,
    pub fav_count: i64,
    pub sources: Vec<String>,
    pub pools: Vec<i64>,
    pub relationships: Relationships,
    pub approver_id: Option<i64>,
    pub uploader_id: i64,
    pub description: String,
    pub comment_count: i64,
    pub is_favorited: bool,
}

#[derive(Default, Debug, Clone, PartialEq)]
pub struct File {
    pub width: i64,
    pub height: i64,
    pub ext: String,
    pub size: i64,
    pub md5: String,
    pub url: Option<String>,
}

#[derive(Default, Debug, Clone, PartialEq)]
pub struct Preview {
    pub width: i64,
    pub height: i64,
    pub url: Option<String>,
}

#[derive(Default, Debug, Clone, PartialEq)]
pub struct Sample {
    pub has: Option<bool>,
    pub height: i64,
    pub width: i64,
    pub url: Option<String>,
}

#[derive(Default, Debug, Clone, PartialEq)]
pub struct Score {
    pub up: i64,
    pub down: i64,
    pub total: i64,
}

#[derive(Default, Debug, Clone, PartialEq)]
pub struct Tags {
    pub general: Vec<String>,
    pub species: Vec<String>,
    pub character: Vec<String>,
    pub copyright: Vec<String>,
    pub artist: Vec<String>,
    pub invalid: Vec<String>,
    pub lore: Vec<String>,
    pub meta: Vec<String>,
}

#[derive(Default, Debug, Clone, PartialEq)]
pub struct Flags {
    pub pending: bool,
    pub flagged: bool,
    pub note_locked: bool,
    pub status_locked: Option<bool>,
    pub rating_locked: bool,
    pub deleted: bool,
}

#[derive(Default, Debug, Clone, PartialEq)]
pub struct Relationships {
    pub parent_id: Option<i64>,
    pub has_children: bool,
    pub has_active_children: bool,
    pub children: Vec<i64>,
}

#[derive(Default, Debug, Clone, PartialEq)]
pub struct SetEntry {
    pub id: i64,
    pub created_at: String,
    pub updated_at: String,
    pub creator_id: i64,
    pub is_public: bool,
    pub name: String,
    pub shortname: String,
    pub description: String,
    pub post_count: i64,
    pub transfer_on_delete: bool,
    pub post_ids: Vec<i64>,
}

#[derive(Default, Debug, Clone, PartialEq)]
pub struct PoolEntry {
    pub id: i64,
    pub name: String,
    pub created_at: String,
    pub updated_at: String,
    pub creator_id: i64,
    pub description: String,
    pub is_active: bool,
    pub category: String,
    pub is_deleted: bool,
    pub post_ids: Vec<i64>,
    pub creator_name: String,
    pub post_count: i64,
}

#[derive(Default, Debug, Clone, PartialEq)]
pub struct UserEntry {
    pub wiki_page_version_count: i64,
    pub artist_version_count: i64,
    pub pool_version_count: i64,
    pub forum_post_count: i64,
    pub comment_count: i64,
    pub appeal_count: i64,
    pub flag_count: i64,
    pub positive_feedback_count: i64,
    pub neutral_feedback_count: i64,
    pub negative_feedback_count: i64,
    pub upload_limit: i64,
    pub id: i64,
    pub created_at: String,
    pub name: String,
    pub level: i64,
    pub base_upload_limit: i64,
    pub post_upload_count: i64,
    pub post_update_count: i64,
    pub note_update_count: i64,
    pub is_banned: bool,
    pub can_approve_posts: bool,
    pub can_upload_free: bool,
    pub level_string: String,
    pub show_avatars: Option<bool>,
    pub blacklist_avatars: Option<bool>,
    pub blacklist_users: Option<bool>,
    pub description_collapsed_initially: Option<bool>,
    pub hide_comments: Option<bool>,
    pub show_hidden_comments: Option<bool>,
    pub show_post_statistics: Option<bool>,
    pub has_mail: Option<bool>,
    pub receive_email_notifications: Option<bool>,
    pub enable_keyboard_navigation: Option<bool>,
    pub enable_privacy_mode: Option<bool>,
    pub style_usernames: Option<bool>,
    pub enable_auto_complete: Option<bool>,
    pub has_saved_searches: Option<bool>,
    pub disable_cropped_thumbnails: Option<bool>,
    pub disable_mobile_gestures: Option<bool>,
    pub enable_safe_mode: Option<bool>,
    pub disable_responsive_mode: Option<bool>,
    pub disable_post_tooltips: Option<bool>,
    pub no_flagging: Option<bool>,
    pub no_feedback: Option<bool>,
    pub disable_user_dmails: Option<bool>,
    pub enable_compact_uploader: Option<bool>,
    pub updated_at: Option<String>,
    pub email: Option<String>,
    pub last_logged_in_at: Option<String>,
    pub last_forum_read_at: Option<String>,
    pub recent_tags: Option<String>,
    pub comment_threshold: Option<i64>,
    pub default_image_size: Option<String>,
    pub favorite_tags: Option<String>,
    pub blacklisted_tags: Option<String>,
    pub time_zone: Option<String>,
    pub per_page: Option<i64>,
    pub custom_style: Option<String>,
    pub favorite_count: Option<i64>,
    pub api_regen_multiplier: Option<i64>,
    pub api_burst_limit: Option<i64>,
    pub remaining_api_limit: Option<i64>,
    pub statement_timeout: Option<i64>,
    pub favorite_limit: Option<i64>,
    pub tag_query_limit: Option<i64>,
}

/// Converts `self` to a [TagType].
pub trait ToTagType {
    /// Whether `self` has a type that converts.
    spec fn converts(&self) -> bool;

    /// The [TagType] that `self` converts to.
    spec fn spec_tag_type(&self) -> TagType;

    /// Converts `self` to a [TagType].
    fn to_tag_type(&self) -> (t: TagType)
        requires
            self.converts(),
        ensures
            t == self.spec_tag_type(),
    ;
}

impl ToTagType for TagEntry {
    /// The categories the API gives: `0` general, `1` artist, `3` copyright,
    /// `4` character, `5` species, `6` invalid, `7` meta, `8` lore. `2` is no
    /// longer used.
    open spec fn converts(&self) -> bool {
        self.category == 0 || self.category == 1 || (3 <= self.category <= 8)
    }

    open spec fn spec_tag_type(&self) -> TagType {
        if self.category == 1 {
            TagType::Artist
        } else {
            TagType::General
        }
    }

    /// Constrains the [TagType] to a tag's type specifically: this can only
    /// be [TagType::General] or [TagType::Artist].
    fn to_tag_type(&self) -> (t: TagType) {
        match self.category {
            1 => TagType::Artist,
            _ => TagType::General,
        }
    }
}

impl Tags {
    /// All the tags, category by category: general, species, character,
    /// copyright, artist, invalid, lore, meta.
    pub open spec fn all(self) -> Seq<String> {
        self.general@ + self.species@ + self.character@ + self.copyright@ + self.artist@
            + self.invalid@ + self.lore@ + self.meta@
    }

    pub open spec fn is_empty(self) -> bool {
        &&& self.general@.len() == 0
        &&& self.species@.len() == 0
        &&& self.character@.len() == 0
        &&& self.copyright@.len() == 0
        &&& self.artist@.len() == 0
        &&& self.invalid@.len() == 0
        &&& self.lore@.len() == 0
        &&& self.meta@.len() == 0
    }

    /// Tags emptied by [Tags::combine_tags] hold nothing, so combining them
    /// again is allowed and gives nothing.
    pub proof fn lemma_empty_has_no_tags(self)
        requires
            self.is_empty(),
        ensures
            self.all().len() == 0,
    {
    }

    /// Moves all of the tags into a single array, in category order.
    pub fn combine_tags(&mut self) -> (tags: Vec<String>)
        ensures
            tags@ == old(self).all(),
            final(self).is_empty(),
    {
        let mut tags: Vec<String> = match self.checked_total_len() {
            Some(capacity) => Vec::with_capacity(capacity),
            None => Vec::new(),
        };
        self.append_all_vecs(&mut tags);
        tags
    }

    /// The total number of tags, or `None` where it does not fit in a
    /// `usize`.
    fn checked_total_len(&self) -> (len: Option<usize>)
        ensures
            len matches Some(n) ==> n == self.all().len(),
            len is None ==> self.all().len() > usize::MAX,
    {
        let mut total: usize = self.general.len();
        total = match total.checked_add(self.species.len()) {
            Some(t) => t,
            None => return None,
        };
        total = match total.checked_add(self.character.len()) {
            Some(t) => t,
            None => return None,
        };
        total = match total.checked_add(self.copyright.len()) {
            Some(t) => t,
            None => return None,
        };
        total = match total.checked_add(self.artist.len()) {
            Some(t) => t,
            None => return None,
        };
        total = match total.checked_add(self.invalid.len()) {
            Some(t) => t,
            None => return None,
        };
        total = match total.checked_add(self.lore.len()) {
            Some(t) => t,
            None => return None,
        };
        match total.checked_add(self.meta.len()) {
            Some(t) => Some(t),
            None => None,
        }
    }

    /// The total number of tags.
    pub fn get_total_tags_len(&self) -> (len: usize)
        requires
            self.all().len() <= usize::MAX,
        ensures
            len == self.all().len(),
    {
        let mut len: usize = 0;
        len = len + self.general.len();
        len = len + self.species.len();
        len = len + self.character.len();
        len = len + self.copyright.len();
        len = len + self.artist.len();
        len = len + self.invalid.len();
        len = len + self.lore.len();
        len = len + self.meta.len();
        len
    }

    /// Moves every category, in order, to the end of `dest`.
    pub fn append_all_vecs(&mut self, dest: &mut Vec<String>)
        ensures
            final(dest)@ == old(dest)@ + old(self).all(),
            final(self).is_empty(),
    {
        dest.append(&mut self.general);
        dest.append(&mut self.species);
        dest.append(&mut self.character);
        dest.append(&mut self.copyright);
        dest.append(&mut self.artist);
        dest.append(&mut self.invalid);
        dest.append(&mut self.lore);
        dest.append(&mut self.meta);
        assert(dest@ =~= old(dest)@ + old(self).all());
    }

    /// Whether the post has the tag `name` in any category.
    pub fn has_tag(&self, name: &str) -> (b: bool)
        ensures
            b == views(self.all()).contains(name@),
    {
        let r = Self::list_has(&self.general, name) || Self::list_has(&self.species, name)
            || Self::list_has(&self.character, name) || Self::list_has(&self.copyright, name)
            || Self::list_has(&self.artist, name) || Self::list_has(&self.invalid, name)
            || Self::list_has(&self.lore, name) || Self::list_has(&self.meta, name);
        proof {
            Self::lemma_views_concat(self.general@, self.species@);
            let a1 = self.general@ + self.species@;
            Self::lemma_views_concat(a1, self.character@);
            let a2 = a1 + self.character@;
            Self::lemma_views_concat(a2, self.copyright@);
            let a3 = a2 + self.copyright@;
            Self::lemma_views_concat(a3, self.artist@);
            let a4 = a3 + self.artist@;
            Self::lemma_views_concat(a4, self.invalid@);
            let a5 = a4 + self.invalid@;
            Self::lemma_views_concat(a5, self.lore@);
            let a6 = a5 + self.lore@;
            Self::lemma_views_concat(a6, self.meta@);
        }
        r
    }

    proof fn lemma_views_concat(a: Seq<String>, b: Seq<String>)
        ensures
            forall|x: Seq<char>| views(a + b).contains(x) <==> (views(a).contains(x)
                || views(b).contains(x)),
    {
        assert(views(a + b) =~= views(a) + views(b));
        assert forall|x: Seq<char>| views(a + b).contains(x) <==> (views(a).contains(x)
            || views(b).contains(x)) by {
            let va = views(a);
            let vb = views(b);
            if (va + vb).contains(x) {
                let i = choose|i: int| 0 <= i < (va + vb).len() && (va + vb)[i] == x;
                if i < va.len() {
                    assert(va[i] == x);
                } else {
                    assert(vb[i - va.len()] == x);
                }
            }
            if va.contains(x) {
                let i = choose|i: int| 0 <= i < va.len() && va[i] == x;
                assert((va + vb)[i] == x);
            }
            if vb.contains(x) {
                let i = choose|i: int| 0 <= i < vb.len() && vb[i] == x;
                assert((va + vb)[va.len() + i] == x);
            }
        }
    }

    fn list_has(list: &Vec<String>, name: &str) -> (b: bool)
        ensures
            b == views(list@).contains(name@),
    {
        let mut i: usize = 0;
        while i < list.len()
            invariant
                i <= list.len(),
                forall|k: int| 0 <= k < i ==> list@[k]@ != name@,
            decreases list.len() - i,
        {
            if crate::text::str_eq(list[i].as_str(), name) {
                assert(views(list@)[i as int] == name@);
                return true;
            }
            i = i + 1;
        }
        assert forall|k: int| 0 <= k < views(list@).len() implies views(list@)[k]
            != name@ by {
            assert(views(list@)[k] == list@[k]@);
        }
        false
    }
}

} // verus!
