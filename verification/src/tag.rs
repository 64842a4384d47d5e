//! The tag file: its groups and tags, its parser, and the identification of
//! tags against the API's tag entries.

use vstd::prelude::*;

use crate::entries::{AliasEntry, TagEntry, ToTagType};
use crate::parser::{run_end, trim, trim_str, white_space, BaseParser, CharClass, ParseError, ParseErrorKind, ParseErrorModel};
use crate::text::{
    ascii_digit, char_is_alphanumeric, chars_to_string, contains_char, is_digit, split_on, split_str,
    str_contains_char, str_eq, str_to_chars, unicode_alphanumeric, views,
};

verus! {

/// How a tag is searched.
#[derive(Clone, Copy, Debug, PartialEq, Eq, Structural)]
pub enum TagSearchType {
    /// A general tag: searched only a few pages deep (everything but artists,
    /// and characters with many posts).
    General,
    /// A special tag: searched until no page is left (artists, characters with
    /// few posts, pools, sets and single posts).
    Special,
    /// Not searched: a tag not yet identified.
    NoSearch,
}

/// The type a tag can be.
#[derive(Clone, Copy, Debug, PartialEq, Eq, Structural)]
pub enum TagType {
    Pool,
    PostSet,
    General,
    Artist,
    Post,
    Unknown,
}

/// A character of a tag in the tag file: printable ASCII but `#`, or any other
/// alphanumeric character.
pub open spec fn is_tag_char(c: char) -> bool {
    (' ' <= c && c <= '"') || ('$' <= c && c <= '~') || (c != '#' && unicode_alphanumeric(c))
}

/// A character of a group name: an ASCII letter or `-`.
pub open spec fn is_group_char(c: char) -> bool {
    ('A' <= c && c <= 'Z') || ('a' <= c && c <= 'z') || c == '-'
}

/// A character of a comment: printable ASCII, or any other alphanumeric
/// character.
pub open spec fn is_comment_char(c: char) -> bool {
    (' ' <= c && c <= '~') || unicode_alphanumeric(c)
}

/// Validates character for tag.
pub fn valid_tag(c: char) -> (b: bool)
    ensures
        b == is_tag_char(c),
{
    if (' ' <= c && c <= '"') || ('$' <= c && c <= '~') {
        true
    } else if c != '#' {
        char_is_alphanumeric(c)
    } else {
        false
    }
}

/// Validates character for id.
pub fn valid_id(c: char) -> (b: bool)
    ensures
        b == is_digit(c),
{
    ascii_digit(c)
}

/// Validates character for group.
pub fn valid_group(c: char) -> (b: bool)
    ensures
        b == is_group_char(c),
{
    ('A' <= c && c <= 'Z') || ('a' <= c && c <= 'z') || c == '-'
}

/// Validates character for comment.
pub fn valid_comment(c: char) -> (b: bool)
    ensures
        b == is_comment_char(c),
{
    if ' ' <= c && c <= '~' {
        true
    } else {
        char_is_alphanumeric(c)
    }
}

// ---------------------------------------------------------------------------
// Tags and groups
// ---------------------------------------------------------------------------

/// A tag that contains its name, search type, and tag type.
#[derive(Debug)]
pub struct Tag {
    /// The name of the tag.
    name: String,
    /// The search type of the tag.
    search_type: TagSearchType,
    /// The tag type of the tag.
    tag_type: TagType,
}

/// The model of a [Tag].
pub struct TagView {
    pub name: Seq<char>,
    pub search_type: TagSearchType,
    pub tag_type: TagType,
}

impl View for Tag {
    type V = TagView;

    open spec fn view(&self) -> TagView {
        TagView { name: self.spec_name(), search_type: self.spec_search_type(), tag_type: self.spec_tag_type() }
    }
}

impl Tag {
    pub closed spec fn spec_name(&self) -> Seq<char> {
        self.name@
    }

    pub closed spec fn spec_search_type(&self) -> TagSearchType {
        self.search_type
    }

    pub closed spec fn spec_tag_type(&self) -> TagType {
        self.tag_type
    }

    pub fn new(tag: &str, category: TagSearchType, tag_type: TagType) -> (t: Self)
        ensures
            t@ == (TagView { name: tag@, search_type: category, tag_type }),
    {
        Tag { name: crate::text::string_from_str(tag), search_type: category, tag_type }
    }

    /// The name of the tag.
    pub fn name(&self) -> (n: &str)
        ensures
            n@ == self@.name,
    {
        self.name.as_str()
    }

    /// The search type of the tag.
    pub fn search_type(&self) -> (s: &TagSearchType)
        ensures
            *s == self@.search_type,
    {
        &self.search_type
    }

    /// The tag type of the tag.
    pub fn tag_type(&self) -> (t: &TagType)
        ensures
            *t == self@.tag_type,
    {
        &self.tag_type
    }

    /// Whether the tag still waits for identification against the API (an
    /// artist or general tag just read from the tag file).
    pub fn needs_identification(&self) -> (b: bool)
        ensures
            b == (self@.search_type == TagSearchType::NoSearch),
    {
        self.search_type == TagSearchType::NoSearch
    }
}

impl Default for Tag {
    fn default() -> (t: Self)
        ensures
            t@ == (TagView {
                name: Seq::empty(),
                search_type: TagSearchType::NoSearch,
                tag_type: TagType::Unknown,
            }),
    {
        Tag { name: String::new(), search_type: TagSearchType::NoSearch, tag_type: TagType::Unknown }
    }
}

/// Group object generated from parsed code.
#[derive(Debug)]
pub struct Group {
    /// The name of group.
    name: String,
    /// A [Vec] containing all the tags parsed.
    tags: Vec<Tag>,
}

/// The model of a [Group].
pub struct GroupView {
    pub name: Seq<char>,
    pub tags: Seq<TagView>,
}

impl View for Group {
    type V = GroupView;

    open spec fn view(&self) -> GroupView {
        GroupView { name: self.spec_name(), tags: self.spec_tags().map_values(|t: Tag| t@) }
    }
}

impl Group {
    pub closed spec fn spec_name(&self) -> Seq<char> {
        self.name@
    }

    pub closed spec fn spec_tags(&self) -> Seq<Tag> {
        self.tags@
    }

    pub fn new(name: String) -> (g: Self)
        ensures
            g@.name == name@,
            g@.tags == Seq::<TagView>::empty(),
    {
        let g = Group { name, tags: Vec::new() };
        assert(g@.tags =~= Seq::<TagView>::empty());
        g
    }

    /// The name of group.
    pub fn name(&self) -> (n: &str)
        ensures
            n@ == self@.name,
    {
        self.name.as_str()
    }

    /// A [Vec] containing all the tags parsed.
    pub fn tags(&self) -> (t: &Vec<Tag>)
        ensures
            t@.map_values(|x: Tag| x@) == self@.tags,
    {
        &self.tags
    }

    /// Replaces the tag at `index` (once identified).
    pub fn set_tag(&mut self, index: usize, tag: Tag)
        requires
            index < old(self)@.tags.len(),
        ensures
            final(self)@.name == old(self)@.name,
            final(self)@.tags == old(self)@.tags.update(index as int, tag@),
    {
        let ghost t = tag@;
        self.tags.set(index, tag);
        assert(self@.tags =~= old(self)@.tags.update(index as int, t));
    }
}

// ---------------------------------------------------------------------------
// Grammar of the tag file
// ---------------------------------------------------------------------------

/// The error `kind` at `pos` of `s`, in its column.
pub open spec fn tf_error(s: Seq<char>, kind: ParseErrorKind, pos: int) -> ParseErrorModel {
    ParseErrorModel { kind, pos, column: crate::parser::column_at(s, pos), detail: Seq::empty() }
}

/// The tag starting at `p` in the group `group`, and the position after it.
/// Artist and general tags are read up to a comment or the end of the line
/// and wait for identification; pools, sets and single posts are ids.
pub open spec fn tag_file_tag(s: Seq<char>, p: int, group: Seq<char>) -> Result<(TagView, int), ParseErrorModel> {
    if group == "artists"@ || group == "general"@ {
        let q = run_end(s, p, CharClass::TagFileTag.pred());
        Ok((TagView { name: trim(s.subrange(p, q)), search_type: TagSearchType::NoSearch, tag_type: TagType::Unknown }, q))
    } else {
        let q = run_end(s, p, CharClass::TagFileId.pred());
        let name = trim(s.subrange(p, q));
        if group == "pools"@ {
            Ok((TagView { name, search_type: TagSearchType::Special, tag_type: TagType::Pool }, q))
        } else if group == "sets"@ {
            Ok((TagView { name, search_type: TagSearchType::Special, tag_type: TagType::PostSet }, q))
        } else if group == "single-post"@ {
            Ok((TagView { name, search_type: TagSearchType::Special, tag_type: TagType::Post }, q))
        } else {
            Err(tf_error(s, ParseErrorKind::UnknownTagType, q))
        }
    }
}

/// The tags of the group `group` from `p` on, up to the next group or the end.
pub open spec fn tag_file_tags(s: Seq<char>, p: int, group: Seq<char>) -> Result<(Seq<TagView>, int), ParseErrorModel>
    decreases s.len() - p,
{
    let q = run_end(s, p, white_space());
    if p < 0 || q >= s.len() {
        Ok((Seq::empty(), if p < 0 { p } else { q }))
    } else if s[q] == '#' {
        let c = run_end(s, q, CharClass::TagFileComment.pred());
        if c <= p || c > s.len() {
            Err(tf_error(s, ParseErrorKind::NoProgress, c))
        } else {
            tag_file_tags(s, c, group)
        }
    } else if s[q] == '[' {
        Ok((Seq::empty(), q))
    } else {
        match tag_file_tag(s, q, group) {
            Err(e) => Err(e),
            Ok((t, r)) => if r <= p || r > s.len() {
                Err(tf_error(s, ParseErrorKind::NoProgress, r))
            } else {
                match tag_file_tags(s, r, group) {
                    Err(e) => Err(e),
                    Ok((ts, e)) => Ok((seq![t] + ts, e)),
                }
            },
        }
    }
}

/// The tags of a group run on to the end of the text or to the `[` of the
/// next group: nothing else, a comment in particular, ends them.
pub proof fn lemma_group_tags_end(s: Seq<char>, p: int, group: Seq<char>)
    requires
        0 <= p <= s.len(),
    ensures
        tag_file_tags(s, p, group) matches Ok((ts, e)) ==> e == s.len() || (p <= e < s.len() && s[e] == '['),
    decreases s.len() - p,
{
    let q = run_end(s, p, white_space());
    crate::parser::lemma_run_end_bounds(s, p, white_space());
    if q < s.len() {
        if s[q] == '#' {
            let c = run_end(s, q, CharClass::TagFileComment.pred());
            if p < c <= s.len() {
                lemma_group_tags_end(s, c, group);
            }
        } else if s[q] != '[' {
            if let Ok((t, r)) = tag_file_tag(s, q, group) {
                if p < r <= s.len() {
                    lemma_group_tags_end(s, r, group);
                }
            }
        }
    }
}

/// A comment inside a group is skipped: the group's tags after it are
/// those that follow the comment.
pub proof fn lemma_group_skips_comment(s: Seq<char>, p: int, group: Seq<char>)
    requires
        0 <= p <= s.len(),
        run_end(s, p, white_space()) < s.len(),
        s[run_end(s, p, white_space())] == '#',
        p < run_end(s, run_end(s, p, white_space()), CharClass::TagFileComment.pred()),
    ensures
        tag_file_tags(s, p, group) == tag_file_tags(
            s,
            run_end(s, run_end(s, p, white_space()), CharClass::TagFileComment.pred()),
            group,
        ),
{
    let q = run_end(s, p, white_space());
    crate::parser::lemma_run_end_bounds(s, p, white_space());
    crate::parser::lemma_run_end_bounds(s, q, CharClass::TagFileComment.pred());
}

/// The group whose `[` is at `p`, and the position after its tags.
pub open spec fn tag_file_group(s: Seq<char>, p: int) -> Result<(GroupView, int), ParseErrorModel> {
    let q = run_end(s, p + 1, CharClass::TagFileGroup.pred());
    if q >= s.len() || s[q] != ']' {
        Err(tf_error(s, ParseErrorKind::UnclosedGroup, q))
    } else {
        let name = s.subrange(p + 1, q);
        match tag_file_tags(s, q + 1, name) {
            Err(e) => Err(e),
            Ok((ts, e)) => Ok((GroupView { name, tags: ts }, e)),
        }
    }
}

/// The groups of the tag file from `p` on.
pub open spec fn tag_file_groups(s: Seq<char>, p: int) -> Result<Seq<GroupView>, ParseErrorModel>
    decreases s.len() - p,
{
    let q = run_end(s, p, white_space());
    if p < 0 || q >= s.len() {
        Ok(Seq::empty())
    } else if s[q] == '#' {
        let c = run_end(s, q, CharClass::TagFileComment.pred());
        if c <= p || c > s.len() {
            Err(tf_error(s, ParseErrorKind::NoProgress, c))
        } else {
            tag_file_groups(s, c)
        }
    } else if s[q] == '[' {
        match tag_file_group(s, q) {
            Err(e) => Err(e),
            Ok((g, e)) => if e <= p || e > s.len() {
                Err(tf_error(s, ParseErrorKind::NoProgress, e))
            } else {
                match tag_file_groups(s, e) {
                    Err(err) => Err(err),
                    Ok(gs) => Ok(seq![g] + gs),
                }
            },
        }
    } else {
        Err(tf_error(s, ParseErrorKind::TagsMustBeInGroups, q))
    }
}

/// The groups that the (trimmed) text of a tag file holds.
pub open spec fn parse_tag_file_text(s: Seq<char>) -> Result<Seq<GroupView>, ParseErrorModel> {
    tag_file_groups(s, 0)
}

pub open spec fn groups_view(gs: Seq<Group>) -> Seq<GroupView> {
    gs.map_values(|g: Group| g@)
}

pub open spec fn tags_view(ts: Seq<Tag>) -> Seq<TagView> {
    ts.map_values(|t: Tag| t@)
}

// ---------------------------------------------------------------------------
// Parser of the tag file
// ---------------------------------------------------------------------------

/// Parser that reads a tag file and parses the tags.
pub struct TagParser {
    /// Low-level parser for parsing raw data.
    pub parser: BaseParser,
}

impl TagParser {
    /// A parser for the text of a tag file.
    pub fn new(text: String) -> (p: Self)
        ensures
            p.parser.wf(),
            p.parser.cursor() == 0,
            p.parser.text() == trim(text@),
    {
        TagParser { parser: BaseParser::new(text) }
    }

    /// Parses each group with all tags tied to them before returning a vector
    /// with all groups in it.
    pub fn parse_groups(&mut self) -> (r: Result<Vec<Group>, ParseError>)
        requires
            old(self).parser.wf(),
        ensures
            match tag_file_groups(old(self).parser.text(), old(self).parser.cursor()) {
                Ok(gs) => r matches Ok(groups) && groups_view(groups@) == gs,
                Err(e) => r matches Err(err) && err.model() == e,
            },
    {
        let ghost s = self.parser.text();
        let ghost p0 = self.parser.cursor();
        let mut groups: Vec<Group> = Vec::new();
        loop
            invariant_except_break
                tag_file_groups(s, p0) == (match tag_file_groups(s, self.parser.cursor()) {
                    Ok(gs) => Ok(groups_view(groups@) + gs),
                    Err(e) => Err(e),
                }),
            invariant
                self.parser.wf(),
                self.parser.text() == s,
                s == old(self).parser.text(),
                p0 == old(self).parser.cursor(),
                0 <= p0,
            ensures
                tag_file_groups(s, p0) == Ok::<Seq<GroupView>, ParseErrorModel>(groups_view(groups@)),
            decreases s.len() - self.parser.cursor(),
        {
            let p = self.parser.pos();
            let ghost acc = groups_view(groups@);
            self.parser.consume_whitespace();
            if self.parser.eof() {
                assert(acc + Seq::<GroupView>::empty() =~= acc);
                break;
            }
            if self.check_and_parse_comment() {
                if self.parser.pos() <= p {
                    return Err(self.parser.report_error(ParseErrorKind::NoProgress, String::new()));
                }
                continue;
            }
            if self.parser.next_is('[') {
                match self.parse_group() {
                    Err(e) => {
                        return Err(e);
                    },
                    Ok(group) => {
                        if self.parser.pos() <= p {
                            return Err(self.parser.report_error(ParseErrorKind::NoProgress, String::new()));
                        }
                        let ghost g = group@;
                        groups.push(group);
                        assert(groups_view(groups@) =~= acc.push(g));
                        proof {
                            match tag_file_groups(s, self.parser.cursor()) {
                                Ok(gs) => {
                                    assert(acc + (seq![g] + gs) =~= acc.push(g) + gs);
                                },
                                Err(_) => {},
                            }
                        }
                    },
                }
            } else {
                return Err(self.parser.report_error(ParseErrorKind::TagsMustBeInGroups, String::new()));
            }
        }
        Ok(groups)
    }

    /// Parses a group (the cursor on its `[`) and all tags tied to it.
    pub fn parse_group(&mut self) -> (r: Result<Group, ParseError>)
        requires
            old(self).parser.wf(),
            old(self).parser.cursor() < old(self).parser.text().len(),
            old(self).parser.text()[old(self).parser.cursor()] == '[',
        ensures
            final(self).parser.wf(),
            final(self).parser.text() == old(self).parser.text(),
            match tag_file_group(old(self).parser.text(), old(self).parser.cursor()) {
                Ok((g, e)) => r matches Ok(group) && group@ == g && final(self).parser.cursor() == e,
                Err(e) => r matches Err(err) && err.model() == e,
            },
    {
        self.parser.consume_char();
        let group_name = self.parser.consume_while(CharClass::TagFileGroup);
        if self.parser.eof() || self.parser.next_char() != ']' {
            return Err(self.parser.report_error(ParseErrorKind::UnclosedGroup, String::new()));
        }
        self.parser.consume_char();
        let mut group = Group::new(group_name);
        match self.parse_tags(&mut group) {
            Ok(()) => Ok(group),
            Err(e) => Err(e),
        }
    }

    /// Parses all tags for a group and stores them in it.
    pub fn parse_tags(&mut self, group: &mut Group) -> (r: Result<(), ParseError>)
        requires
            old(self).parser.wf(),
        ensures
            final(self).parser.wf(),
            final(self).parser.text() == old(self).parser.text(),
            match tag_file_tags(old(self).parser.text(), old(self).parser.cursor(), old(group)@.name) {
                Ok((ts, e)) => r is Ok && final(group)@.tags == ts && final(group)@.name == old(group)@.name
                    && final(self).parser.cursor() == e,
                Err(e) => r matches Err(err) && err.model() == e,
            },
    {
        let ghost s = self.parser.text();
        let ghost p0 = self.parser.cursor();
        let ghost name = group@.name;
        let mut tags: Vec<Tag> = Vec::new();
        loop
            invariant_except_break
                tag_file_tags(s, p0, name) == (match tag_file_tags(s, self.parser.cursor(), name) {
                    Ok((ts, e)) => Ok((tags_view(tags@) + ts, e)),
                    Err(e) => Err(e),
                }),
            invariant
                self.parser.wf(),
                self.parser.text() == s,
                s == old(self).parser.text(),
                p0 == old(self).parser.cursor(),
                name == old(group)@.name,
                group@.name == name,
                0 <= p0 <= self.parser.cursor(),
            ensures
                tag_file_tags(s, p0, name) == Ok::<(Seq<TagView>, int), ParseErrorModel>((tags_view(tags@), self.parser.cursor())),
            decreases s.len() - self.parser.cursor(),
        {
            let p = self.parser.pos();
            let ghost acc = tags_view(tags@);
            self.parser.consume_whitespace();
            if self.check_and_parse_comment() {
                if self.parser.pos() <= p {
                    return Err(self.parser.report_error(ParseErrorKind::NoProgress, String::new()));
                }
                continue;
            }
            if self.parser.next_is('[') {
                assert(acc + Seq::<TagView>::empty() =~= acc);
                break;
            }
            if self.parser.eof() {
                assert(acc + Seq::<TagView>::empty() =~= acc);
                break;
            }
            match self.parse_tag(group.name()) {
                Err(e) => {
                    return Err(e);
                },
                Ok(tag) => {
                    if self.parser.pos() <= p {
                        return Err(self.parser.report_error(ParseErrorKind::NoProgress, String::new()));
                    }
                    let ghost t = tag@;
                    tags.push(tag);
                    assert(tags_view(tags@) =~= acc.push(t));
                    proof {
                        match tag_file_tags(s, self.parser.cursor(), name) {
                            Ok((ts, e)) => {
                                assert(acc + (seq![t] + ts) =~= acc.push(t) + ts);
                            },
                            Err(_) => {},
                        }
                    }
                },
            }
        }
        group.tags = tags;
        Ok(())
    }

    /// Parses a single tag of the group `group_name`.
    pub fn parse_tag(&mut self, group_name: &str) -> (r: Result<Tag, ParseError>)
        requires
            old(self).parser.wf(),
        ensures
            final(self).parser.wf(),
            final(self).parser.text() == old(self).parser.text(),
            match tag_file_tag(old(self).parser.text(), old(self).parser.cursor(), group_name@) {
                Ok((t, e)) => r matches Ok(tag) && tag@ == t && final(self).parser.cursor() == e,
                Err(e) => r matches Err(err) && err.model() == e,
            },
    {
        if str_eq(group_name, "artists") || str_eq(group_name, "general") {
            let tag = self.parser.consume_while(CharClass::TagFileTag);
            let name = trim_str(tag.as_str());
            Ok(Tag::new(name.as_str(), TagSearchType::NoSearch, TagType::Unknown))
        } else {
            let tag = self.parser.consume_while(CharClass::TagFileId);
            let name = trim_str(tag.as_str());
            let tag_type = if str_eq(group_name, "pools") {
                TagType::Pool
            } else if str_eq(group_name, "sets") {
                TagType::PostSet
            } else if str_eq(group_name, "single-post") {
                TagType::Post
            } else {
                return Err(self.parser.report_error(ParseErrorKind::UnknownTagType, String::new()));
            };
            Ok(Tag::new(name.as_str(), TagSearchType::Special, tag_type))
        }
    }

    /// Checks if the next character starts a comment, and skips the comment
    /// if it does.
    pub fn check_and_parse_comment(&mut self) -> (b: bool)
        requires
            old(self).parser.wf(),
        ensures
            final(self).parser.wf(),
            final(self).parser.text() == old(self).parser.text(),
            b == (old(self).parser.cursor() < old(self).parser.text().len()
                && old(self).parser.text()[old(self).parser.cursor()] == '#'),
            b ==> final(self).parser.cursor() == run_end(
                old(self).parser.text(),
                old(self).parser.cursor(),
                CharClass::TagFileComment.pred(),
            ),
            !b ==> final(self).parser.cursor() == old(self).parser.cursor(),
    {
        if self.parser.next_is('#') {
            self.parse_comment();
            return true;
        }
        false
    }

    /// Skips over a comment.
    pub fn parse_comment(&mut self)
        requires
            old(self).parser.wf(),
        ensures
            final(self).parser.wf(),
            final(self).parser.text() == old(self).parser.text(),
            final(self).parser.cursor() == run_end(
                old(self).parser.text(),
                old(self).parser.cursor(),
                CharClass::TagFileComment.pred(),
            ),
    {
        let _ = self.parser.consume_while(CharClass::TagFileComment);
    }
}

/// Parses the text of a tag file into its groups. Artist and general tags
/// come out waiting for identification ([Tag::needs_identification]).
pub fn parse_tag_file(text: String) -> (r: Result<Vec<Group>, ParseError>)
    ensures
        match parse_tag_file_text(trim(text@)) {
            Ok(gs) => r matches Ok(groups) && groups_view(groups@) == gs,
            Err(e) => r matches Err(err) && err.model() == e,
        },
{
    let mut parser = TagParser::new(text);
    parser.parse_groups()
}

// ---------------------------------------------------------------------------
// Identification of artist and general tags
// ---------------------------------------------------------------------------

/// The number of posts above which a character tag is searched as a general
/// tag rather than in full.
pub const CHARACTER_POST_LIMIT: i64 = 1500;

/// The category the API gives character tags.
pub const CHARACTER_CATEGORY: u8 = 4;

/// How a tag entry is searched: artists in full; characters in full unless
/// they have more than [CHARACTER_POST_LIMIT] posts; everything else as a
/// general tag.
pub open spec fn entry_search_type(entry: TagEntry) -> TagSearchType {
    if entry.category == 1 {
        TagSearchType::Special
    } else if entry.category == CHARACTER_CATEGORY {
        if entry.post_count > CHARACTER_POST_LIMIT {
            TagSearchType::General
        } else {
            TagSearchType::Special
        }
    } else {
        TagSearchType::General
    }
}

/// Artists are searched in full; characters in full up to 1,500 posts and
/// as general tags beyond; general, copyright, species, invalid, meta and
/// lore tags as general tags.
pub proof fn lemma_tag_categories(entry: TagEntry)
    requires
        entry.converts(),
    ensures
        entry.category == 1 ==> entry_search_type(entry) == TagSearchType::Special && entry.spec_tag_type()
            == TagType::Artist,
        entry.category == 4 ==> (entry_search_type(entry) == TagSearchType::General <==> entry.post_count
            > 1500),
        entry.category != 1 && entry.category != 4 ==> entry_search_type(entry) == TagSearchType::General,
        entry.category != 1 ==> entry.spec_tag_type() == TagType::General,
        entry_search_type(entry) != TagSearchType::NoSearch,
{
}

/// The tag for the line `tags` that the entry `entry` identifies.
pub open spec fn entry_tag(tags: Seq<char>, entry: TagEntry) -> TagView {
    TagView { name: tags, search_type: entry_search_type(entry), tag_type: entry.spec_tag_type() }
}

/// Processes the tag type and creates the appropriate tag for it.
pub fn create_tag(tags: &str, tag_entry: &TagEntry) -> (t: Tag)
    requires
        tag_entry.converts(),
    ensures
        t@ == entry_tag(tags@, *tag_entry),
{
    let tag_type = tag_entry.to_tag_type();
    let category = match tag_type {
        TagType::Artist => TagSearchType::Special,
        _ => {
            if tag_entry.category == CHARACTER_CATEGORY {
                if tag_entry.post_count > CHARACTER_POST_LIMIT {
                    TagSearchType::General
                } else {
                    TagSearchType::Special
                }
            } else {
                TagSearchType::General
            }
        },
    };
    Tag::new(tags, category, tag_type)
}

pub open spec fn dash() -> spec_fn(char) -> bool {
    |c: char| c == '-'
}

/// `s` without its leading `-` characters (`trim_start_matches('-')`).
pub open spec fn without_dashes(s: Seq<char>) -> Seq<char> {
    s.skip(run_end(s, 0, dash()))
}

/// The names to look up for the line `tags`: each word (split at each
/// space) without its leading `-` (a negation).
pub open spec fn lookup_names(tags: Seq<char>) -> Seq<Seq<char>> {
    split_on(tags, ' ').map_values(|w: Seq<char>| without_dashes(w))
}

/// Returns `s` without its leading `-` characters.
pub fn trim_dashes(s: &str) -> (r: String)
    ensures
        r@ == without_dashes(s@),
{
    let chars = str_to_chars(s);
    let ghost f = dash();
    let mut i: usize = 0;
    proof {
        crate::parser::lemma_run_end_bounds(s@, 0, f);
    }
    while i < chars.len() && chars[i] == '-'
        invariant
            chars@ == s@,
            i <= chars.len(),
            f == dash(),
            run_end(s@, 0, f) == run_end(s@, i as int, f),
        decreases chars.len() - i,
    {
        proof {
            assert(f(s@[i as int]));
            crate::parser::lemma_run_end_step(s@, i as int, i + 1, f);
        }
        i = i + 1;
    }
    assert(run_end(s@, i as int, f) == i);
    chars_to_string(&chars, i, chars.len())
}

/// What the identifier asks to be fetched from the API.
#[derive(Debug)]
pub enum IdRequest {
    /// The tag entries named so (`get_tags_by_name`).
    TagsByName(String),
    /// The aliases matching the name (`query_aliases`).
    Aliases(String),
}

/// The identifier's answer to what it was handed.
#[derive(Debug)]
pub enum IdStep {
    /// Fetch this, then hand the answer back.
    Fetch(IdRequest),
    /// The line is identified as this tag.
    Identified(Tag),
    /// This name is neither a tag, an alias nor a special (`name:value`)
    /// tag: the line cannot be searched.
    Invalid(String),
}

/// Which answer the identifier waits for.
#[derive(Clone, Copy, Debug, PartialEq, Eq, Structural)]
pub enum IdPhase {
    /// The tags named as the current word.
    Direct,
    /// The aliases of the current word.
    Alias,
    /// The tags named as the alias the current word stands for.
    Consequent,
}

/// The model of an [IdStep].
pub enum IdStepView {
    FetchTags(Seq<char>),
    FetchAliases(Seq<char>),
    Identified(TagView),
    Invalid(Seq<char>),
}

impl IdStep {
    pub open spec fn view(&self) -> IdStepView {
        match self {
            IdStep::Fetch(IdRequest::TagsByName(n)) => IdStepView::FetchTags(n@),
            IdStep::Fetch(IdRequest::Aliases(n)) => IdStepView::FetchAliases(n@),
            IdStep::Identified(t) => IdStepView::Identified(t@),
            IdStep::Invalid(n) => IdStepView::Invalid(n@),
        }
    }
}

/// Identifies an artist or general line of the tag file against the API,
/// one word at a time: the first word whose entry makes a special tag
/// decides; a line with none is searched as a general tag. A word without a
/// tag entry is looked up as an alias; one without either is skipped when it
/// is a special tag (`name:value`) and makes the line invalid otherwise.
pub struct TagIdentifier {
    /// The line being identified.
    tags: String,
    /// The names to look up, one per word.
    names: Vec<String>,
    /// The word being looked up.
    index: usize,
    /// The answer waited for.
    phase: IdPhase,
}

impl TagIdentifier {
    pub closed spec fn line(&self) -> Seq<char> {
        self.tags@
    }

    pub closed spec fn names(&self) -> Seq<Seq<char>> {
        views(self.names@)
    }

    pub closed spec fn index(&self) -> int {
        self.index as int
    }

    pub closed spec fn phase(&self) -> IdPhase {
        self.phase
    }

    /// The names are those of the line, and the current word is one of them.
    pub open spec fn wf(&self) -> bool {
        &&& self.names() == lookup_names(self.line())
        &&& 0 <= self.index() < self.names().len()
    }

    /// The current name.
    pub open spec fn current(&self) -> Seq<char> {
        self.names()[self.index()]
    }

    /// The step after the current word was skipped: the next word's lookup, or
    /// a general tag for the whole line when no word is left.
    pub open spec fn after_word(&self) -> IdStepView {
        if self.index() + 1 < self.names().len() {
            IdStepView::FetchTags(self.names()[self.index() + 1])
        } else {
            IdStepView::Identified(
                TagView { name: self.line(), search_type: TagSearchType::General, tag_type: TagType::General },
            )
        }
    }

    /// Starts identifying the line `tags`; the step says what to fetch first.
    pub fn new(tags: &str) -> (r: (Self, IdStep))
        ensures
            r.0.wf(),
            r.0.line() == tags@,
            r.0.index() == 0,
            r.0.phase() == IdPhase::Direct,
            r.1@ == IdStepView::FetchTags(r.0.names()[0]),
    {
        let words = split_str(tags, ' ');
        let mut names: Vec<String> = Vec::new();
        let mut i: usize = 0;
        while i < words.len()
            invariant
                i <= words.len(),
                views(words@) == split_on(tags@, ' '),
                views(names@) == lookup_names(tags@).take(i as int),
            decreases words.len() - i,
        {
            let name = trim_dashes(words[i].as_str());
            let ghost before = views(names@);
            names.push(name);
            assert(views(names@) =~= before.push(name@));
            assert(lookup_names(tags@).take(i + 1) =~= lookup_names(tags@).take(i as int).push(
                without_dashes(views(words@)[i as int]),
            ));
            i = i + 1;
        }
        proof {
            crate::text::lemma_split_on_nonempty(tags@, ' ');
        }
        assert(lookup_names(tags@).take(words.len() as int) =~= lookup_names(tags@));
        let first = crate::text::string_from_str(names[0].as_str());
        let identifier = TagIdentifier {
            tags: crate::text::string_from_str(tags),
            names,
            index: 0,
            phase: IdPhase::Direct,
        };
        (identifier, IdStep::Fetch(IdRequest::TagsByName(first)))
    }

    /// The answer waited for.
    pub fn phase_waited(&self) -> (p: IdPhase)
        ensures
            p == self.phase(),
    {
        self.phase
    }

    /// Moves past the current word.
    fn skip_word(&mut self) -> (step: IdStep)
        requires
            old(self).wf(),
        ensures
            old(self).index() + 1 < old(self).names().len() ==> final(self).wf() && final(self).index()
                == old(self).index() + 1,
            final(self).line() == old(self).line(),
            final(self).names() == old(self).names(),
            final(self).phase() == IdPhase::Direct,
            step@ == old(self).after_word(),
    {
        self.phase = IdPhase::Direct;
        assert(self.names@.len() == self.names().len());
        if self.index < self.names.len() - 1 {
            self.index = self.index + 1;
            let next = crate::text::string_from_str(self.names[self.index].as_str());
            IdStep::Fetch(IdRequest::TagsByName(next))
        } else {
            IdStep::Identified(Tag::new(self.tags.as_str(), TagSearchType::General, TagType::General))
        }
    }

    /// Takes the entry that identifies the current word: a special tag ends
    /// the identification, any other tag moves on to the next word.
    fn take_entry(&mut self, entry: &TagEntry) -> (step: IdStep)
        requires
            old(self).wf(),
            entry.converts(),
        ensures
            final(self).line() == old(self).line(),
            final(self).names() == old(self).names(),
            final(self).phase() == IdPhase::Direct,
            entry_search_type(*entry) == TagSearchType::Special ==> step@ == IdStepView::Identified(
                entry_tag(old(self).line(), *entry),
            ) && final(self).index() == old(self).index(),
            entry_search_type(*entry) != TagSearchType::Special ==> step@ == old(self).after_word()
                && (old(self).index() + 1 < old(self).names().len() ==> final(self).wf()
                && final(self).index() == old(self).index() + 1),
    {
        let tag = create_tag(self.tags.as_str(), entry);
        if tag.search_type == TagSearchType::Special {
            self.phase = IdPhase::Direct;
            IdStep::Identified(tag)
        } else {
            self.skip_word()
        }
    }

    /// Hands over the tag entries fetched for [IdStep::Fetch] of
    /// [IdRequest::TagsByName]. When they were fetched for an alias, the
    /// alias's tag must exist.
    pub fn receive_tags(&mut self, entries: Vec<TagEntry>) -> (step: IdStep)
        requires
            old(self).wf(),
            old(self).phase() != IdPhase::Alias,
            old(self).phase() == IdPhase::Consequent ==> entries@.len() > 0,
            entries@.len() > 0 ==> entries@[0].converts(),
        ensures
            final(self).line() == old(self).line(),
            final(self).names() == old(self).names(),
            entries@.len() > 0 ==> {
                let t = entry_tag(old(self).line(), entries@[0]);
                &&& final(self).phase() == IdPhase::Direct
                &&& t.search_type == TagSearchType::Special ==> step@ == IdStepView::Identified(t)
                &&& t.search_type != TagSearchType::Special ==> step@ == old(self).after_word()
            },
            entries@.len() == 0 ==> final(self).phase() == IdPhase::Alias && final(self).index()
                == old(self).index() && step@ == IdStepView::FetchAliases(old(self).current()),
            step@ is FetchTags || step@ is FetchAliases ==> final(self).wf(),
            step@ is FetchTags ==> final(self).index() == old(self).index() + 1,
    {
        if entries.len() > 0 {
            self.take_entry(&entries[0])
        } else {
            self.phase = IdPhase::Alias;
            let name = crate::text::string_from_str(self.names[self.index].as_str());
            IdStep::Fetch(IdRequest::Aliases(name))
        }
    }

    /// Hands over the aliases fetched for [IdStep::Fetch] of
    /// [IdRequest::Aliases] (`None` when the API had none to give). An empty
    /// list means the word is no alias, as `None` does; otherwise the first
    /// alias's tag is looked up.
    pub fn receive_aliases(&mut self, aliases: Option<Vec<AliasEntry>>) -> (step: IdStep)
        requires
            old(self).wf(),
            old(self).phase() == IdPhase::Alias,
        ensures
            final(self).line() == old(self).line(),
            final(self).names() == old(self).names(),
            match aliases {
                Some(v) if v@.len() > 0 => step@ == IdStepView::FetchTags(v@[0].consequent_name@)
                    && final(self).phase() == IdPhase::Consequent && final(self).index() == old(self).index(),
                _ => if contains_char(old(self).current(), ':') {
                    step@ == old(self).after_word() && final(self).phase() == IdPhase::Direct
                } else {
                    step@ == IdStepView::Invalid(old(self).current())
                },
            },
            step@ is FetchTags && !(aliases matches Some(v) && v@.len() > 0) ==> final(self).index()
                == old(self).index() + 1,
            step@ is FetchTags ==> final(self).wf(),
    {
        let found = match &aliases {
            Some(v) => v.len() > 0,
            None => false,
        };
        if found {
            let v = aliases.unwrap();
            self.phase = IdPhase::Consequent;
            let name = crate::text::string_from_str(v[0].consequent_name.as_str());
            IdStep::Fetch(IdRequest::TagsByName(name))
        } else if str_contains_char(self.names[self.index].as_str(), ':') {
            self.skip_word()
        } else {
            let name = crate::text::string_from_str(self.names[self.index].as_str());
            IdStep::Invalid(name)
        }
    }
}

} // verus!
