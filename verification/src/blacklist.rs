//! The user's blacklist: its parser, and the worker that flags the posts it
//! blacklists.

use vstd::prelude::*;

use crate::parser::{
    lemma_run_end_bounds, run_end, trim, white_space, BaseParser, CharClass, ParseError,
    ParseErrorKind, ParseErrorModel,
};
use crate::entries::PostEntry;
use crate::text::{decimal, i64_to_string, lemma_decimal_roundtrip,
    ascii_digit, ascii_letter, char_is_alphanumeric, is_ascii_letter, is_digit, parse_i32,
    parse_i64, str_eq, str_parse_i32, str_parse_i64, str_to_lowercase, unicode_alphanumeric,
    unicode_lowercase,
};

verus! {

/// A character of a blacklist tag: printable ASCII but `:` and space, or any
/// other alphanumeric character.
pub open spec fn is_tag_char(c: char) -> bool {
    ('!' <= c && c <= '9') || (';' <= c && c <= '~') || (c != ':' && unicode_alphanumeric(c))
}

/// A character of a blacklisted user name (the same class as a tag).
pub open spec fn is_user_char(c: char) -> bool {
    is_tag_char(c)
}

/// A character of a score comparison: `<`, `>` or `=`.
pub open spec fn is_order_char(c: char) -> bool {
    c == '<' || c == '>' || c == '='
}

/// Validates character for tag.
pub fn valid_tag(c: char) -> (b: bool)
    ensures
        b == is_tag_char(c),
{
    if ('!' <= c && c <= '9') || (';' <= c && c <= '~') {
        true
    } else if c != ':' {
        char_is_alphanumeric(c)
    } else {
        false
    }
}

/// Validates character for user.
pub fn valid_user(c: char) -> (b: bool)
    ensures
        b == is_user_char(c),
{
    if ('!' <= c && c <= '9') || (';' <= c && c <= '~') {
        true
    } else if c != ':' {
        char_is_alphanumeric(c)
    } else {
        false
    }
}

/// Validates character for rating.
pub fn valid_rating(c: char) -> (b: bool)
    ensures
        b == is_ascii_letter(c),
{
    ascii_letter(c)
}

/// Validates character for ordering.
pub fn valid_ordering(c: char) -> (b: bool)
    ensures
        b == is_order_char(c),
{
    c == '<' || c == '>' || c == '='
}

/// Validates character for score.
pub fn valid_score(c: char) -> (b: bool)
    ensures
        b == is_digit(c),
{
    ascii_digit(c)
}

/// Validates character for id.
pub fn valid_id(c: char) -> (b: bool)
    ensures
        b == is_digit(c),
{
    ascii_digit(c)
}


// ---------------------------------------------------------------------------
// Tokens
// ---------------------------------------------------------------------------

/// Each possible option from `rating:` being in the blacklist.
#[derive(Clone, Copy, Debug, PartialEq, Eq, Structural)]
pub enum Rating {
    /// No rating.
    NoRating,
    /// Safe rating.
    Safe,
    /// Questionable rating.
    Questionable,
    /// Explicit rating.
    Explicit,
}

/// How a blacklisted score is compared: `<` is `Less`, `>=` is `Greater`, and
/// anything else is `Equal`, which blacklists nothing.
#[derive(Clone, Copy, Debug, PartialEq, Eq, Structural)]
pub enum ScoreOrdering {
    Less,
    Equal,
    Greater,
}

/// What type a [TagToken] is.
#[derive(Debug)]
pub enum TagType {
    /// A post rating type.
    Rating(Rating),
    /// A post id type.
    Id(Option<i64>),
    /// A user type, holding the user name.
    User(Option<String>),
    /// The blacklisted score.
    Score(ScoreOrdering, i32),
    /// No type: a plain tag.
    Plain,
}

/// The model of a [TagType].
pub enum TagKind {
    Rating(Rating),
    Id(Option<i64>),
    User(Option<Seq<char>>),
    Score(ScoreOrdering, i32),
    Plain,
}

impl View for TagType {
    type V = TagKind;

    open spec fn view(&self) -> TagKind {
        match self {
            TagType::Rating(r) => TagKind::Rating(*r),
            TagType::Id(i) => TagKind::Id(*i),
            TagType::User(u) => TagKind::User(
                match u {
                    Some(name) => Some(name@),
                    None => None,
                },
            ),
            TagType::Score(o, s) => TagKind::Score(*o, *s),
            TagType::Plain => TagKind::Plain,
        }
    }
}

/// Tag token that contains essential information about what is blacklisted.
#[derive(Debug)]
pub struct TagToken {
    /// If the tag is negated or not.
    pub negated: bool,
    /// What the tag tests.
    pub tag_type: TagType,
    /// The tag (for special tags, the name before the colon, or the user id
    /// once cached).
    pub name: String,
}

/// The model of a [TagToken].
pub struct TagModel {
    pub negated: bool,
    pub kind: TagKind,
    pub name: Seq<char>,
}

impl View for TagToken {
    type V = TagModel;

    open spec fn view(&self) -> TagModel {
        TagModel { negated: self.negated, kind: self.tag_type@, name: self.name@ }
    }
}

impl Default for TagToken {
    fn default() -> (t: Self)
        ensures
            t@ == (TagModel { negated: false, kind: TagKind::Plain, name: Seq::empty() }),
    {
        TagToken { negated: false, tag_type: TagType::Plain, name: String::new() }
    }
}

/// A line token that contains all collected [TagToken]s from a parsed line.
#[derive(Debug)]
pub struct LineToken {
    /// Total [TagToken] in the line.
    pub tags: Vec<TagToken>,
}

impl View for LineToken {
    type V = Seq<TagModel>;

    open spec fn view(&self) -> Seq<TagModel> {
        self.tags@.map_values(|t: TagToken| t@)
    }
}

impl LineToken {
    pub fn new(tags: Vec<TagToken>) -> (line: Self)
        ensures
            line.tags@ == tags@,
    {
        LineToken { tags }
    }
}

/// Root token which contains all the tokens of the blacklist.
#[derive(Debug)]
pub struct RootToken {
    /// The lines, in order.
    pub lines: Vec<LineToken>,
}

impl View for RootToken {
    type V = Seq<Seq<TagModel>>;

    open spec fn view(&self) -> Seq<Seq<TagModel>> {
        self.lines@.map_values(|l: LineToken| l@)
    }
}

// ---------------------------------------------------------------------------
// Grammar
// ---------------------------------------------------------------------------

pub open spec fn tag_chars() -> spec_fn(char) -> bool {
    CharClass::BlacklistTag.pred()
}

/// The rating a `rating:` value names, after lowercasing.
pub open spec fn rating_of(v: Seq<char>) -> Rating {
    if v == "safe"@ || v == "s"@ {
        Rating::Safe
    } else if v == "questionable"@ || v == "q"@ {
        Rating::Questionable
    } else if v == "explicit"@ || v == "e"@ {
        Rating::Explicit
    } else {
        Rating::NoRating
    }
}

/// The words of a rating: `safe` or `s` name the safe rating,
/// `questionable` or `q` the questionable one, `explicit` or `e` the
/// explicit one, and every other word names none.
pub proof fn lemma_rating_words(v: Seq<char>)
    ensures
        (rating_of(v) == Rating::Safe) == (v == "safe"@ || v == "s"@),
        (rating_of(v) == Rating::Questionable) == (v == "questionable"@ || v == "q"@),
        (rating_of(v) == Rating::Explicit) == (v == "explicit"@ || v == "e"@),
        (rating_of(v) == Rating::NoRating) == !(v == "safe"@ || v == "s"@ || v == "questionable"@ || v
            == "q"@ || v == "explicit"@ || v == "e"@),
{
    reveal_strlit("safe");
    reveal_strlit("s");
    reveal_strlit("questionable");
    reveal_strlit("q");
    reveal_strlit("explicit");
    reveal_strlit("e");
    assert("safe"@.len() == 4 && "questionable"@.len() == 12 && "explicit"@.len() == 8);
    assert("s"@.len() == 1 && "q"@.len() == 1 && "e"@.len() == 1);
    assert("s"@[0] != "q"@[0] && "s"@[0] != "e"@[0] && "q"@[0] != "e"@[0]);
    assert("s"@ != "q"@ && "s"@ != "e"@ && "q"@ != "e"@);
}

/// The comparison a `score:` prefix names.
pub open spec fn ordering_of(v: Seq<char>) -> ScoreOrdering {
    if v == "<"@ {
        ScoreOrdering::Less
    } else if v == ">="@ {
        ScoreOrdering::Greater
    } else {
        ScoreOrdering::Equal
    }
}

/// The error `kind` at `pos` of `s`, in its column, about `detail`.
pub open spec fn error_at(s: Seq<char>, kind: ParseErrorKind, pos: int, detail: Seq<char>) -> ParseErrorModel {
    ParseErrorModel { kind, pos, column: crate::parser::column_at(s, pos), detail }
}

/// The value of a special tag `name:...` whose value starts at `p`: the token
/// and the position after it.
pub open spec fn special_tag(s: Seq<char>, p: int, negated: bool, name: Seq<char>) -> Result<
    (TagModel, int),
    ParseErrorModel,
> {
    if name == "rating"@ {
        let q = run_end(s, p, CharClass::BlacklistRating.pred());
        Ok(
            (
                TagModel {
                    negated,
                    kind: TagKind::Rating(rating_of(unicode_lowercase(s.subrange(p, q)))),
                    name,
                },
                q,
            ),
        )
    } else if name == "id"@ {
        let q = run_end(s, p, CharClass::BlacklistId.pred());
        let id = match parse_i64(s.subrange(p, q)) {
            Some(v) => v,
            None => 0,
        };
        Ok((TagModel { negated, kind: TagKind::Id(Some(id)), name }, q))
    } else if name == "user"@ {
        let q = run_end(s, p, CharClass::BlacklistUser.pred());
        Ok((TagModel { negated, kind: TagKind::User(Some(s.subrange(p, q))), name }, q))
    } else if name == "score"@ {
        let q1 = run_end(s, p, CharClass::BlacklistScoreOrder.pred());
        let q2 = run_end(s, q1, CharClass::BlacklistScore.pred());
        match parse_i32(s.subrange(q1, q2)) {
            Some(v) => Ok(
                (
                    TagModel {
                        negated,
                        kind: TagKind::Score(ordering_of(s.subrange(p, q1)), v),
                        name,
                    },
                    q2,
                ),
            ),
            None => Err(error_at(s, ParseErrorKind::InvalidScore, q2, s.subrange(q1, q2))),
        }
    } else {
        Err(error_at(s, ParseErrorKind::UnknownSpecialTag, p, name))
    }
}

/// The tag starting at `p`: the token and the position after it.
pub open spec fn blacklist_tag(s: Seq<char>, p: int) -> Result<(TagModel, int), ParseErrorModel> {
    let negated = p < s.len() && s[p] == '-';
    let p1 = if negated {
        p + 1
    } else {
        p
    };
    let p2 = run_end(s, p1, tag_chars());
    let name = unicode_lowercase(s.subrange(p1, p2));
    if p2 < s.len() && s[p2] == ':' {
        special_tag(s, p2 + 1, negated, name)
    } else {
        Ok((TagModel { negated, kind: TagKind::Plain, name }, p2))
    }
}

/// The tags of the line starting at `p`, and the position after the line. A
/// line ends at its newline (whitespace before it, such as a `\r`, is
/// skipped), or at the end.
pub open spec fn blacklist_line(s: Seq<char>, p: int) -> Result<
    (Seq<TagModel>, int),
    ParseErrorModel,
>
    decreases s.len() - p,
{
    if p < 0 || p >= s.len() {
        Ok((Seq::empty(), p))
    } else {
        let q = run_end(s, p, CharClass::InlineWhiteSpace.pred());
        if q >= s.len() {
            Ok((Seq::empty(), q))
        } else if s[q] == '\n' {
            Ok((Seq::empty(), q + 1))
        } else {
            match blacklist_tag(s, q) {
                Err(e) => Err(e),
                Ok((t, r)) => if r <= p || r > s.len() {
                    Err(error_at(s, ParseErrorKind::NoProgress, r, Seq::empty()))
                } else {
                    match blacklist_line(s, r) {
                        Err(e) => Err(e),
                        Ok((ts, e)) => Ok((seq![t] + ts, e)),
                    }
                },
            }
        }
    }
}

/// The lines of the blacklist from `p` on.
pub open spec fn blacklist_lines(s: Seq<char>, p: int) -> Result<
    Seq<Seq<TagModel>>,
    ParseErrorModel,
>
    decreases s.len() - p,
{
    let q = run_end(s, p, white_space());
    if p < 0 || q >= s.len() {
        Ok(Seq::empty())
    } else {
        match blacklist_line(s, q) {
            Err(e) => Err(e),
            Ok((ts, e)) => if e <= p || e > s.len() {
                Err(error_at(s, ParseErrorKind::NoProgress, e, Seq::empty()))
            } else {
                match blacklist_lines(s, e) {
                    Err(err) => Err(err),
                    Ok(ls) => Ok(seq![ts] + ls),
                }
            },
        }
    }
}

/// The blacklist that the (trimmed) text `s` holds.
pub open spec fn parse_blacklist_text(s: Seq<char>) -> Result<Seq<Seq<TagModel>>, ParseErrorModel> {
    blacklist_lines(s, 0)
}

// ---------------------------------------------------------------------------
// Parser
// ---------------------------------------------------------------------------

/// Parser that reads a blacklist and tokenizes it.
pub struct BlacklistParser {
    /// The base parser which parses the blacklist character by character.
    pub base_parser: BaseParser,
}

impl BlacklistParser {
    pub fn new(blacklist: String) -> (parser: Self)
        ensures
            parser.base_parser.wf(),
            parser.base_parser.cursor() == 0,
            parser.base_parser.text() == crate::parser::trim(blacklist@),
    {
        BlacklistParser { base_parser: BaseParser::new(blacklist) }
    }

    /// Parses the entire blacklist.
    pub fn parse_blacklist(&mut self) -> (r: Result<RootToken, ParseError>)
        requires
            old(self).base_parser.wf(),
        ensures
            match blacklist_lines(old(self).base_parser.text(), old(self).base_parser.cursor()) {
                Ok(ls) => r matches Ok(root) && root@ == ls,
                Err(e) => r matches Err(err) && err.model() == e,
            },
    {
        let ghost s = self.base_parser.text();
        let ghost p0 = self.base_parser.cursor();
        let mut lines: Vec<LineToken> = Vec::new();
        loop
            invariant_except_break
                blacklist_lines(s, p0) == (match blacklist_lines(s, self.base_parser.cursor()) {
                    Ok(ls) => Ok(lines@.map_values(|l: LineToken| l@) + ls),
                    Err(e) => Err(e),
                }),
            invariant
                self.base_parser.wf(),
                self.base_parser.text() == s,
                s == old(self).base_parser.text(),
                p0 == old(self).base_parser.cursor(),
                0 <= p0,
            ensures
                blacklist_lines(s, p0) == Ok::<Seq<Seq<TagModel>>, ParseErrorModel>(
                    lines@.map_values(|l: LineToken| l@),
                ),
            decreases s.len() - self.base_parser.cursor(),
        {
            let p = self.base_parser.pos();
            self.base_parser.consume_whitespace();
            if self.base_parser.eof() {
                assert(lines@.map_values(|l: LineToken| l@) + Seq::<Seq<TagModel>>::empty() =~= lines@.map_values(|l: LineToken| l@));
                break;
            }
            let ghost q = self.base_parser.cursor();
            match self.parse_line() {
                Err(e) => {
                    return Err(e);
                },
                Ok(line) => {
                    let e = self.base_parser.pos();
                    if e <= p {
                        return Err(self.base_parser.report_error(ParseErrorKind::NoProgress, String::new()));
                    }
                    let ghost old_lines = lines@.map_values(|l: LineToken| l@);
                    lines.push(line);
                    assert(lines@.map_values(|l: LineToken| l@) =~= old_lines.push(line@));
                    proof {
                        match blacklist_lines(s, e as int) {
                            Ok(ls) => {
                                assert(old_lines + (seq![line@] + ls) =~= old_lines.push(line@) + ls);
                            },
                            Err(_) => {},
                        }
                    }
                },
            }
        }
        Ok(RootToken { lines })
    }

    /// Parses each tag and collects them into a [LineToken].
    pub fn parse_line(&mut self) -> (r: Result<LineToken, ParseError>)
        requires
            old(self).base_parser.wf(),
        ensures
            final(self).base_parser.wf(),
            final(self).base_parser.text() == old(self).base_parser.text(),
            match blacklist_line(old(self).base_parser.text(), old(self).base_parser.cursor()) {
                Ok((ts, e)) => r matches Ok(line) && line@ == ts && final(self).base_parser.cursor() == e,
                Err(e) => r matches Err(err) && err.model() == e,
            },
    {
        let ghost s = self.base_parser.text();
        let ghost p0 = self.base_parser.cursor();
        let mut tags: Vec<TagToken> = Vec::new();
        loop
            invariant_except_break
                blacklist_line(s, p0) == (match blacklist_line(s, self.base_parser.cursor()) {
                    Ok((ts, e)) => Ok((tags@.map_values(|t: TagToken| t@) + ts, e)),
                    Err(e) => Err(e),
                }),
            invariant
                self.base_parser.wf(),
                self.base_parser.text() == s,
                s == old(self).base_parser.text(),
                p0 == old(self).base_parser.cursor(),
                0 <= p0 <= self.base_parser.cursor(),
            ensures
                blacklist_line(s, p0) == Ok::<(Seq<TagModel>, int), ParseErrorModel>(
                    (tags@.map_values(|t: TagToken| t@), self.base_parser.cursor()),
                ),
            decreases s.len() - self.base_parser.cursor(),
        {
            let p = self.base_parser.pos();
            let ghost acc = tags@.map_values(|t: TagToken| t@);
            let _ = self.base_parser.consume_while(CharClass::InlineWhiteSpace);
            if self.base_parser.eof() {
                assert(acc + Seq::<TagModel>::empty() =~= acc);
                break;
            }
            if self.base_parser.next_char() == '\n' {
                self.base_parser.consume_char();
                assert(acc + Seq::<TagModel>::empty() =~= acc);
                break;
            }
            match self.parse_tag() {
                Err(e) => {
                    return Err(e);
                },
                Ok(token) => {
                    if self.base_parser.pos() <= p {
                        return Err(self.base_parser.report_error(ParseErrorKind::NoProgress, String::new()));
                    }
                    let ghost t = token@;
                    tags.push(token);
                    assert(tags@.map_values(|t: TagToken| t@) =~= acc.push(t));
                    proof {
                        match blacklist_line(s, self.base_parser.cursor()) {
                            Ok((ts, e)) => {
                                assert(acc + (seq![t] + ts) =~= acc.push(t) + ts);
                            },
                            Err(_) => {},
                        }
                    }
                },
            }
        }
        Ok(LineToken::new(tags))
    }

    /// Checks if the tag at the cursor is negated.
    pub fn is_tag_negated(&self) -> (b: bool)
        requires
            self.base_parser.wf(),
        ensures
            b == (self.base_parser.cursor() < self.base_parser.text().len()
                && self.base_parser.text()[self.base_parser.cursor()] == '-'),
    {
        !self.base_parser.eof() && self.base_parser.next_char() == '-'
    }

    /// Parses a tag and runs through basic identification before returning it
    /// as a [TagToken].
    pub fn parse_tag(&mut self) -> (r: Result<TagToken, ParseError>)
        requires
            old(self).base_parser.wf(),
        ensures
            final(self).base_parser.wf(),
            final(self).base_parser.text() == old(self).base_parser.text(),
            match blacklist_tag(old(self).base_parser.text(), old(self).base_parser.cursor()) {
                Ok((t, e)) => r matches Ok(token) && token@ == t && final(self).base_parser.cursor() == e,
                Err(e) => r matches Err(err) && err.model() == e,
            },
    {
        let mut token = TagToken::default();
        if self.is_tag_negated() {
            self.base_parser.consume_char();
            token.negated = true;
        }
        let raw = self.base_parser.consume_while(CharClass::BlacklistTag);
        token.name = str_to_lowercase(raw.as_str());
        // This will be considered a special tag if it contains the syntax of one.
        if !self.base_parser.eof() && self.base_parser.next_char() == ':' {
            match self.parse_special_tag(&mut token) {
                Ok(()) => {},
                Err(e) => {
                    return Err(e);
                },
            }
        }
        Ok(token)
    }

    /// Parses a special tag (the cursor on its colon) and updates `token` with
    /// the appropriate type and value.
    pub fn parse_special_tag(&mut self, token: &mut TagToken) -> (r: Result<(), ParseError>)
        requires
            old(self).base_parser.wf(),
            old(self).base_parser.cursor() < old(self).base_parser.text().len(),
            old(self).base_parser.text()[old(self).base_parser.cursor()] == ':',
        ensures
            final(self).base_parser.wf(),
            final(self).base_parser.text() == old(self).base_parser.text(),
            match special_tag(
                old(self).base_parser.text(),
                old(self).base_parser.cursor() + 1,
                old(token).negated,
                old(token).name@,
            ) {
                Ok((t, e)) => r is Ok && final(token)@ == t && final(self).base_parser.cursor() == e,
                Err(e) => r matches Err(err) && err.model() == e,
            },
    {
        self.base_parser.consume_char();
        if str_eq(token.name.as_str(), "rating") {
            let rating_string = self.base_parser.consume_while(CharClass::BlacklistRating);
            token.tag_type = TagType::Rating(self.get_rating(rating_string.as_str()));
        } else if str_eq(token.name.as_str(), "id") {
            let digits = self.base_parser.consume_while(CharClass::BlacklistId);
            let id = match str_parse_i64(digits.as_str()) {
                Some(v) => v,
                None => 0,
            };
            token.tag_type = TagType::Id(Some(id));
        } else if str_eq(token.name.as_str(), "user") {
            let user = self.base_parser.consume_while(CharClass::BlacklistUser);
            token.tag_type = TagType::User(Some(user));
        } else if str_eq(token.name.as_str(), "score") {
            let ordering = self.get_ordering();
            let score = self.base_parser.consume_while(CharClass::BlacklistScore);
            match str_parse_i32(score.as_str()) {
                Some(v) => {
                    token.tag_type = TagType::Score(ordering, v);
                },
                None => {
                    return Err(self.base_parser.report_error(ParseErrorKind::InvalidScore, score));
                },
            }
        } else {
            let name = token.name.clone();
            return Err(self.base_parser.report_error(ParseErrorKind::UnknownSpecialTag, name));
        }
        Ok(())
    }

    /// Checks the value and creates a new [Rating] from it.
    pub fn get_rating(&self, value: &str) -> (r: Rating)
        ensures
            r == rating_of(unicode_lowercase(value@)),
    {
        let lower = str_to_lowercase(value);
        let v = lower.as_str();
        if str_eq(v, "safe") || str_eq(v, "s") {
            Rating::Safe
        } else if str_eq(v, "questionable") || str_eq(v, "q") {
            Rating::Questionable
        } else if str_eq(v, "explicit") || str_eq(v, "e") {
            Rating::Explicit
        } else {
            Rating::NoRating
        }
    }

    /// Gets the ordering of the score.
    pub fn get_ordering(&mut self) -> (o: ScoreOrdering)
        requires
            old(self).base_parser.wf(),
        ensures
            final(self).base_parser.wf(),
            final(self).base_parser.text() == old(self).base_parser.text(),
            final(self).base_parser.cursor() == run_end(
                old(self).base_parser.text(),
                old(self).base_parser.cursor(),
                CharClass::BlacklistScoreOrder.pred(),
            ),
            o == ordering_of(
                old(self).base_parser.text().subrange(
                    old(self).base_parser.cursor(),
                    final(self).base_parser.cursor(),
                ),
            ),
    {
        let order = self.base_parser.consume_while(CharClass::BlacklistScoreOrder);
        if str_eq(order.as_str(), "<") {
            ScoreOrdering::Less
        } else if str_eq(order.as_str(), ">=") {
            ScoreOrdering::Greater
        } else {
            ScoreOrdering::Equal
        }
    }
}

// ---------------------------------------------------------------------------
// Flagging
// ---------------------------------------------------------------------------

/// Counts toward the margin: a tag that is not negated.
pub open spec fn raises_flag(t: TagModel) -> bool {
    !t.negated
}

/// Counts toward the negated margin: a negated tag that is not a score
/// (e621's blacklist does not handle negated scores).
pub open spec fn raises_negated_margin(t: TagModel) -> bool {
    t.negated && !(t.kind is Score)
}

pub open spec fn margin(line: Seq<TagModel>) -> int
    decreases line.len(),
{
    if line.len() == 0 {
        0
    } else {
        margin(line.drop_last()) + if raises_flag(line.last()) {
            1int
        } else {
            0int
        }
    }
}

pub open spec fn negated_margin(line: Seq<TagModel>) -> int
    decreases line.len(),
{
    if line.len() == 0 {
        0
    } else {
        negated_margin(line.drop_last()) + if raises_negated_margin(line.last()) {
            1int
        } else {
            0int
        }
    }
}

/// Whether the tag `t` matches the post.
pub open spec fn tag_hits(t: TagModel, post: PostEntry) -> bool {
    match t.kind {
        TagKind::Rating(r) => (r == Rating::Safe && post.rating@ == "s"@) || (r
            == Rating::Questionable && post.rating@ == "q"@) || (r == Rating::Explicit
            && post.rating@ == "e"@),
        TagKind::Id(id) => id == Some(post.id),
        TagKind::User(_) => parse_i64(t.name) == Some(post.uploader_id),
        TagKind::Score(o, s) => match o {
            ScoreOrdering::Less => post.score.total < s,
            ScoreOrdering::Greater => post.score.total >= s,
            ScoreOrdering::Equal => false,
        },
        TagKind::Plain => crate::text::views(post.tags.all()).contains(t.name),
    }
}

/// The number of tags of the line, not negated, that match the post.
pub open spec fn flags(line: Seq<TagModel>, post: PostEntry) -> int
    decreases line.len(),
{
    if line.len() == 0 {
        0
    } else {
        flags(line.drop_last(), post) + if !line.last().negated && tag_hits(line.last(), post) {
            1int
        } else {
            0int
        }
    }
}

/// The number of negated tags of the line, other than scores, that match
/// the post.
pub open spec fn negated_flags(line: Seq<TagModel>, post: PostEntry) -> int
    decreases line.len(),
{
    if line.len() == 0 {
        0
    } else {
        negated_flags(line.drop_last(), post) + if raises_negated_margin(line.last()) && tag_hits(
            line.last(),
            post,
        ) {
            1int
        } else {
            0int
        }
    }
}

/// A line blacklists a post when every one of its tags that is not negated
/// matches the post and none of its negated tags (other than scores, which
/// e621's blacklist ignores when negated) does.
pub open spec fn blacklisted_by(line: Seq<TagModel>, post: PostEntry) -> bool {
    &&& negated_flags(line, post) == 0
    &&& flags(line, post) == margin(line)
}

/// A line blacklists a post exactly when every tag of the line that is not
/// negated matches the post and no negated tag other than a score does.
pub proof fn lemma_blacklisted_by_iff(line: Seq<TagModel>, post: PostEntry)
    ensures
        blacklisted_by(line, post) == ((forall|i: int| 0 <= i < line.len() && !line[i].negated ==> tag_hits(
            #[trigger] line[i],
            post,
        )) && (forall|i: int| 0 <= i < line.len() && line[i].negated && !(line[i].kind is Score) ==> !tag_hits(
            #[trigger] line[i],
            post,
        ))),
    decreases line.len(),
{
    lemma_counts_bounded(line, post);
    lemma_flags_complete(line, post);
    lemma_negated_flags_none(line, post);
}

/// Every tag of `line` that is not negated matches the post.
spec fn all_plain_hit(line: Seq<TagModel>, post: PostEntry) -> bool {
    forall|i: int| 0 <= i < line.len() && !line[i].negated ==> tag_hits(#[trigger] line[i], post)
}

/// No negated tag of `line` other than a score matches the post.
spec fn no_negated_hit(line: Seq<TagModel>, post: PostEntry) -> bool {
    forall|i: int| 0 <= i < line.len() && line[i].negated && !(line[i].kind is Score) ==> !tag_hits(
        #[trigger] line[i],
        post,
    )
}

proof fn lemma_split_last(line: Seq<TagModel>, post: PostEntry)
    requires
        line.len() > 0,
    ensures
        all_plain_hit(line, post) == (all_plain_hit(line.drop_last(), post) && (!line.last().negated
            ==> tag_hits(line.last(), post))),
        no_negated_hit(line, post) == (no_negated_hit(line.drop_last(), post) && !(raises_negated_margin(
            line.last(),
        ) && tag_hits(line.last(), post))),
{
    let init = line.drop_last();
    let n = line.len() - 1;
    assert(line[n] == line.last());
    if all_plain_hit(line, post) {
        assert forall|i: int| 0 <= i < init.len() && !init[i].negated implies tag_hits(#[trigger] init[i], post) by {
            assert(init[i] == line[i]);
        }
    }
    if all_plain_hit(init, post) && (!line.last().negated ==> tag_hits(line.last(), post)) {
        assert forall|i: int| 0 <= i < line.len() && !line[i].negated implies tag_hits(#[trigger] line[i], post) by {
            if i < n {
                assert(init[i] == line[i]);
            }
        }
    }
    if no_negated_hit(line, post) {
        assert forall|i: int| 0 <= i < init.len() && init[i].negated && !(init[i].kind is Score) implies !tag_hits(
            #[trigger] init[i],
            post,
        ) by {
            assert(init[i] == line[i]);
        }
    }
    if no_negated_hit(init, post) && !(raises_negated_margin(line.last()) && tag_hits(line.last(), post)) {
        assert forall|i: int| 0 <= i < line.len() && line[i].negated && !(line[i].kind is Score) implies !tag_hits(
            #[trigger] line[i],
            post,
        ) by {
            if i < n {
                assert(init[i] == line[i]);
            }
        }
    }
}

proof fn lemma_flags_complete(line: Seq<TagModel>, post: PostEntry)
    ensures
        flags(line, post) <= margin(line),
        (flags(line, post) == margin(line)) == all_plain_hit(line, post),
    decreases line.len(),
{
    if line.len() > 0 {
        lemma_flags_complete(line.drop_last(), post);
        lemma_split_last(line, post);
    }
}

proof fn lemma_negated_flags_none(line: Seq<TagModel>, post: PostEntry)
    ensures
        (negated_flags(line, post) == 0) == no_negated_hit(line, post),
    decreases line.len(),
{
    if line.len() > 0 {
        lemma_negated_flags_none(line.drop_last(), post);
        lemma_counts_bounded(line.drop_last(), post);
        lemma_split_last(line, post);
    }
}

/// A negated rating tag naming the post's own rating spares the post: no
/// line holding one blacklists it.
pub proof fn lemma_negated_rating_spares(line: Seq<TagModel>, post: PostEntry, i: int)
    requires
        0 <= i < line.len(),
        line[i].negated,
        line[i].kind == TagKind::Rating(Rating::Safe) && post.rating@ == "s"@ || line[i].kind == TagKind::Rating(
            Rating::Questionable,
        ) && post.rating@ == "q"@ || line[i].kind == TagKind::Rating(Rating::Explicit) && post.rating@ == "e"@,
    ensures
        !blacklisted_by(line, post),
{
    lemma_blacklisted_by_iff(line, post);
    assert(tag_hits(line[i], post));
}

/// A user tag's name holds the user's id (as `Blacklist::cache_users` leaves it).
pub open spec fn user_cached(t: TagModel) -> bool {
    t.kind is User ==> parse_i64(t.name) is Some
}

pub open spec fn line_checkable(line: Seq<TagModel>) -> bool {
    &&& line.len() <= i16::MAX
    &&& forall|i: int| 0 <= i < line.len() ==> user_cached(#[trigger] line[i])
}

pub proof fn lemma_counts_bounded(line: Seq<TagModel>, post: PostEntry)
    ensures
        0 <= margin(line) <= line.len(),
        0 <= negated_margin(line) <= line.len(),
        0 <= flags(line, post) <= line.len(),
        0 <= negated_flags(line, post) <= line.len(),
    decreases line.len(),
{
    if line.len() > 0 {
        lemma_counts_bounded(line.drop_last(), post);
    }
}

/// A worker that checks and flags a post based on a tag predicate, typically
/// from the user's blacklist.
pub struct FlagWorker {
    /// The number of flags raised by the worker.
    flags: i16,
    /// The number of negated flags raised by the worker.
    negated_flags: i16,
    /// How many flags must be raised before a post is blacklisted.
    margin: i16,
    /// How many negated flags must be raised before a post is considered safe.
    negated_margin: i16,
    /// Whether the post is flagged or not.
    flagged: bool,
}

impl Default for FlagWorker {
    fn default() -> (w: Self)
        ensures
            w.spec_flags() == 0,
            w.spec_negated_flags() == 0,
            w.spec_margin() == 0,
            w.spec_negated_margin() == 0,
            !w.spec_flagged(),
    {
        FlagWorker { flags: 0, negated_flags: 0, margin: 0, negated_margin: 0, flagged: false }
    }
}

impl FlagWorker {
    pub closed spec fn spec_flags(&self) -> int {
        self.flags as int
    }

    pub closed spec fn spec_negated_flags(&self) -> int {
        self.negated_flags as int
    }

    pub closed spec fn spec_margin(&self) -> int {
        self.margin as int
    }

    pub closed spec fn spec_negated_margin(&self) -> int {
        self.negated_margin as int
    }

    pub closed spec fn spec_flagged(&self) -> bool {
        self.flagged
    }

    /// Sets the margin for how many flags need to be raised before the post is
    /// either blacklisted or considered safe.
    pub fn set_flag_margin(&mut self, tags: &Vec<TagToken>)
        requires
            old(self).spec_margin() + tags@.len() <= i16::MAX,
            old(self).spec_negated_margin() + tags@.len() <= i16::MAX,
            0 <= old(self).spec_margin(),
            0 <= old(self).spec_negated_margin(),
        ensures
            final(self).spec_margin() == old(self).spec_margin() + margin(
                tags@.map_values(|t: TagToken| t@),
            ),
            final(self).spec_negated_margin() == old(self).spec_negated_margin() + negated_margin(
                tags@.map_values(|t: TagToken| t@),
            ),
            final(self).spec_flags() == old(self).spec_flags(),
            final(self).spec_negated_flags() == old(self).spec_negated_flags(),
            final(self).spec_flagged() == old(self).spec_flagged(),
    {
        let ghost line = tags@.map_values(|t: TagToken| t@);
        let mut i: usize = 0;
        while i < tags.len()
            invariant
                i <= tags.len(),
                line == tags@.map_values(|t: TagToken| t@),
                self.margin == old(self).spec_margin() + margin(line.take(i as int)),
                self.negated_margin == old(self).spec_negated_margin() + negated_margin(
                    line.take(i as int),
                ),
                margin(line.take(i as int)) <= i,
                negated_margin(line.take(i as int)) <= i,
                old(self).spec_margin() + tags@.len() <= i16::MAX,
                old(self).spec_negated_margin() + tags@.len() <= i16::MAX,
                0 <= old(self).spec_margin(),
                0 <= old(self).spec_negated_margin(),
                self.flags == old(self).spec_flags(),
                self.negated_flags == old(self).spec_negated_flags(),
                self.flagged == old(self).spec_flagged(),
            decreases tags.len() - i,
        {
            assert(line.take(i + 1).drop_last() =~= line.take(i as int));
            let tag = &tags[i];
            if tag.negated {
                // e621's blacklist itself does not handle negated scores.
                if let TagType::Score(_, _) = tag.tag_type {
                } else {
                    self.negated_margin = self.negated_margin + 1;
                }
            } else {
                self.margin = self.margin + 1;
            }
            i = i + 1;
        }
        assert(line.take(tags.len() as int) =~= line);
    }

    /// Raises a flag when the blacklisted rating is the post's rating.
    pub fn flag_rating(&mut self, rating: &Rating, post: &PostEntry, negated: bool)
        requires
            old(self).spec_flags() < i16::MAX,
            old(self).spec_negated_flags() < i16::MAX,
        ensures
            final(self).raised(*old(self), negated, (*rating == Rating::Safe && post.rating@ == "s"@)
                || (*rating == Rating::Questionable && post.rating@ == "q"@) || (*rating
                == Rating::Explicit && post.rating@ == "e"@)),
    {
        let r = post.rating.as_str();
        let hit = (*rating == Rating::Safe && str_eq(r, "s")) || (*rating == Rating::Questionable
            && str_eq(r, "q")) || (*rating == Rating::Explicit && str_eq(r, "e"));
        if hit {
            self.raise_flag(negated);
        }
    }

    /// Raises a flag when the post's id is the blacklisted id.
    pub fn flag_id(&mut self, id: i64, post_id: i64, negated: bool)
        requires
            old(self).spec_flags() < i16::MAX,
            old(self).spec_negated_flags() < i16::MAX,
        ensures
            final(self).raised(*old(self), negated, post_id == id),
    {
        if post_id == id {
            self.raise_flag(negated);
        }
    }

    /// Raises a flag when the post's uploader is the blacklisted user.
    pub fn flag_user(&mut self, user_id: i64, uploader_id: i64, negated: bool)
        requires
            old(self).spec_flags() < i16::MAX,
            old(self).spec_negated_flags() < i16::MAX,
        ensures
            final(self).raised(*old(self), negated, user_id == uploader_id),
    {
        if user_id == uploader_id {
            self.raise_flag(negated);
        }
    }

    /// Raises a flag when the post's score compares with the blacklisted
    /// score as `ordering` says (`Less`: below it; `Greater`: at or above it).
    pub fn flag_score(&mut self, ordering: &ScoreOrdering, score: &i32, post_score: i64, negated: bool)
        requires
            old(self).spec_flags() < i16::MAX,
            old(self).spec_negated_flags() < i16::MAX,
        ensures
            final(self).raised(*old(self), negated, match *ordering {
                ScoreOrdering::Less => post_score < *score,
                ScoreOrdering::Greater => post_score >= *score,
                ScoreOrdering::Equal => false,
            }),
    {
        match ordering {
            ScoreOrdering::Less => {
                if post_score < *score as i64 {
                    self.raise_flag(negated);
                }
            },
            ScoreOrdering::Greater => {
                if post_score >= *score as i64 {
                    self.raise_flag(negated);
                }
            },
            ScoreOrdering::Equal => {},
        }
    }

    /// `self` is `before` with one flag raised (a negated one when `negated`)
    /// if `hit`, and unchanged otherwise.
    pub open spec fn raised(&self, before: Self, negated: bool, hit: bool) -> bool {
        &&& self.spec_flags() == before.spec_flags() + if hit && !negated {
            1int
        } else {
            0int
        }
        &&& self.spec_negated_flags() == before.spec_negated_flags() + if hit && negated {
            1int
        } else {
            0int
        }
        &&& self.spec_margin() == before.spec_margin()
        &&& self.spec_negated_margin() == before.spec_negated_margin()
        &&& self.spec_flagged() == before.spec_flagged()
    }

    /// Checks whether a single post is blacklisted by the line.
    pub fn check_post(&mut self, post: &PostEntry, blacklist_line: &LineToken)
        requires
            line_checkable(blacklist_line@),
            0 <= old(self).spec_flags(),
            0 <= old(self).spec_negated_flags(),
            old(self).spec_flags() + blacklist_line@.len() <= i16::MAX,
            old(self).spec_negated_flags() + blacklist_line@.len() <= i16::MAX,
        ensures
            final(self).spec_flags() == old(self).spec_flags() + flags(blacklist_line@, *post),
            final(self).spec_negated_flags() == old(self).spec_negated_flags() + negated_flags(
                blacklist_line@,
                *post,
            ),
            final(self).spec_margin() == old(self).spec_margin(),
            final(self).spec_negated_margin() == old(self).spec_negated_margin(),
            final(self).spec_flagged() == (if final(self).negated_margin_met() {
                false
            } else if final(self).margin_met() {
                true
            } else {
                old(self).spec_flagged()
            }),
    {
        let ghost line = blacklist_line@;
        let tags = &blacklist_line.tags;
        let mut i: usize = 0;
        while i < tags.len()
            invariant
                i <= tags.len(),
                line == tags@.map_values(|t: TagToken| t@),
                line_checkable(line),
                self.flags == old(self).spec_flags() + flags(line.take(i as int), *post),
                self.negated_flags == old(self).spec_negated_flags() + negated_flags(
                    line.take(i as int),
                    *post,
                ),
                flags(line.take(i as int), *post) <= i,
                negated_flags(line.take(i as int), *post) <= i,
                0 <= old(self).spec_flags(),
                0 <= old(self).spec_negated_flags(),
                old(self).spec_flags() + line.len() <= i16::MAX,
                old(self).spec_negated_flags() + line.len() <= i16::MAX,
                self.margin == old(self).spec_margin(),
                self.negated_margin == old(self).spec_negated_margin(),
                self.flagged == old(self).spec_flagged(),
            decreases tags.len() - i,
        {
            assert(line.take(i + 1).drop_last() =~= line.take(i as int));
            let tag = &tags[i];
            assert(line[i as int] == tag@);
            match &tag.tag_type {
                TagType::Rating(rating) => {
                    self.flag_rating(rating, post, tag.negated);
                },
                TagType::Id(id) => {
                    if let Some(blacklisted_id) = id {
                        self.flag_id(*blacklisted_id, post.id, tag.negated);
                    }
                },
                TagType::User(_) => {
                    assert(user_cached(line[i as int]));
                    let user_id = match str_parse_i64(tag.name.as_str()) {
                        Some(v) => v,
                        None => {
                            proof {
                                assert(false);
                            }
                            0
                        },
                    };
                    self.flag_user(user_id, post.uploader_id, tag.negated);
                },
                TagType::Score(ordering, score) => {
                    // e621's blacklist does not handle negated scores.
                    if !tag.negated {
                        self.flag_score(ordering, score, post.score.total, tag.negated);
                    }
                },
                TagType::Plain => {
                    if post.tags.has_tag(tag.name.as_str()) {
                        self.raise_flag(tag.negated);
                    }
                },
            }
            i = i + 1;
        }
        assert(line.take(tags.len() as int) =~= line);
        if self.is_negated_margin_met() {
            self.flagged = false;
        } else if self.is_margin_met() {
            self.flagged = true;
        }
    }

    /// Some negated tag matched the post, which spares it.
    pub open spec fn negated_margin_met(&self) -> bool {
        self.spec_negated_flags() > 0
    }

    pub open spec fn margin_met(&self) -> bool {
        self.spec_flags() == self.spec_margin()
    }

    /// Returns true if a negated tag matched the post: e621's blacklist then
    /// spares the post, whatever the other tags of the line.
    pub fn is_negated_margin_met(&self) -> (b: bool)
        ensures
            b == self.negated_margin_met(),
    {
        self.negated_flags > 0
    }

    /// Returns true if the flags equal the margin.
    pub fn is_margin_met(&self) -> (b: bool)
        ensures
            b == self.margin_met(),
    {
        self.flags == self.margin
    }

    /// Raises either the negated flags or the flags by one, depending on
    /// `negated`.
    pub fn raise_flag(&mut self, negated: bool)
        requires
            old(self).spec_flags() < i16::MAX,
            old(self).spec_negated_flags() < i16::MAX,
        ensures
            final(self).raised(*old(self), negated, true),
    {
        if negated {
            self.negated_flags = self.negated_flags + 1;
        } else {
            self.flags = self.flags + 1;
        }
    }

    /// Whether the post is flagged.
    pub fn is_flagged(&self) -> (b: bool)
        ensures
            b == self.spec_flagged(),
    {
        self.flagged
    }

    /// Whether a fresh worker flags `post` for `line`.
    pub fn flags_post(post: &PostEntry, line: &LineToken) -> (b: bool)
        requires
            line_checkable(line@),
        ensures
            b == blacklisted_by(line@, *post),
    {
        let mut flag_worker = FlagWorker::default();
        flag_worker.set_flag_margin(&line.tags);
        flag_worker.check_post(post, line);
        proof {
            lemma_counts_bounded(line@, *post);
        }
        flag_worker.is_flagged()
    }
}

// ---------------------------------------------------------------------------
// The blacklist
// ---------------------------------------------------------------------------

/// The elements of `s` that satisfy `f`, in order.
pub open spec fn keep(s: Seq<PostEntry>, f: spec_fn(PostEntry) -> bool) -> Seq<PostEntry>
    decreases s.len(),
{
    if s.len() == 0 {
        Seq::empty()
    } else if f(s.last()) {
        keep(s.drop_last(), f).push(s.last())
    } else {
        keep(s.drop_last(), f)
    }
}

/// The posts that `line` does not blacklist.
pub open spec fn survives(line: Seq<TagModel>) -> spec_fn(PostEntry) -> bool {
    |p: PostEntry| !blacklisted_by(line, p)
}

/// The posts that no line of `lines` blacklists.
pub open spec fn survives_all(lines: Seq<Seq<TagModel>>) -> spec_fn(PostEntry) -> bool {
    |p: PostEntry| forall|i: int| 0 <= i < lines.len() ==> !blacklisted_by(#[trigger] lines[i], p)
}

/// The posts left after filtering with each line in turn.
pub open spec fn filter_lines(lines: Seq<Seq<TagModel>>, posts: Seq<PostEntry>) -> Seq<PostEntry>
    decreases lines.len(),
{
    if lines.len() == 0 {
        posts
    } else {
        keep(filter_lines(lines.drop_last(), posts), survives(lines.last()))
    }
}

pub proof fn lemma_keep_len(s: Seq<PostEntry>, f: spec_fn(PostEntry) -> bool)
    ensures
        keep(s, f).len() <= s.len(),
    decreases s.len(),
{
    if s.len() > 0 {
        lemma_keep_len(s.drop_last(), f);
    }
}

pub proof fn lemma_keep_concat(a: Seq<PostEntry>, b: Seq<PostEntry>, f: spec_fn(PostEntry) -> bool)
    ensures
        keep(a + b, f) == keep(a, f) + keep(b, f),
    decreases b.len(),
{
    if b.len() == 0 {
        assert(a + b =~= a);
        assert(keep(a, f) + keep(b, f) =~= keep(a, f));
    } else {
        lemma_keep_concat(a, b.drop_last(), f);
        assert((a + b).drop_last() =~= a + b.drop_last());
        assert((a + b).last() == b.last());
        if f(b.last()) {
            assert(keep(a, f) + keep(b.drop_last(), f).push(b.last()) =~= (keep(a, f) + keep(
                b.drop_last(),
                f,
            )).push(b.last()));
        }
    }
}

pub proof fn lemma_keep_keep(s: Seq<PostEntry>, f: spec_fn(PostEntry) -> bool, g: spec_fn(PostEntry) -> bool)
    ensures
        keep(keep(s, f), g) == keep(s, |p: PostEntry| f(p) && g(p)),
    decreases s.len(),
{
    if s.len() > 0 {
        lemma_keep_keep(s.drop_last(), f, g);
        if f(s.last()) {
            assert(keep(s, f).drop_last() =~= keep(s.drop_last(), f));
        }
    }
}

pub proof fn lemma_keep_all(s: Seq<PostEntry>, f: spec_fn(PostEntry) -> bool)
    requires
        forall|i: int| 0 <= i < s.len() ==> f(#[trigger] s[i]),
    ensures
        keep(s, f) == s,
    decreases s.len(),
{
    if s.len() > 0 {
        lemma_keep_all(s.drop_last(), f);
        assert(s.drop_last().push(s.last()) =~= s);
    } else {
        assert(s =~= Seq::<PostEntry>::empty());
    }
}

/// Filtering with each line in turn keeps exactly the posts that no line
/// blacklists.
pub proof fn lemma_filter_lines(lines: Seq<Seq<TagModel>>, posts: Seq<PostEntry>)
    ensures
        filter_lines(lines, posts) == keep(posts, survives_all(lines)),
    decreases lines.len(),
{
    if lines.len() == 0 {
        lemma_keep_all(posts, survives_all(lines));
    } else {
        let init = lines.drop_last();
        lemma_filter_lines(init, posts);
        lemma_keep_keep(posts, survives_all(init), survives(lines.last()));
        let both = |p: PostEntry| survives_all(init)(p) && survives(lines.last())(p);
        assert forall|p: PostEntry| #[trigger] both(p) == survives_all(lines)(p) by {
            if both(p) {
                assert forall|i: int| 0 <= i < lines.len() implies !blacklisted_by(
                    #[trigger] lines[i],
                    p,
                ) by {
                    if i < lines.len() - 1 {
                        assert(init[i] == lines[i]);
                    }
                }
            }
            if survives_all(lines)(p) {
                assert forall|i: int| 0 <= i < init.len() implies !blacklisted_by(
                    #[trigger] init[i],
                    p,
                ) by {
                    assert(init[i] == lines[i]);
                }
                assert(!blacklisted_by(lines[lines.len() - 1], p));
            }
        }
        assert(both =~= survives_all(lines));
    }
}

/// Filtering posts a second time with the same lines removes nothing more.
pub proof fn lemma_filter_twice(lines: Seq<Seq<TagModel>>, posts: Seq<PostEntry>)
    ensures
        keep(keep(posts, survives_all(lines)), survives_all(lines)) == keep(posts, survives_all(lines)),
{
    let f = survives_all(lines);
    lemma_keep_keep(posts, f, f);
    let both = |p: PostEntry| f(p) && f(p);
    assert(both =~= f);
}

/// Blacklist that holds all of the blacklist entries.
pub struct Blacklist {
    /// The blacklist parser which parses the blacklist and tokenizes it.
    blacklist_parser: BlacklistParser,
    /// All of the blacklist tokens after being parsed.
    blacklist_tokens: RootToken,
}

impl Blacklist {
    /// The lines of the blacklist.
    pub closed spec fn lines(&self) -> Seq<Seq<TagModel>> {
        self.blacklist_tokens@
    }

    /// Every line can be checked against posts: its user tags hold user ids
    /// and its flag counters cannot overflow.
    pub open spec fn checkable(&self) -> bool {
        forall|i: int| 0 <= i < self.lines().len() ==> line_checkable(#[trigger] self.lines()[i])
    }

    /// An empty blacklist.
    pub fn new() -> (b: Self)
        ensures
            b.lines() == Seq::<Seq<TagModel>>::empty(),
    {
        let tokens = RootToken { lines: Vec::new() };
        assert(tokens@ =~= Seq::<Seq<TagModel>>::empty());
        Blacklist {
            blacklist_parser: BlacklistParser::new(String::new()),
            blacklist_tokens: tokens,
        }
    }

    /// Parses the user blacklist into the lines of this blacklist. When the
    /// text does not parse, the lines are left as they were.
    pub fn parse_blacklist(&mut self, user_blacklist: String) -> (r: Result<(), ParseError>)
        ensures
            match parse_blacklist_text(trim(user_blacklist@)) {
                Ok(ls) => r is Ok && final(self).lines() == ls,
                Err(e) => r matches Err(err) && err.model() == e && final(self).lines() == old(
                    self,
                ).lines(),
            },
            r is Ok ==> (final(self).lines().len() == 0 <==> trim(user_blacklist@).len() == 0),
    {
        proof {
            let t = trim(user_blacklist@);
            crate::parser::lemma_trim_first(user_blacklist@);
            if t.len() > 0 {
                assert(run_end(t, 0, white_space()) == 0);
            }
        }
        self.blacklist_parser = BlacklistParser::new(user_blacklist);
        match self.blacklist_parser.parse_blacklist() {
            Ok(tokens) => {
                self.blacklist_tokens = tokens;
                Ok(())
            },
            Err(e) => Err(e),
        }
    }

    /// Checks if the blacklist is empty.
    pub fn is_empty(&self) -> (b: bool)
        ensures
            b == (self.lines().len() == 0),
    {
        self.blacklist_tokens.lines.len() == 0
    }

    /// Filters through a set of posts, only retaining posts that aren't
    /// blacklisted, and returns how many were removed.
    pub fn filter_posts(&self, posts: &mut Vec<PostEntry>) -> (filtered: u16)
        requires
            self.checkable(),
            old(posts)@.len() - keep(old(posts)@, survives_all(self.lines())).len() <= u16::MAX,
        ensures
            final(posts)@ == keep(old(posts)@, survives_all(self.lines())),
            filtered == old(posts)@.len() - final(posts)@.len(),
    {
        let ghost lines = self.lines();
        let ghost start = posts@;
        proof {
            lemma_filter_lines(lines, start);
            Self::lemma_filter_prefix_len(lines, start, 0);
        }
        let mut filtered: u16 = 0;
        let mut i: usize = 0;
        while i < self.blacklist_tokens.lines.len()
            invariant
                i <= lines.len(),
                lines == self.lines(),
                self.checkable(),
                start == old(posts)@,
                posts@ == filter_lines(lines.take(i as int), start),
                filtered == start.len() - posts@.len(),
                filter_lines(lines, start) == keep(start, survives_all(lines)),
                start.len() - filter_lines(lines, start).len() <= u16::MAX,
                filter_lines(lines, start).len() <= filter_lines(lines.take(i as int), start).len(),
            decreases lines.len() - i,
        {
            let line = &self.blacklist_tokens.lines[i];
            assert(lines[i as int] == line@);
            assert(line_checkable(lines[i as int]));
            let ghost f = survives(line@);
            let ghost before = posts@;
            let mut rest: Vec<PostEntry> = Vec::new();
            std::mem::swap(posts, &mut rest);
            let mut kept: Vec<PostEntry> = Vec::new();
            assert(lines.take(i + 1).drop_last() =~= lines.take(i as int));
            assert(filter_lines(lines.take(i + 1), start) == keep(before, f));
            proof {
                Self::lemma_filter_prefix_len(lines, start, i as int + 1);
                lemma_keep_concat(Seq::empty(), before, f);
            }
            for post in it: rest.into_iter()
                invariant
                    it.seq() == before,
                    kept@ == keep(before.take(it.index() as int), f),
                    filtered == start.len() - before.len() + (it.index() - kept@.len()),
                    line_checkable(line@),
                    f == survives(line@),
                    start.len() - filter_lines(lines, start).len() <= u16::MAX,
                    filter_lines(lines, start).len() <= keep(before, f).len(),
                    start.len() >= before.len(),
            {
                let ghost k = it.index() as int;
                proof {
                    assert(before.take(k + 1).drop_last() =~= before.take(k));
                    assert(before.take(k + 1).last() == post);
                    assert(before =~= before.take(k + 1) + before.skip(k + 1));
                    lemma_keep_concat(before.take(k + 1), before.skip(k + 1), f);
                    lemma_keep_len(before.skip(k + 1), f);
                    lemma_keep_len(before.take(k), f);
                }
                if FlagWorker::flags_post(&post, line) {
                    filtered = filtered + 1;
                } else {
                    kept.push(post);
                }
            }
            assert(before.take(before.len() as int) =~= before);
            *posts = kept;
            i = i + 1;
        }
        assert(lines.take(lines.len() as int) =~= lines);
        filtered
    }

    /// Whether every line can be checked against posts (see [Blacklist::checkable]).
    pub fn is_checkable(&self) -> (b: bool)
        ensures
            b == self.checkable(),
    {
        let ghost lines = self.lines();
        let mut i: usize = 0;
        while i < self.blacklist_tokens.lines.len()
            invariant
                i <= lines.len(),
                lines == self.lines(),
                forall|k: int| 0 <= k < i ==> line_checkable(#[trigger] lines[k]),
            decreases lines.len() - i,
        {
            let line = &self.blacklist_tokens.lines[i];
            assert(lines[i as int] == line@);
            if line.tags.len() > 32767 {
                assert(!line_checkable(lines[i as int]));
                return false;
            }
            let mut j: usize = 0;
            while j < line.tags.len()
                invariant
                    j <= line.tags.len(),
                    i < lines.len(),
                    lines == self.lines(),
                    lines[i as int] == line@,
                    line.tags.len() <= 32767,
                    forall|k: int| 0 <= k < j ==> user_cached(#[trigger] line@[k]),
                decreases line.tags.len() - j,
            {
                let tag = &line.tags[j];
                assert(line@[j as int] == tag@);
                match &tag.tag_type {
                    TagType::User(_) => {
                        if str_parse_i64(tag.name.as_str()).is_none() {
                            assert(!user_cached(lines[i as int][j as int]));
                            assert(!line_checkable(lines[i as int]));
                            return false;
                        }
                    },
                    _ => {},
                }
                j = j + 1;
            }
            assert(line_checkable(lines[i as int]));
            i = i + 1;
        }
        true
    }

    /// Whether some line of the blacklist blacklists `post`.
    pub fn is_blacklisted(&self, post: &PostEntry) -> (b: bool)
        requires
            self.checkable(),
        ensures
            b == !survives_all(self.lines())(*post),
    {
        let ghost lines = self.lines();
        let mut i: usize = 0;
        while i < self.blacklist_tokens.lines.len()
            invariant
                i <= lines.len(),
                lines == self.lines(),
                self.checkable(),
                forall|k: int| 0 <= k < i ==> !blacklisted_by(#[trigger] lines[k], *post),
            decreases lines.len() - i,
        {
            let line = &self.blacklist_tokens.lines[i];
            assert(lines[i as int] == line@);
            assert(line_checkable(lines[i as int]));
            if FlagWorker::flags_post(post, line) {
                return true;
            }
            i = i + 1;
        }
        false
    }

    /// How many of `posts` the blacklist removes.
    pub fn count_blacklisted(&self, posts: &Vec<PostEntry>) -> (n: usize)
        requires
            self.checkable(),
        ensures
            n == posts@.len() - keep(posts@, survives_all(self.lines())).len(),
    {
        let ghost f = survives_all(self.lines());
        let mut n: usize = 0;
        let mut i: usize = 0;
        assert(posts@.take(0) =~= Seq::<PostEntry>::empty());
        while i < posts.len()
            invariant
                i <= posts.len(),
                self.checkable(),
                f == survives_all(self.lines()),
                n == i - keep(posts@.take(i as int), f).len(),
                keep(posts@.take(i as int), f).len() <= i,
            decreases posts.len() - i,
        {
            assert(posts@.take(i + 1).drop_last() =~= posts@.take(i as int));
            assert(posts@.take(i + 1).last() == posts@[i as int]);
            if self.is_blacklisted(&posts[i]) {
                n = n + 1;
            }
            i = i + 1;
        }
        assert(posts@.take(posts.len() as int) =~= posts@);
        n
    }

    proof fn lemma_filter_prefix_len(lines: Seq<Seq<TagModel>>, posts: Seq<PostEntry>, i: int)
        requires
            0 <= i <= lines.len(),
        ensures
            filter_lines(lines, posts).len() <= filter_lines(lines.take(i), posts).len(),
        decreases lines.len() - i,
    {
        if i < lines.len() {
            Self::lemma_filter_prefix_len(lines, posts, i + 1);
            assert(lines.take(i + 1).drop_last() =~= lines.take(i));
            lemma_keep_len(filter_lines(lines.take(i), posts), survives(lines[i]));
        } else {
            assert(lines.take(i) =~= lines);
        }
    }
}

// ---------------------------------------------------------------------------
// User tags
// ---------------------------------------------------------------------------

/// A `user:` tag holding a user name.
pub open spec fn is_user_tag(t: TagModel) -> bool {
    t.kind matches TagKind::User(Some(_))
}

/// The user name of a `user:` tag.
pub open spec fn user_name(t: TagModel) -> Seq<char> {
    match t.kind {
        TagKind::User(Some(n)) => n,
        _ => Seq::empty(),
    }
}

pub open spec fn valid_pos(lines: Seq<Seq<TagModel>>, l: int, t: int) -> bool {
    0 <= l < lines.len() && 0 <= t < lines[l].len()
}

/// A user tag of the blacklist: where it stands and the user's name.
#[derive(Debug)]
pub struct UserRef {
    pub line: usize,
    pub tag: usize,
    pub name: String,
}

pub open spec fn before(a: &UserRef, b: &UserRef) -> bool {
    a.line < b.line || (a.line == b.line && a.tag < b.tag)
}

/// `users` lists user tags of `lines`, in increasing position.
pub open spec fn users_placed(lines: Seq<Seq<TagModel>>, users: Seq<UserRef>) -> bool {
    &&& forall|k: int|
        0 <= k < users.len() ==> valid_pos(lines, #[trigger] users[k].line as int, users[k].tag as int)
            && is_user_tag(lines[users[k].line as int][users[k].tag as int])
    &&& forall|j: int, k: int| 0 <= j < k < users.len() ==> before(&users[j], &users[k])
}

/// `lines2` has the shape, kinds and negations of `lines1`.
pub open spec fn same_shape(lines1: Seq<Seq<TagModel>>, lines2: Seq<Seq<TagModel>>) -> bool {
    &&& lines1.len() == lines2.len()
    &&& forall|l: int| 0 <= l < lines1.len() ==> #[trigger] lines1[l].len() == lines2[l].len()
    &&& forall|l: int, t: int|
        valid_pos(lines1, l, t) ==> #[trigger] lines1[l][t].kind == lines2[l][t].kind
            && lines1[l][t].negated == lines2[l][t].negated
}

impl Blacklist {
    /// The user tags of the blacklist, in order, with their user names.
    pub fn users_to_cache(&self) -> (users: Vec<UserRef>)
        ensures
            users_placed(self.lines(), users@),
            forall|k: int|
                0 <= k < users@.len() ==> #[trigger] users@[k].name@ == user_name(
                    self.lines()[users@[k].line as int][users@[k].tag as int],
                ),
            forall|l: int, t: int|
                valid_pos(self.lines(), l, t) && is_user_tag(#[trigger] self.lines()[l][t]) ==> exists|
                    k: int,
                | 0 <= k < users@.len() && users@[k].line == l && users@[k].tag == t,
    {
        let ghost lines = self.lines();
        let mut users: Vec<UserRef> = Vec::new();
        let mut l: usize = 0;
        while l < self.blacklist_tokens.lines.len()
            invariant
                lines == self.lines(),
                l <= lines.len(),
                users_placed(lines, users@),
                forall|k: int| 0 <= k < users@.len() ==> (#[trigger] users@[k]).line < l,
                forall|k: int|
                    0 <= k < users@.len() ==> #[trigger] users@[k].name@ == user_name(
                        lines[users@[k].line as int][users@[k].tag as int],
                    ),
                forall|l2: int, t: int|
                    0 <= l2 < l && valid_pos(lines, l2, t) && is_user_tag(#[trigger] lines[l2][t])
                        ==> exists|k: int|
                        0 <= k < users@.len() && users@[k].line == l2 && users@[k].tag == t,
            decreases lines.len() - l,
        {
            let line = &self.blacklist_tokens.lines[l];
            assert(lines[l as int] == line@);
            let mut t: usize = 0;
            while t < line.tags.len()
                invariant
                    lines == self.lines(),
                    l < lines.len(),
                    lines[l as int] == line@,
                    t <= line.tags.len(),
                    users_placed(lines, users@),
                    forall|k: int|
                        0 <= k < users@.len() ==> (#[trigger] users@[k]).line < l || (users@[k].line
                            == l && users@[k].tag < t),
                    forall|k: int|
                        0 <= k < users@.len() ==> #[trigger] users@[k].name@ == user_name(
                            lines[users@[k].line as int][users@[k].tag as int],
                        ),
                    forall|l2: int, t2: int|
                        ((0 <= l2 < l) || (l2 == l && 0 <= t2 < t)) && valid_pos(lines, l2, t2)
                            && is_user_tag(#[trigger] lines[l2][t2]) ==> exists|k: int|
                            0 <= k < users@.len() && users@[k].line == l2 && users@[k].tag == t2,
                decreases line.tags.len() - t,
            {
                let tag = &line.tags[t];
                assert(lines[l as int][t as int] == tag@);
                if let TagType::User(Some(name)) = &tag.tag_type {
                    let ghost old_users = users@;
                    users.push(UserRef { line: l, tag: t, name: name.clone() });
                    assert(users@[users@.len() - 1].line == l);
                    assert forall|l2: int, t2: int|
                        ((0 <= l2 < l) || (l2 == l && 0 <= t2 < t + 1)) && valid_pos(lines, l2, t2)
                            && is_user_tag(#[trigger] lines[l2][t2]) implies exists|k: int|
                        0 <= k < users@.len() && users@[k].line == l2 && users@[k].tag == t2 by {
                        if l2 == l && t2 == t {
                            assert(users@[old_users.len() as int].line == l2);
                        } else {
                            let k = choose|k: int|
                                0 <= k < old_users.len() && old_users[k].line == l2
                                    && old_users[k].tag == t2;
                            assert(users@[k] == old_users[k]);
                        }
                    }
                }
                t = t + 1;
            }
            l = l + 1;
        }
        users
    }

    /// Stores `id` as the name of the tag at `line`, `tag`.
    pub fn cache_user(&mut self, line: usize, tag: usize, id: i64)
        requires
            valid_pos(old(self).lines(), line as int, tag as int),
        ensures
            same_shape(old(self).lines(), final(self).lines()),
            final(self).lines()[line as int][tag as int].name == decimal(id as int),
            forall|l: int, t: int|
                valid_pos(old(self).lines(), l, t) && !(l == line && t == tag) ==> #[trigger] final(self).lines()[l][t] == old(self).lines()[l][t],
    {
        let ghost old_lines = self.lines();
        let mut line_token = self.blacklist_tokens.lines.remove(line);
        let mut token = line_token.tags.remove(tag);
        token.name = i64_to_string(id);
        line_token.tags.insert(tag, token);
        self.blacklist_tokens.lines.insert(line, line_token);
        let ghost new_lines = self.lines();
        assert forall|l: int| 0 <= l < old_lines.len() && l != line implies #[trigger] new_lines[l]
            == old_lines[l] by {
            if l < line {
            } else {
            }
        }
        assert(new_lines[line as int] =~= old_lines[line as int].update(tag as int, new_lines[line as int][tag as int]));
    }

    /// Caches user ids into the user tags' names for quicker access during
    /// the blacklist checks: `ids[k]` is the id of the user of `users[k]`.
    pub fn cache_users(&mut self, users: &Vec<UserRef>, ids: &Vec<i64>)
        requires
            users_placed(old(self).lines(), users@),
            users@.len() == ids@.len(),
        ensures
            same_shape(old(self).lines(), final(self).lines()),
            forall|k: int|
                0 <= k < users@.len() ==> final(self).lines()[#[trigger] users@[k].line as int][users@[k].tag as int].name
                    == decimal(ids@[k] as int),
            forall|k: int|
                0 <= k < users@.len() ==> parse_i64(
                    final(self).lines()[#[trigger] users@[k].line as int][users@[k].tag as int].name,
                ) == Some(ids@[k]),
            forall|l: int, t: int|
                valid_pos(old(self).lines(), l, t) && (forall|k: int|
                    0 <= k < users@.len() ==> !(#[trigger] users@[k].line == l && users@[k].tag
                        == t)) ==> #[trigger] final(self).lines()[l][t] == old(self).lines()[l][t],
    {
        let ghost old_lines = self.lines();
        let mut k: usize = 0;
        while k < users.len()
            invariant
                k <= users@.len(),
                users@.len() == ids@.len(),
                users_placed(old_lines, users@),
                same_shape(old_lines, self.lines()),
                forall|j: int|
                    0 <= j < k ==> self.lines()[#[trigger] users@[j].line as int][users@[j].tag as int].name
                        == decimal(ids@[j] as int),
                forall|l: int, t: int|
                    valid_pos(old_lines, l, t) && (forall|j: int|
                        0 <= j < k ==> !(#[trigger] users@[j].line == l && users@[j].tag == t))
                        ==> #[trigger] self.lines()[l][t] == old_lines[l][t],
            decreases users@.len() - k,
        {
            let ghost prev = self.lines();
            let u = &users[k];
            assert(valid_pos(old_lines, u.line as int, u.tag as int));
            self.cache_user(u.line, u.tag, ids[k]);
            assert forall|j: int| 0 <= j < k + 1 implies self.lines()[#[trigger] users@[j].line as int][users@[j].tag as int].name
                == decimal(ids@[j] as int) by {
                if j < k {
                    assert(before(&users@[j], &users@[k as int]));
                }
            }
            k = k + 1;
        }
        assert forall|j: int| 0 <= j < users@.len() implies parse_i64(
            self.lines()[#[trigger] users@[j].line as int][users@[j].tag as int].name,
        ) == Some(ids@[j]) by {
            lemma_decimal_roundtrip(ids@[j]);
        }
    }
}

} // verus!
