//! A character-by-character parser over the trimmed input, on which the
//! blacklist and tag-file parsers build their rules.

use vstd::prelude::*;
use vstd::string::StringSliceAdditionalSpecFns;

use crate::blacklist;
use crate::tag;
use crate::text::{chars_to_string, char_is_whitespace, is_ascii_letter, is_digit, push_char, str_to_chars, unicode_white_space};

verus! {

// ---------------------------------------------------------------------------
// Specification of the cursor
// ---------------------------------------------------------------------------

/// The first index at or after `p` whose character does not satisfy `f`, or
/// the length of `s` when there is none.
pub open spec fn run_end(s: Seq<char>, p: int, f: spec_fn(char) -> bool) -> int
    decreases s.len() - p,
{
    if p < 0 || p >= s.len() {
        if p < 0 {
            0
        } else {
            p
        }
    } else if f(s[p]) {
        run_end(s, p + 1, f)
    } else {
        p
    }
}

/// The length of `s` without its trailing whitespace.
pub open spec fn trimmed_end(s: Seq<char>) -> int
    decreases s.len(),
{
    if s.len() == 0 {
        0
    } else if unicode_white_space(s.last()) {
        trimmed_end(s.drop_last())
    } else {
        s.len() as int
    }
}

pub open spec fn white_space() -> spec_fn(char) -> bool {
    |c: char| unicode_white_space(c)
}

/// `str::trim`: `s` without its leading and trailing whitespace.
pub open spec fn trim(s: Seq<char>) -> Seq<char> {
    let start = run_end(s, 0, white_space());
    let end = trimmed_end(s);
    if start < end {
        s.subrange(start, end)
    } else {
        Seq::empty()
    }
}

pub open spec fn is_line_break(c: char) -> bool {
    c == '\n' || c == '\r'
}

/// The column counter after consuming `pos` characters of `s`: each consumed
/// character that is followed by a line break counts one.
pub open spec fn column_at(s: Seq<char>, pos: int) -> int
    decreases pos,
{
    if pos <= 0 {
        0
    } else if pos < s.len() && is_line_break(s[pos]) {
        column_at(s, pos - 1) + 1
    } else {
        column_at(s, pos - 1)
    }
}

/// The number of newline characters in `s`.
pub open spec fn count_newlines(s: Seq<char>) -> int
    decreases s.len(),
{
    if s.len() == 0 {
        0
    } else {
        count_newlines(s.drop_last()) + if s.last() == '\n' {
            1int
        } else {
            0int
        }
    }
}

pub proof fn lemma_run_end_bounds(s: Seq<char>, p: int, f: spec_fn(char) -> bool)
    requires
        0 <= p <= s.len(),
    ensures
        p <= run_end(s, p, f) <= s.len(),
        forall|i: int| p <= i < run_end(s, p, f) ==> f(#[trigger] s[i]),
        run_end(s, p, f) < s.len() ==> !f(s[run_end(s, p, f)]),
    decreases s.len() - p,
{
    if p < s.len() && f(s[p]) {
        lemma_run_end_bounds(s, p + 1, f);
    }
}

pub proof fn lemma_trimmed_end_bound(s: Seq<char>)
    ensures
        0 <= trimmed_end(s) <= s.len(),
    decreases s.len(),
{
    if s.len() > 0 {
        lemma_trimmed_end_bound(s.drop_last());
    }
}

/// A trimmed text that is not empty starts with a character that is not
/// whitespace.
pub proof fn lemma_trim_first(s: Seq<char>)
    ensures
        trim(s).len() > 0 ==> !unicode_white_space(trim(s)[0]),
{
    let start = run_end(s, 0, white_space());
    lemma_trimmed_end_bound(s);
    lemma_run_end_bounds(s, 0, white_space());
    if trim(s).len() > 0 {
        assert(trim(s)[0] == s[start]);
    }
}

pub proof fn lemma_run_end_step(s: Seq<char>, p: int, q: int, f: spec_fn(char) -> bool)
    requires
        0 <= p <= q <= s.len(),
        forall|i: int| p <= i < q ==> f(#[trigger] s[i]),
    ensures
        run_end(s, p, f) == run_end(s, q, f),
    decreases q - p,
{
    if p < q {
        lemma_run_end_step(s, p + 1, q, f);
    }
}

/// `s` without its leading and trailing whitespace.
pub fn trim_str(text: &str) -> (r: String)
    ensures
        r@ == trim(text@),
{
    let all = str_to_chars(text);
    let ghost s = all@;
    // Leading whitespace.
    let mut start: usize = 0;
    while start < all.len() && char_is_whitespace(all[start])
        invariant
            0 <= start <= all.len(),
            all@ == s,
            run_end(s, 0, white_space()) == run_end(s, start as int, white_space()),
        decreases all.len() - start,
    {
        proof {
            lemma_run_end_step(s, start as int, start + 1, white_space());
        }
        start = start + 1;
    }
    assert(run_end(s, start as int, white_space()) == start as int);
    // Trailing whitespace.
    let mut end: usize = all.len();
    assert(s.take(s.len() as int) =~= s);
    while end > 0 && char_is_whitespace(all[end - 1])
        invariant
            0 <= end <= all.len(),
            all@ == s,
            trimmed_end(s) == trimmed_end(s.take(end as int)),
        decreases end,
    {
        assert(s.take(end as int).drop_last() =~= s.take(end - 1));
        end = end - 1;
    }
    assert(end == 0 ==> s.take(end as int) =~= Seq::<char>::empty());
    assert(trimmed_end(s.take(end as int)) == end);
    if start < end {
        chars_to_string(&all, start, end)
    } else {
        String::new()
    }
}

// ---------------------------------------------------------------------------
// Character classes

// ---------------------------------------------------------------------------

/// The classes of characters that the parsers consume runs of.
#[derive(Clone, Copy, Debug, PartialEq, Eq, Structural)]
pub enum CharClass {
    WhiteSpace,
    /// Whitespace other than a newline.
    InlineWhiteSpace,
    BlacklistTag,
    BlacklistUser,
    BlacklistRating,
    BlacklistScoreOrder,
    BlacklistScore,
    BlacklistId,
    TagFileTag,
    TagFileId,
    TagFileGroup,
    TagFileComment,
}

impl CharClass {
    pub open spec fn spec_matches(self, c: char) -> bool {
        match self {
            CharClass::WhiteSpace => unicode_white_space(c),
            CharClass::InlineWhiteSpace => unicode_white_space(c) && c != '\n',
            CharClass::BlacklistTag => blacklist::is_tag_char(c),
            CharClass::BlacklistUser => blacklist::is_user_char(c),
            CharClass::BlacklistRating => is_ascii_letter(c),
            CharClass::BlacklistScoreOrder => blacklist::is_order_char(c),
            CharClass::BlacklistScore => is_digit(c),
            CharClass::BlacklistId => is_digit(c),
            CharClass::TagFileTag => tag::is_tag_char(c),
            CharClass::TagFileId => is_digit(c),
            CharClass::TagFileGroup => tag::is_group_char(c),
            CharClass::TagFileComment => tag::is_comment_char(c),
        }
    }

    pub open spec fn pred(self) -> spec_fn(char) -> bool {
        |c: char| self.spec_matches(c)
    }

    /// Whether `c` belongs to the class.
    pub fn matches(self, c: char) -> (b: bool)
        ensures
            b == self.spec_matches(c),
    {
        match self {
            CharClass::WhiteSpace => char_is_whitespace(c),
            CharClass::InlineWhiteSpace => char_is_whitespace(c) && c != '\n',
            CharClass::BlacklistTag => blacklist::valid_tag(c),
            CharClass::BlacklistUser => blacklist::valid_user(c),
            CharClass::BlacklistRating => blacklist::valid_rating(c),
            CharClass::BlacklistScoreOrder => blacklist::valid_ordering(c),
            CharClass::BlacklistScore => blacklist::valid_score(c),
            CharClass::BlacklistId => blacklist::valid_id(c),
            CharClass::TagFileTag => tag::valid_tag(c),
            CharClass::TagFileId => tag::valid_id(c),
            CharClass::TagFileGroup => tag::valid_group(c),
            CharClass::TagFileComment => tag::valid_comment(c),
        }
    }
}

// ---------------------------------------------------------------------------
// Errors
// ---------------------------------------------------------------------------

/// What went wrong while parsing.
#[derive(Clone, Copy, Debug, PartialEq, Eq, Structural)]
pub enum ParseErrorKind {
    /// A blacklist tag of the form `name:value` whose name is not one of
    /// `rating`, `id`, `user` or `score`.
    UnknownSpecialTag,
    /// A blacklist `score:` tag whose digits do not form an `i32`.
    InvalidScore,
    /// Text of the tag file outside of any group.
    TagsMustBeInGroups,
    /// A tag-file group whose name is not `artists`, `general`, `pools`,
    /// `sets` or `single-post`, holding a tag.
    UnknownTagType,
    /// A tag-file group name that is not closed by `]`.
    UnclosedGroup,
    /// A tag that consumes no character, at which parsing cannot advance.
    NoProgress,
}

/// An error met at character `pos` (counted in characters of the trimmed
/// input) and column `column`.
#[derive(Debug)]
pub struct ParseError {
    pub kind: ParseErrorKind,
    pub pos: usize,
    pub column: usize,
    /// The text the error is about (the unknown special tag's name), or empty.
    pub detail: String,
}

/// The model of a parse error: its kind, position, column and detail.
pub struct ParseErrorModel {
    pub kind: ParseErrorKind,
    pub pos: int,
    pub column: int,
    pub detail: Seq<char>,
}

impl ParseError {
    pub open spec fn model(&self) -> ParseErrorModel {
        ParseErrorModel {
            kind: self.kind,
            pos: self.pos as int,
            column: self.column as int,
            detail: self.detail@,
        }
    }
}

// ---------------------------------------------------------------------------
// The parser
// ---------------------------------------------------------------------------

/// A parser that's responsible for parsing text character-by-character
/// without any inherent rule.
pub struct BaseParser {
    /// Current cursor position, in characters.
    pos: usize,
    /// Input used for parsing (the trimmed text).
    input: Vec<char>,
    /// The current column being parsed.
    current_column: usize,
    /// The total number of bytes of the untrimmed text.
    total_len: usize,
    /// The number of newline characters in the input.
    total_columns: usize,
}

impl BaseParser {
    /// The characters being parsed.
    pub closed spec fn text(&self) -> Seq<char> {
        self.input@
    }

    /// The cursor.
    pub closed spec fn cursor(&self) -> int {
        self.pos as int
    }

    pub closed spec fn column(&self) -> int {
        self.current_column as int
    }

    pub closed spec fn newlines(&self) -> int {
        self.total_columns as int
    }

    pub closed spec fn byte_len(&self) -> int {
        self.total_len as int
    }

    /// The cursor lies within the text and the column matches it.
    pub open spec fn wf(&self) -> bool {
        &&& 0 <= self.cursor() <= self.text().len()
        &&& self.column() == column_at(self.text(), self.cursor())
        &&& self.text().len() <= usize::MAX
    }

    /// The characters from the cursor on.
    pub open spec fn rest(&self) -> Seq<char> {
        self.text().skip(self.cursor())
    }

    /// Creates a parser for `input` with its leading and trailing whitespace
    /// removed.
    pub fn new(input: String) -> (parser: Self)
        ensures
            parser.wf(),
            parser.text() == trim(input@),
            parser.cursor() == 0,
            parser.byte_len() == (vstd::utf8::encode_utf8(input@).len() as usize) as int,
            parser.newlines() == count_newlines(trim(input@)),
    {
        let total_len = input.as_str().len();
        let trimmed = trim_str(input.as_str());
        let chars = str_to_chars(trimmed.as_str());
        let ghost s = input@;
        let mut newlines: usize = 0;
        let mut j: usize = 0;
        while j < chars.len()
            invariant
                0 <= j <= chars.len(),
                chars@ == trim(s),
                newlines == count_newlines(chars@.take(j as int)),
                newlines <= j,
            decreases chars.len() - j,
        {
            assert(chars@.take(j + 1).drop_last() =~= chars@.take(j as int));
            if chars[j] == '\n' {
                newlines = newlines + 1;
            }
            j = j + 1;
        }
        assert(chars@.take(chars.len() as int) =~= chars@);
        BaseParser {
            pos: 0,
            input: chars,
            current_column: 0,
            total_len,
            total_columns: newlines,
        }
    }

    /// Consumes and discards zero or more whitespace characters.
    pub fn consume_whitespace(&mut self)
        requires
            old(self).wf(),
        ensures
            final(self).wf(),
            final(self).text() == old(self).text(),
            final(self).cursor() == run_end(old(self).text(), old(self).cursor(), white_space()),
            old(self).cursor() <= final(self).cursor(),
    {
        let _ = self.consume_while(CharClass::WhiteSpace);
        assert(CharClass::WhiteSpace.pred() == white_space());
    }

    /// Consumes characters while they belong to `class`, returning them.
    pub fn consume_while(&mut self, class: CharClass) -> (run: String)
        requires
            old(self).wf(),
        ensures
            final(self).wf(),
            final(self).text() == old(self).text(),
            final(self).cursor() == run_end(old(self).text(), old(self).cursor(), class.pred()),
            run@ == old(self).text().subrange(old(self).cursor(), final(self).cursor()),
            old(self).cursor() <= final(self).cursor(),
    {
        let ghost s = self.input@;
        let ghost p0 = self.pos as int;
        let mut result = String::new();
        proof {
            lemma_run_end_bounds(s, p0, class.pred());
        }
        while !self.eof() && class.matches(self.next_char())
            invariant
                self.wf(),
                self.text() == s,
                0 <= p0 <= self.cursor(),
                run_end(s, p0, class.pred()) == run_end(s, self.cursor(), class.pred()),
                result@ == s.subrange(p0, self.cursor()),
            decreases s.len() - self.cursor(),
        {
            let ghost p = self.pos as int;
            proof {
                lemma_run_end_step(s, p, p + 1, class.pred());
            }
            let c = self.consume_char();
            push_char(&mut result, c);
            assert(s.subrange(p0, p + 1) =~= s.subrange(p0, p).push(s[p]));
        }
        proof {
            lemma_run_end_bounds(s, self.cursor(), class.pred());
        }
        result
    }

    /// Returns the character at the cursor and moves the cursor past it.
    pub fn consume_char(&mut self) -> (c: char)
        requires
            old(self).wf(),
            old(self).cursor() < old(self).text().len(),
        ensures
            final(self).wf(),
            final(self).text() == old(self).text(),
            final(self).cursor() == old(self).cursor() + 1,
            c == old(self).text()[old(self).cursor()],
    {
        let c = self.input[self.pos];
        // A following line break moves the column on.
        if self.pos < self.input.len() - 1 && (self.input[self.pos + 1] == '\n' || self.input[
            self.pos + 1] == '\r') {
            assert(self.current_column < self.pos + 1) by {
                self.lemma_column_le(self.pos as int);
            }
            self.current_column = self.current_column + 1;
        }
        self.pos = self.pos + 1;
        c
    }

    proof fn lemma_column_le(&self, p: int)
        requires
            0 <= p,
        ensures
            column_at(self.text(), p) <= p,
        decreases p,
    {
        if p > 0 {
            self.lemma_column_le(p - 1);
        }
    }

    /// Reads the character at the cursor without consuming it.
    pub fn next_char(&self) -> (c: char)
        requires
            self.wf(),
            self.cursor() < self.text().len(),
        ensures
            c == self.text()[self.cursor()],
    {
        self.input[self.pos]
    }

    /// Whether the character at the cursor is `c`.
    pub fn next_is(&self, c: char) -> (b: bool)
        requires
            self.wf(),
        ensures
            b == (self.cursor() < self.text().len() && self.text()[self.cursor()] == c),
    {
        self.pos < self.input.len() && self.input[self.pos] == c
    }

    /// Whether the text from the cursor on starts with `s`.
    pub fn starts_with(&self, s: &str) -> (b: bool)
        requires
            self.wf(),
        ensures
            b == (s@.len() <= self.rest().len() && self.rest().take(s@.len() as int) == s@),
    {
        let pattern = str_to_chars(s);
        if pattern.len() > self.input.len() - self.pos {
            return false;
        }
        let mut i: usize = 0;
        while i < pattern.len()
            invariant
                self.wf(),
                pattern@ == s@,
                i <= pattern.len() <= self.text().len() - self.cursor(),
                forall|k: int| 0 <= k < i ==> self.rest()[k] == pattern@[k],
            decreases pattern.len() - i,
        {
            if self.input[self.pos + i] != pattern[i] {
                assert(self.rest().take(s@.len() as int)[i as int] != s@[i as int]);
                return false;
            }
            i = i + 1;
        }
        assert(self.rest().take(s@.len() as int) =~= s@);
        true
    }

    /// The text from the cursor on.
    pub fn get_current_input(&self) -> (r: &[char])
        requires
            self.wf(),
        ensures
            r@ == self.rest(),
    {
        vstd::slice::slice_subrange(self.input.as_slice(), self.pos, self.input.len())
    }

    /// Whether the cursor is at the end of the text.
    pub fn eof(&self) -> (b: bool)
        requires
            self.wf(),
        ensures
            b == (self.cursor() >= self.text().len()),
    {
        self.pos >= self.input.len()
    }

    /// The error `kind` at the cursor, with `detail` attached.
    pub fn report_error(&self, kind: ParseErrorKind, detail: String) -> (e: ParseError)
        requires
            self.wf(),
        ensures
            e.model() == (ParseErrorModel {
                kind,
                pos: self.cursor(),
                column: column_at(self.text(), self.cursor()),
                detail: detail@,
            }),
    {
        ParseError { kind, pos: self.pos, column: self.current_column, detail }
    }

    /// The number of bytes of the text the parser was made from, before trimming.
    pub fn total_len(&self) -> (n: usize)
        ensures
            n == self.byte_len(),
    {
        self.total_len
    }

    /// The number of newline characters in the text.
    pub fn total_columns(&self) -> (n: usize)
        ensures
            n == self.newlines(),
    {
        self.total_columns
    }

    /// The current column.
    pub fn current_column(&self) -> (n: usize)
        ensures
            n == self.column(),
    {
        self.current_column
    }

    /// The cursor.
    pub fn pos(&self) -> (n: usize)
        ensures
            n == self.cursor(),
    {
        self.pos
    }
}

} // verus!
