//! What the request sender knows before it sends anything: the credentials
//! it authorises with, and the API's urls on e621 or e926.

use vstd::prelude::*;
use vstd::string::StringExecFns;

use crate::io::Login;
use crate::text::{decimal, i64_to_string, replace_all, str_eq, str_replace, string_from_str};

verus! {

/// What `base64_url::encode` makes of the UTF-8 bytes it is given: their
/// Base64 encoding in the URL-safe alphabet, without `=` padding.
pub uninterp spec fn base64_url_text(bytes: Seq<u8>) -> Seq<char>;

/// The length of the Base64 text of `n` bytes without padding: four
/// characters for each three bytes, and two or three for the one or two bytes
/// left over.
pub open spec fn base64_len(n: nat) -> nat {
    (n / 3) * 4 + if n % 3 == 0 {
        0nat
    } else if n % 3 == 1 {
        2nat
    } else {
        3nat
    }
}

/// Calls `base64_url::encode` on the UTF-8 bytes of `s`. The encoding is a
/// function of those bytes alone, with the length the crate computes
/// (`encoded_len` without padding); the contract names the text rather than
/// spelling out the Base64 alphabet. The crate panics when that length does
/// not fit in a `usize`.
#[verifier::external_body]
fn encode_base64_url(s: &str) -> (r: String)
    requires
        base64_len(vstd::utf8::encode_utf8(s@).len()) <= usize::MAX,
    ensures
        r@ == base64_url_text(vstd::utf8::encode_utf8(s@)),
        r@.len() == base64_len(vstd::utf8::encode_utf8(s@).len()),
{
    base64_url::encode(s)
}

/// The credentials `user:key` that the sender authorises with.
pub open spec fn credentials(username: Seq<char>, api_key: Seq<char>) -> Seq<char> {
    username + seq![':'] + api_key
}

/// The urls the sender starts with, by name.
pub open spec fn initial_urls() -> Seq<(Seq<char>, Seq<char>)> {
    seq![
        ("posts"@, "https://e621.net/posts.json"@),
        ("pool"@, "https://e621.net/pools/"@),
        ("set"@, "https://e621.net/post_sets/"@),
        ("single"@, "https://e621.net/posts/"@),
        ("blacklist"@, "https://e621.net/users/"@),
        ("tag"@, "https://e621.net/tags/"@),
        ("tag_bulk"@, "https://e621.net/tags.json"@),
        ("alias"@, "https://e621.net/tag_aliases.json"@),
        ("user"@, "https://e621.net/users/"@),
    ]
}

/// No name occurs twice among `urls`, so each name finds one url.
pub open spec fn names_distinct(urls: Seq<(Seq<char>, Seq<char>)>) -> bool {
    forall|i: int, j: int| 0 <= i < j < urls.len() ==> #[trigger] urls[i].0 != #[trigger] urls[j].0
}

/// The urls the sender starts with have distinct names.
pub proof fn lemma_initial_names_distinct()
    ensures
        names_distinct(initial_urls()),
{
    reveal_strlit("posts");
    reveal_strlit("pool");
    reveal_strlit("set");
    reveal_strlit("single");
    reveal_strlit("blacklist");
    reveal_strlit("tag");
    reveal_strlit("tag_bulk");
    reveal_strlit("alias");
    reveal_strlit("user");
    let u = initial_urls();
    assert forall|i: int, j: int| 0 <= i < j < u.len() implies #[trigger] u[i].0 != #[trigger] u[j].0 by {
        if u[i].0.len() == u[j].0.len() {
            assert(u[i].0[0] != u[j].0[0]);
        }
    }
}

/// Moving urls to the safe site keeps their names.
pub proof fn lemma_safe_keeps_names(urls: Seq<(Seq<char>, Seq<char>)>)
    ensures
        safe_urls(urls).len() == urls.len(),
        forall|i: int| 0 <= i < urls.len() ==> (#[trigger] safe_urls(urls)[i]).0 == urls[i].0,
        names_distinct(safe_urls(urls)) == names_distinct(urls),
{
    let s = safe_urls(urls);
    if names_distinct(urls) {
        assert forall|i: int, j: int| 0 <= i < j < s.len() implies #[trigger] s[i].0 != #[trigger] s[j].0 by {
            assert(urls[i].0 != urls[j].0);
        }
    }
    if names_distinct(s) {
        assert forall|i: int, j: int| 0 <= i < j < urls.len() implies #[trigger] urls[i].0
            != #[trigger] urls[j].0 by {
            assert(s[i].0 != s[j].0);
        }
    }
}

/// The urls `urls` moved to the safe site: `e621` replaced by `e926` in each.
pub open spec fn safe_urls(urls: Seq<(Seq<char>, Seq<char>)>) -> Seq<(Seq<char>, Seq<char>)> {
    urls.map_values(|u: (Seq<char>, Seq<char>)| (u.0, replace_all(u.1, "e621"@, "e926"@)))
}

/// `s` with `e621` replaced by `e926`.
pub open spec fn to_e926(s: Seq<char>) -> Seq<char> {
    replace_all(s, "e621"@, "e926"@)
}

proof fn lemma_e926_len(s: Seq<char>)
    ensures
        to_e926(s).len() == s.len(),
    decreases s.len(),
{
    reveal_strlit("e621");
    reveal_strlit("e926");
    if s.len() >= 4 {
        if s.take(4) == "e621"@ {
            lemma_e926_len(s.skip(4));
        } else {
            lemma_e926_len(s.drop_first());
        }
    }
}

/// Replacing keeps the first character.
proof fn lemma_e926_first(s: Seq<char>)
    requires
        s.len() > 0,
    ensures
        to_e926(s)[0] == s[0],
{
    reveal_strlit("e621");
    reveal_strlit("e926");
    if s.len() >= 4 && s.take(4) == "e621"@ {
        assert(s[0] == s.take(4)[0]);
    }
}

/// A text that does not start with `e` keeps its first character and has
/// the rest replaced.
proof fn lemma_e926_step(s: Seq<char>)
    requires
        s.len() > 0,
        s[0] != 'e',
    ensures
        to_e926(s) == seq![s[0]] + to_e926(s.drop_first()),
{
    reveal_strlit("e621");
    reveal_strlit("e926");
    if s.len() >= 4 {
        assert(s.take(4)[0] != "e621"@[0]);
    } else {
        assert(seq![s[0]] + s.drop_first() =~= s);
    }
}

/// A replaced text starts with `621` only where the text did.
proof fn lemma_e926_no_621(t: Seq<char>)
    requires
        t.len() >= 3,
        to_e926(t).len() >= 3,
        to_e926(t)[0] == '6',
        to_e926(t)[1] == '2',
        to_e926(t)[2] == '1',
    ensures
        t[0] == '6' && t[1] == '2' && t[2] == '1',
{
    lemma_e926_first(t);
    assert(t[0] == '6');
    lemma_e926_step(t);
    let t1 = t.drop_first();
    assert(to_e926(t1)[0] == to_e926(t)[1]);
    assert(to_e926(t1)[1] == to_e926(t)[2]);
    lemma_e926_first(t1);
    assert(t1[0] == '2');
    lemma_e926_step(t1);
    let t2 = t1.drop_first();
    assert(to_e926(t2)[0] == to_e926(t1)[1]);
    lemma_e926_first(t2);
}

/// Replacing `e621` by `e926` a second time changes nothing.
pub proof fn lemma_e926_idempotent(s: Seq<char>)
    ensures
        to_e926(to_e926(s)) == to_e926(s),
    decreases s.len(),
{
    reveal_strlit("e621");
    reveal_strlit("e926");
    let f = "e621"@;
    let t = "e926"@;
    if s.len() < 4 {
    } else if s.take(4) == f {
        let rest = s.skip(4);
        lemma_e926_idempotent(rest);
        let x = to_e926(rest);
        let y = t + x;
        assert(y.take(4) =~= t);
        assert(y.take(4)[1] != f[1]);
        assert(to_e926(y) == seq![y[0]] + to_e926(y.drop_first()));
        let y1 = y.drop_first();
        lemma_e926_step(y1);
        let y2 = y1.drop_first();
        lemma_e926_step(y2);
        let y3 = y2.drop_first();
        lemma_e926_step(y3);
        assert(y3.drop_first() =~= x);
        assert(to_e926(y) =~= t + to_e926(x));
    } else {
        let s1 = s.drop_first();
        lemma_e926_idempotent(s1);
        let r1 = to_e926(s1);
        let y = seq![s[0]] + r1;
        assert(to_e926(s) == y);
        assert(y.drop_first() =~= r1);
        if s[0] != 'e' {
            lemma_e926_step(y);
        } else {
            lemma_e926_len(s1);
            if y.take(4) == f {
                assert(r1[0] == y.take(4)[1]);
                assert(r1[1] == y.take(4)[2]);
                assert(r1[2] == y.take(4)[3]);
                lemma_e926_no_621(s1);
                assert(s.take(4) =~= f);
            }
            assert(to_e926(y) == seq![y[0]] + to_e926(y.drop_first()));
        }
    }
}

/// Moving the urls to the safe site a second time changes nothing.
pub proof fn lemma_safe_urls_idempotent(urls: Seq<(Seq<char>, Seq<char>)>)
    ensures
        safe_urls(safe_urls(urls)) == safe_urls(urls),
{
    assert forall|i: int| 0 <= i < urls.len() implies #[trigger] safe_urls(safe_urls(urls))[i] == safe_urls(urls)[i] by {
        lemma_e926_idempotent(urls[i].1);
    }
    assert(safe_urls(safe_urls(urls)) =~= safe_urls(urls));
}

/// The views of a list of named urls.
pub open spec fn url_views(urls: Seq<(String, String)>) -> Seq<(Seq<char>, Seq<char>)> {
    urls.map_values(|u: (String, String)| (u.0@, u.1@))
}

/// The url named `key` in `urls`: the first one of that name.
pub open spec fn url_named(urls: Seq<(Seq<char>, Seq<char>)>, key: Seq<char>) -> Option<Seq<char>>
    decreases urls.len(),
{
    if urls.len() == 0 {
        None
    } else if urls[0].0 == key {
        Some(urls[0].1)
    } else {
        url_named(urls.drop_first(), key)
    }
}

/// The most posts the API gives for one page of a search.
pub const POSTS_PER_PAGE: u16 = 320;

/// A sender that handles direct calls to the API: it holds the credentials
/// and the urls; the requests themselves are sent by the program. The
/// program keeps one sender and lends it to every part that asks the API,
/// so moving it to the safe site moves them all.
pub struct RequestSender {
    /// The base64 encoded username and API key of the user, or empty.
    auth: String,
    /// All available urls, by name.
    urls: Vec<(String, String)>,
}

impl RequestSender {
    /// The authorisation the sender sends with its requests, or empty.
    pub closed spec fn spec_auth(&self) -> Seq<char> {
        self.auth@
    }

    /// The sender's urls, by name.
    pub closed spec fn spec_urls(&self) -> Seq<(Seq<char>, Seq<char>)> {
        url_views(self.urls@)
    }

    /// A sender for the user of `login`: without credentials when the login
    /// lacks a username or an API key.
    pub fn new(login: &Login) -> (r: Self)
        requires
            login@.username.len() > 0 && login@.api_key.len() > 0 ==> base64_len(
                vstd::utf8::encode_utf8(credentials(login@.username, login@.api_key)).len(),
            ) <= usize::MAX,
        ensures
            r.spec_auth().len() > 0 <==> (login@.username.len() > 0 && login@.api_key.len() > 0),
            r.spec_auth() == (if login@.username.len() == 0 || login@.api_key.len() == 0 {
                Seq::empty()
            } else {
                base64_url_text(vstd::utf8::encode_utf8(credentials(login@.username, login@.api_key)))
            }),
            r.spec_urls() == initial_urls(),
            names_distinct(r.spec_urls()),
    {
        proof {
            lemma_initial_names_distinct();
        }
        let auth = if login.is_empty() {
            String::new()
        } else {
            let mut text = string_from_str(login.username());
            text.append(":");
            text.append(login.api_key());
            proof {
                reveal_strlit(":");
                assert(text@ =~= credentials(login@.username, login@.api_key));
                assert(text@.len() > 0);
                assert(vstd::utf8::encode_utf8(text@).len() > 0);
            }
            encode_base64_url(text.as_str())
        };
        RequestSender { auth, urls: Self::initialize_url_map() }
    }

    /// Initializes all the urls that will be used by the sender.
    pub fn initialize_url_map() -> (urls: Vec<(String, String)>)
        ensures
            url_views(urls@) == initial_urls(),
    {
        let mut urls: Vec<(String, String)> = Vec::new();
        urls.push((string_from_str("posts"), string_from_str("https://e621.net/posts.json")));
        urls.push((string_from_str("pool"), string_from_str("https://e621.net/pools/")));
        urls.push((string_from_str("set"), string_from_str("https://e621.net/post_sets/")));
        urls.push((string_from_str("single"), string_from_str("https://e621.net/posts/")));
        urls.push((string_from_str("blacklist"), string_from_str("https://e621.net/users/")));
        urls.push((string_from_str("tag"), string_from_str("https://e621.net/tags/")));
        urls.push((string_from_str("tag_bulk"), string_from_str("https://e621.net/tags.json")));
        urls.push((string_from_str("alias"), string_from_str("https://e621.net/tag_aliases.json")));
        urls.push((string_from_str("user"), string_from_str("https://e621.net/users/")));
        assert(url_views(urls@) =~= initial_urls());
        urls
    }

    /// The authorisation sent with requests: empty when there is none.
    pub fn auth(&self) -> (a: &str)
        ensures
            a@ == self.spec_auth(),
    {
        self.auth.as_str()
    }

    /// If the client authenticated or not.
    pub fn is_authenticated(&self) -> (b: bool)
        ensures
            b == (self.spec_auth().len() > 0),
    {
        !self.auth.as_str().is_empty()
    }

    /// Updates all the urls from e621 to e926.
    pub fn update_to_safe(&mut self)
        ensures
            final(self).spec_auth() == old(self).spec_auth(),
            final(self).spec_urls() == safe_urls(old(self).spec_urls()),
            names_distinct(final(self).spec_urls()) == names_distinct(old(self).spec_urls()),
    {
        proof {
            lemma_safe_keeps_names(old(self).spec_urls());
        }
        proof {
            reveal_strlit("e621");
        }
        let ghost before = self.spec_urls();
        let mut updated: Vec<(String, String)> = Vec::new();
        let mut i: usize = 0;
        while i < self.urls.len()
            invariant
                i <= self.urls.len(),
                before == self.spec_urls(),
                url_views(updated@) == safe_urls(before).take(i as int),
                "e621"@.len() == 4,
            decreases self.urls.len() - i,
        {
            let (key, url) = &self.urls[i];
            let safe = str_replace(url.as_str(), "e621", "e926");
            let ghost acc = url_views(updated@);
            updated.push((string_from_str(key.as_str()), safe));
            assert(url_views(updated@) =~= acc.push((before[i as int].0, safe@)));
            assert(safe_urls(before).take(i + 1) =~= safe_urls(before).take(i as int).push(
                safe_urls(before)[i as int],
            ));
            i = i + 1;
        }
        assert(safe_urls(before).take(i as int) =~= safe_urls(before));
        self.urls = updated;
    }

    /// The url named `key`, if the sender has one.
    pub fn url(&self, key: &str) -> (r: Option<String>)
        ensures
            r matches Some(u) ==> url_named(self.spec_urls(), key@) == Some(u@),
            r is None ==> url_named(self.spec_urls(), key@) is None,
    {
        let mut i: usize = 0;
        assert(self.spec_urls().skip(0) =~= self.spec_urls());
        while i < self.urls.len()
            invariant
                i <= self.urls.len(),
                url_named(self.spec_urls(), key@) == url_named(self.spec_urls().skip(i as int), key@),
            decreases self.urls.len() - i,
        {
            let ghost rest = self.spec_urls().skip(i as int);
            assert(rest.drop_first() =~= self.spec_urls().skip(i + 1));
            if str_eq(self.urls[i].0.as_str(), key) {
                return Some(string_from_str(self.urls[i].1.as_str()));
            }
            i = i + 1;
        }
        assert(self.spec_urls().skip(i as int) =~= Seq::<(Seq<char>, Seq<char>)>::empty());
        None
    }

    /// Appends the id or name `append` to the base url `url`, ending with
    /// `.json`.
    pub fn append_url(&self, url: &str, append: &str) -> (r: String)
        ensures
            r@ == url@ + append@ + ".json"@,
    {
        let mut r = string_from_str(url);
        r.append(append);
        r.append(".json");
        r
    }

    /// The query of a bulk search for the posts tagged `searching_tag`: the
    /// tags, the page, and the most posts a page can hold.
    pub fn bulk_search_query(&self, searching_tag: &str, page: u16) -> (q: Vec<(String, String)>)
        ensures
            url_views(q@) == seq![
                ("tags"@, searching_tag@),
                ("page"@, decimal(page as int)),
                ("limit"@, decimal(POSTS_PER_PAGE as int)),
            ],
    {
        let mut q: Vec<(String, String)> = Vec::new();
        q.push((string_from_str("tags"), string_from_str(searching_tag)));
        q.push((string_from_str("page"), i64_to_string(page as i64)));
        q.push((string_from_str("limit"), i64_to_string(POSTS_PER_PAGE as i64)));
        assert(url_views(q@) =~= seq![
            ("tags"@, searching_tag@),
            ("page"@, decimal(page as int)),
            ("limit"@, decimal(POSTS_PER_PAGE as int)),
        ]);
        q
    }
}

/// What the status code of a failed request tells the user.
#[derive(Clone, Copy, Debug, PartialEq, Eq, Structural)]
pub enum RequestFailure {
    /// `500`: the servers failed internally.
    ServerInternal,
    /// `503`: the server could not handle the request, or the rate limit was
    /// passed.
    RateLimited,
    /// `403`: the client was forbidden from the API.
    Forbidden,
    /// `421`: the user is throttled.
    Throttled,
    /// Any other code.
    Other,
}

pub const SERVER_INTERNAL: u16 = 500;
pub const SERVER_RATE_LIMIT: u16 = 503;
pub const CLIENT_FORBIDDEN: u16 = 403;
pub const CLIENT_THROTTLED: u16 = 421;

/// What the status code `code` of a failed request means.
pub fn classify_status(code: u16) -> (f: RequestFailure)
    ensures
        f == (if code == SERVER_INTERNAL {
            RequestFailure::ServerInternal
        } else if code == SERVER_RATE_LIMIT {
            RequestFailure::RateLimited
        } else if code == CLIENT_FORBIDDEN {
            RequestFailure::Forbidden
        } else if code == CLIENT_THROTTLED {
            RequestFailure::Throttled
        } else {
            RequestFailure::Other
        }),
{
    if code == SERVER_INTERNAL {
        RequestFailure::ServerInternal
    } else if code == SERVER_RATE_LIMIT {
        RequestFailure::RateLimited
    } else if code == CLIENT_FORBIDDEN {
        RequestFailure::Forbidden
    } else if code == CLIENT_THROTTLED {
        RequestFailure::Throttled
    } else {
        RequestFailure::Other
    }
}

impl RequestSender {
    /// The value of the `Authorization` header a request with
    /// authorisation carries: none when the sender has no credentials.
    pub fn authorization(&self) -> (a: Option<String>)
        ensures
            self.spec_auth().len() == 0 <==> a is None,
            a matches Some(v) ==> v@ == self.spec_auth(),
    {
        if self.auth.as_str().is_empty() {
            None
        } else {
            Some(string_from_str(self.auth.as_str()))
        }
    }
}

} // verus!
