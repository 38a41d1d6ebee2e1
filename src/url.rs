use vstd::prelude::*;

verus! {

/// The three kinds of character runs a remote URL is cut into.
#[derive(Clone, Copy, PartialEq, Eq, Structural)]
pub enum CharClass {
    /// Word characters, dots and hyphens.
    Host,
    /// Anything but a slash.
    User,
    /// Anything but a slash or a dot.
    Repo,
}

/// Whether a character outside ASCII is a Unicode word character (UTS#18 Annex C).
pub uninterp spec fn word_char(c: char) -> bool;

pub open spec fn is_ascii_word(c: char) -> bool {
    ('a' <= c && c <= 'z') || ('A' <= c && c <= 'Z') || ('0' <= c && c <= '9') || c == '_'
}

/// The word characters of the pattern class `\w`: among ASCII characters the letters,
/// digits and `_`; beyond ASCII the Unicode word characters.
pub open spec fn is_word_char(c: char) -> bool {
    if c <= '\u{7f}' {
        is_ascii_word(c)
    } else {
        word_char(c)
    }
}

/// True for the characters a host name may hold: word characters, `.` and `-`.
pub open spec fn is_host_char(c: char) -> bool {
    is_word_char(c) || c == '.' || c == '-'
}

/// Relies on `regex_syntax::is_word_character`, the regex engine's own test for `\w`:
/// ASCII letters, digits and `_` are word characters and no other ASCII character is.
/// It panics without the crate's `unicode-perl` feature, which Cargo.toml enables.
#[verifier::external_body]
fn is_word(c: char) -> (r: bool)
    ensures
        r == word_char(c),
        c <= '\u{7f}' ==> (r == is_ascii_word(c)),
{
    regex_syntax::is_word_character(c)
}

/// For each character of `s`, whether it is a word character.
pub open spec fn word_flags(s: Seq<char>) -> Seq<bool> {
    Seq::new(s.len(), |i: int| is_word_char(s[i]))
}

/// Class membership of `c`, given whether `c` is a word character.
pub open spec fn in_class(k: CharClass, c: char, word: bool) -> bool {
    match k {
        CharClass::Host => word || c == '.' || c == '-',
        CharClass::User => c != '/',
        CharClass::Repo => c != '/' && c != '.',
    }
}

/// The end of the longest run of characters of class `k` that starts at `i`; `w` tells
/// which characters of `s` are word characters.
pub open spec fn run_end(s: Seq<char>, w: Seq<bool>, i: int, k: CharClass) -> int
    decreases s.len() - i,
{
    if 0 <= i < s.len() && in_class(k, s[i], w[i]) {
        run_end(s, w, i + 1, k)
    } else {
        i
    }
}

/// `p` occurs in `s` at position `at`.
pub open spec fn matches_at(s: Seq<char>, at: int, p: Seq<char>) -> bool {
    0 <= at && at + p.len() <= s.len() && s.subrange(at, at + p.len()) == p
}

pub open spec fn https_scheme() -> Seq<char> {
    seq!['h', 't', 't', 'p', 's', ':', '/', '/']
}

pub open spec fn http_scheme() -> Seq<char> {
    seq!['h', 't', 't', 'p', ':', '/', '/']
}

pub open spec fn ssh_scheme() -> Seq<char> {
    seq!['s', 's', 'h', ':', '/', '/', 'g', 'i', 't', '@']
}

pub open spec fn scp_scheme() -> Seq<char> {
    seq!['g', 'i', 't', '@']
}

pub open spec fn git_scheme() -> Seq<char> {
    seq!['g', 'i', 't', ':', '/', '/']
}

pub open spec fn www_prefix() -> Seq<char> {
    seq!['w', 'w', 'w', '.']
}

/// The prefixes a remote URL may open with: `https://`, `http://`, `ssh://git@`, `git@` and
/// `git://`.
pub open spec fn is_scheme(p: Seq<char>) -> bool {
    p == https_scheme() || p == http_scheme() || p == ssh_scheme() || p == scp_scheme()
        || p == git_scheme()
}

/// Length of the scheme (and `git@` authentication) prefix that `s` has at `p`; 0 if none.
pub open spec fn scheme_len(s: Seq<char>, p: int) -> int {
    if matches_at(s, p, https_scheme()) {
        https_scheme().len() as int
    } else if matches_at(s, p, http_scheme()) {
        http_scheme().len() as int
    } else if matches_at(s, p, ssh_scheme()) {
        ssh_scheme().len() as int
    } else if matches_at(s, p, scp_scheme()) {
        scp_scheme().len() as int
    } else if matches_at(s, p, git_scheme()) {
        git_scheme().len() as int
    } else {
        0
    }
}

/// A host without a leading `www.`, unless nothing would be left of it.
pub open spec fn strip_www(h: Seq<char>) -> Seq<char> {
    if h.len() > www_prefix().len() && matches_at(h, 0, www_prefix()) {
        h.subrange(www_prefix().len() as int, h.len() as int)
    } else {
        h
    }
}

/// The identity read from a match of the URL grammar that starts at `p`, if one does:
/// an optional scheme prefix, the host (a run of host characters), a `/` or `:`, the user
/// name (a run without `/`), a `/`, and the repository name (a run without `/` or `.`).
/// Whatever follows the repository name (`.git`, further segments) is ignored.
pub open spec fn parse_at(s: Seq<char>, w: Seq<bool>, p: int) -> Option<
    (Seq<char>, Seq<char>, Seq<char>),
> {
    let a = p + scheme_len(s, p);
    let h = run_end(s, w, a, CharClass::Host);
    if h == a || h >= s.len() || !(s[h] == '/' || s[h] == ':') {
        None
    } else {
        let u = run_end(s, w, h + 1, CharClass::User);
        if u == h + 1 || u >= s.len() {
            None
        } else {
            let r = run_end(s, w, u + 1, CharClass::Repo);
            if r == u + 1 {
                None
            } else {
                Some((strip_www(s.subrange(a, h)), s.subrange(h + 1, u), s.subrange(u + 1, r)))
            }
        }
    }
}

/// The identity read from the first match of the URL grammar that starts at `p` or later.
pub open spec fn parse_from(s: Seq<char>, w: Seq<bool>, p: int) -> Option<
    (Seq<char>, Seq<char>, Seq<char>),
>
    decreases s.len() - p,
{
    if p < 0 || p >= s.len() {
        None
    } else if parse_at(s, w, p) is Some {
        parse_at(s, w, p)
    } else {
        parse_from(s, w, p + 1)
    }
}

/// Host, user name and repository name of a remote URL: those of the first match of the
/// URL grammar in it, or `None` when there is none.
pub open spec fn parse_url(s: Seq<char>) -> Option<(Seq<char>, Seq<char>, Seq<char>)> {
    parse_from(s, word_flags(s), 0)
}

/// A host/user/repository triple stands in `s`, the host at `i..h`, the separator at `h`,
/// the user name at `h + 1..u`, a `/` at `u` and the repository name at `u + 1..r`.
pub open spec fn identity_at(s: Seq<char>, w: Seq<bool>, i: int, h: int, u: int, r: int) -> bool {
    &&& 0 <= i < h
    &&& h + 1 < u
    &&& u + 1 < r <= s.len()
    &&& forall|m: int| i <= m < h ==> in_class(CharClass::Host, #[trigger] s[m], w[m])
    &&& (s[h] == '/' || s[h] == ':')
    &&& forall|m: int| h < m < u ==> #[trigger] s[m] != '/'
    &&& s[u] == '/'
    &&& forall|m: int| u < m < r ==> #[trigger] s[m] != '/' && s[m] != '.'
}

pub open spec fn has_identity(s: Seq<char>) -> bool {
    exists|i: int, h: int, u: int, r: int| identity_at(s, word_flags(s), i, h, u, r)
}

/// A template repository, identified by its remote URL.
#[derive(Clone, Debug)]
pub struct Repository {
    pub url: String,
    pub host: String,
    pub name: String,
    pub username: String,
}

fn class_has(k: CharClass, c: char, word: bool) -> (r: bool)
    ensures
        r == in_class(k, c, word),
{
    match k {
        CharClass::Host => word || c == '.' || c == '-',
        CharClass::User => c != '/',
        CharClass::Repo => c != '/' && c != '.',
    }
}

fn scan_run(s: &Vec<char>, w: &Vec<bool>, i: usize, k: CharClass) -> (e: usize)
    requires
        i <= s@.len(),
        w@.len() == s@.len(),
    ensures
        e as int == run_end(s@, w@, i as int, k),
        i <= e <= s@.len(),
{
    let mut j: usize = i;
    while j < s.len() && class_has(k, s[j], w[j])
        invariant
            i <= j <= s@.len(),
            w@.len() == s@.len(),
            run_end(s@, w@, i as int, k) == run_end(s@, w@, j as int, k),
        decreases s@.len() - j,
    {
        j = j + 1;
    }
    j
}

fn matches_at_exec(s: &Vec<char>, at: usize, p: &Vec<char>) -> (r: bool)
    ensures
        r == matches_at(s@, at as int, p@),
{
    if p.len() > s.len() || at > s.len() - p.len() {
        return false;
    }
    let mut k: usize = 0;
    while k < p.len()
        invariant
            at + p@.len() <= s@.len(),
            s@.len() <= usize::MAX,
            k <= p@.len(),
            forall|m: int| 0 <= m < k ==> s@[at + m] == p@[m],
        decreases p@.len() - k,
    {
        if s[at + k] != p[k] {
            assert(s@.subrange(at as int, at + p@.len())[k as int] != p@[k as int]);
            return false;
        }
        k = k + 1;
    }
    assert(s@.subrange(at as int, at + p@.len()) =~= p@);
    true
}

fn scheme_len_exec(s: &Vec<char>, p: usize) -> (n: usize)
    requires
        p <= s@.len(),
    ensures
        n as int == scheme_len(s@, p as int),
        p + n <= s@.len(),
{
    proof {
        lemma_scheme_len_bounds(s@, p as int);
    }
    let https: Vec<char> = vec!['h', 't', 't', 'p', 's', ':', '/', '/'];
    let http: Vec<char> = vec!['h', 't', 't', 'p', ':', '/', '/'];
    let ssh: Vec<char> = vec!['s', 's', 'h', ':', '/', '/', 'g', 'i', 't', '@'];
    let scp: Vec<char> = vec!['g', 'i', 't', '@'];
    let git: Vec<char> = vec!['g', 'i', 't', ':', '/', '/'];
    assert(https@ =~= https_scheme());
    assert(http@ =~= http_scheme());
    assert(ssh@ =~= ssh_scheme());
    assert(scp@ =~= scp_scheme());
    assert(git@ =~= git_scheme());
    if matches_at_exec(s, p, &https) {
        https.len()
    } else if matches_at_exec(s, p, &http) {
        http.len()
    } else if matches_at_exec(s, p, &ssh) {
        ssh.len()
    } else if matches_at_exec(s, p, &scp) {
        scp.len()
    } else if matches_at_exec(s, p, &git) {
        git.len()
    } else {
        0
    }
}

/// Positions of the host (without `www.`), separator, `/` and repository end of the match
/// of the URL grammar that starts at `p`.
fn match_at(s: &Vec<char>, w: &Vec<bool>, p: usize) -> (r: Option<(usize, usize, usize, usize)>)
    requires
        p <= s@.len(),
        w@.len() == s@.len(),
    ensures
        match r {
            None => parse_at(s@, w@, p as int) is None,
            Some((hs, h, u, e)) => {
                &&& hs <= h < u < e <= s@.len()
                &&& parse_at(s@, w@, p as int) == Some(
                    (
                        s@.subrange(hs as int, h as int),
                        s@.subrange(h + 1, u as int),
                        s@.subrange(u + 1, e as int),
                    ),
                )
            },
        },
{
    let n = scheme_len_exec(s, p);
    let len = s.len();
    assert(p + n <= len);
    let a = p + n;
    let h = scan_run(s, w, a, CharClass::Host);
    if h == a || h >= s.len() || !(s[h] == '/' || s[h] == ':') {
        return None;
    }
    let u = scan_run(s, w, h + 1, CharClass::User);
    if u == h + 1 || u >= s.len() {
        return None;
    }
    let e = scan_run(s, w, u + 1, CharClass::Repo);
    if e == u + 1 {
        return None;
    }
    let www: Vec<char> = vec!['w', 'w', 'w', '.'];
    assert(www@ =~= www_prefix());
    let hs: usize = if h - a > www.len() && matches_at_exec(s, a, &www) {
        a + www.len()
    } else {
        a
    };
    proof {
        let host = s@.subrange(a as int, h as int);
        if h - a > 4 {
            assert(host.subrange(0, 4) =~= s@.subrange(a as int, a + 4));
        }
        assert(strip_www(host) =~= s@.subrange(hs as int, h as int));
    }
    Some((hs, h, u, e))
}

/// Positions as `match_at` gives them, of the first match of the URL grammar in `s`.
fn first_match(s: &Vec<char>, w: &Vec<bool>) -> (r: Option<(usize, usize, usize, usize)>)
    requires
        w@.len() == s@.len(),
    ensures
        match r {
            None => parse_from(s@, w@, 0) is None,
            Some((hs, h, u, e)) => {
                &&& hs <= h < u < e <= s@.len()
                &&& parse_from(s@, w@, 0) == Some(
                    (
                        s@.subrange(hs as int, h as int),
                        s@.subrange(h + 1, u as int),
                        s@.subrange(u + 1, e as int),
                    ),
                )
            },
        },
{
    let mut p: usize = 0;
    while p < s.len()
        invariant
            p <= s@.len(),
            w@.len() == s@.len(),
            parse_from(s@, w@, 0) == parse_from(s@, w@, p as int),
        decreases s@.len() - p,
    {
        let m = match_at(s, w, p);
        if m.is_some() {
            return m;
        }
        p = p + 1;
    }
    None
}

fn chars_of(s: &str) -> (r: Vec<char>)
    ensures
        r@ == s@,
{
    let n = s.unicode_len();
    let mut r: Vec<char> = Vec::new();
    let mut i: usize = 0;
    while i < n
        invariant
            n == s@.len(),
            i <= n,
            r@ =~= s@.subrange(0, i as int),
        decreases n - i,
    {
        r.push(s.get_char(i));
        i = i + 1;
    }
    assert(r@ =~= s@);
    r
}

/// Parses a remote URL into its host, user name and repository name, given for each of
/// its characters whether it is a word character.
pub fn parse_flagged_url(url: &str, word: &Vec<bool>) -> (r: Result<Repository, String>)
    requires
        word@.len() == url@.len(),
    ensures
        match r {
            Ok(repo) => {
                &&& parse_from(url@, word@, 0) == Some((repo.host@, repo.username@, repo.name@))
                &&& repo.url@ == url@
                &&& repo.host@.len() > 0
                &&& repo.username@.len() > 0
                &&& repo.name@.len() > 0
                &&& forall|m: int|
                    0 <= m < repo.name@.len() ==> #[trigger] repo.name@[m] != '/' && repo.name@[m]
                        != '.'
            },
            Err(e) => parse_from(url@, word@, 0) is None && e@ == "Invalid URL"@,
        },
{
    let s = chars_of(url);
    match first_match(&s, word) {
        None => Err(String::from_str("Invalid URL")),
        Some((hs, h, u, e)) => {
            proof {
                lemma_parsed_parts(s@, word@);
            }
            Ok(
                Repository {
                    url: String::from_str(url),
                    host: String::from_str(url.substring_char(hs, h)),
                    username: String::from_str(url.substring_char(h + 1, u)),
                    name: String::from_str(url.substring_char(u + 1, e)),
                },
            )
        },
    }
}

/// Parses a remote URL (`https://host/user/repo.git`, `git@host:user/repo.git`, ...) into
/// its host, user name and repository name.
pub fn from_url(url: &str) -> (r: Result<Repository, String>)
    ensures
        match r {
            Ok(repo) => {
                &&& parse_url(url@) == Some((repo.host@, repo.username@, repo.name@))
                &&& repo.url@ == url@
                &&& repo.host@.len() > 0
                &&& repo.username@.len() > 0
                &&& repo.name@.len() > 0
                &&& forall|m: int|
                    0 <= m < repo.name@.len() ==> #[trigger] repo.name@[m] != '/' && repo.name@[m]
                        != '.'
            },
            Err(e) => parse_url(url@) is None && e@ == "Invalid URL"@,
        },
{
    let s = chars_of(url);
    let mut word: Vec<bool> = Vec::new();
    let mut i: usize = 0;
    while i < s.len()
        invariant
            i <= s@.len(),
            word@.len() == i,
            forall|m: int| 0 <= m < i ==> word@[m] == is_word_char(#[trigger] s@[m]),
        decreases s@.len() - i,
    {
        word.push(is_word(s[i]));
        i = i + 1;
    }
    assert(word@ =~= word_flags(url@));
    parse_flagged_url(url, &word)
}

proof fn lemma_run_end_bounds(s: Seq<char>, w: Seq<bool>, i: int, k: CharClass)
    requires
        0 <= i <= s.len(),
    ensures
        i <= run_end(s, w, i, k) <= s.len(),
        forall|m: int| i <= m < run_end(s, w, i, k) ==> in_class(k, #[trigger] s[m], w[m]),
        run_end(s, w, i, k) < s.len() ==> !in_class(
            k,
            s[run_end(s, w, i, k)],
            w[run_end(s, w, i, k)],
        ),
    decreases s.len() - i,
{
    if i < s.len() && in_class(k, s[i], w[i]) {
        lemma_run_end_bounds(s, w, i + 1, k);
    }
}

proof fn lemma_run_end_at(s: Seq<char>, w: Seq<bool>, i: int, e: int, k: CharClass)
    requires
        0 <= i <= e <= s.len(),
        forall|m: int| i <= m < e ==> in_class(k, #[trigger] s[m], w[m]),
        e == s.len() || !in_class(k, s[e], w[e]),
    ensures
        run_end(s, w, i, k) == e,
    decreases e - i,
{
    if i < e {
        lemma_run_end_at(s, w, i + 1, e, k);
    }
}

proof fn lemma_scheme_len_bounds(s: Seq<char>, p: int)
    requires
        0 <= p <= s.len(),
    ensures
        0 <= scheme_len(s, p),
        p + scheme_len(s, p) <= s.len(),
{
    assert(https_scheme().len() == 8);
    assert(http_scheme().len() == 7);
    assert(ssh_scheme().len() == 10);
    assert(scp_scheme().len() == 4);
    assert(git_scheme().len() == 6);
}

proof fn lemma_scheme_len(scheme: Seq<char>, rest: Seq<char>)
    requires
        is_scheme(scheme),
    ensures
        scheme_len(scheme + rest, 0) == scheme.len(),
{
    let s = scheme + rest;
    assert(s.subrange(0, scheme.len() as int) =~= scheme);
    assert forall|m: int| 0 <= m < scheme.len() implies s[m] == scheme[m] by {}
    if matches_at(s, 0, https_scheme()) {
        assert(s.subrange(0, 8)[0] == s[0]);
        assert(s.subrange(0, 8)[4] == s[4]);
    }
    if matches_at(s, 0, http_scheme()) {
        assert(s.subrange(0, 7)[0] == s[0]);
    }
    if matches_at(s, 0, ssh_scheme()) {
        assert(s.subrange(0, 10)[0] == s[0]);
    }
    if matches_at(s, 0, scp_scheme()) {
        assert(s.subrange(0, 4)[3] == s[3]);
    }
}

/// A match at `p` is a host/user/repository triple in the string, read as it stands.
proof fn lemma_parse_at_identity(s: Seq<char>, w: Seq<bool>, p: int)
    requires
        0 <= p <= s.len(),
        parse_at(s, w, p) is Some,
    ensures
        exists|i: int, h: int, u: int, r: int|
            #[trigger] identity_at(s, w, i, h, u, r) && parse_at(s, w, p) == Some(
                (strip_www(s.subrange(i, h)), s.subrange(h + 1, u), s.subrange(u + 1, r)),
            ),
{
    lemma_scheme_len_bounds(s, p);
    let a = p + scheme_len(s, p);
    lemma_run_end_bounds(s, w, a, CharClass::Host);
    let h = run_end(s, w, a, CharClass::Host);
    lemma_run_end_bounds(s, w, h + 1, CharClass::User);
    let u = run_end(s, w, h + 1, CharClass::User);
    lemma_run_end_bounds(s, w, u + 1, CharClass::Repo);
    let r = run_end(s, w, u + 1, CharClass::Repo);
    assert(identity_at(s, w, a, h, u, r));
}

/// The first match at `p` or later is a match at some position.
proof fn lemma_parse_from_at(s: Seq<char>, w: Seq<bool>, p: int) -> (q: int)
    requires
        0 <= p,
        parse_from(s, w, p) is Some,
    ensures
        p <= q < s.len(),
        parse_at(s, w, q) == parse_from(s, w, p),
    decreases s.len() - p,
{
    if parse_at(s, w, p) is Some {
        p
    } else {
        lemma_parse_from_at(s, w, p + 1)
    }
}

/// Whatever parses has a non-empty host, a non-empty user name without `/`, and a
/// non-empty repository name without `/` or `.`, so that the repository name is a single
/// path component.
pub proof fn lemma_parsed_parts(s: Seq<char>, w: Seq<bool>)
    requires
        parse_from(s, w, 0) is Some,
    ensures
        ({
            let (host, user, repo) = parse_from(s, w, 0)->Some_0;
            &&& host.len() > 0
            &&& user.len() > 0
            &&& forall|m: int| 0 <= m < user.len() ==> #[trigger] user[m] != '/'
            &&& repo.len() > 0
            &&& forall|m: int| 0 <= m < repo.len() ==> #[trigger] repo[m] != '/' && repo[m] != '.'
        }),
{
    let q = lemma_parse_from_at(s, w, 0);
    lemma_parse_at_identity(s, w, q);
    let (i, h, u, r) = choose|i: int, h: int, u: int, r: int|
        #[trigger] identity_at(s, w, i, h, u, r) && parse_at(s, w, q) == Some(
            (strip_www(s.subrange(i, h)), s.subrange(h + 1, u), s.subrange(u + 1, r)),
        );
    let user = s.subrange(h + 1, u);
    assert forall|m: int| 0 <= m < user.len() implies #[trigger] user[m] != '/' by {
        assert(user[m] == s[h + 1 + m]);
    }
    let repo = s.subrange(u + 1, r);
    assert forall|m: int| 0 <= m < repo.len() implies #[trigger] repo[m] != '/' && repo[m]
        != '.' by {
        assert(repo[m] == s[u + 1 + m]);
    }
}

/// A well-formed remote URL parses to exactly its parts: a scheme, a host, a `/` or `:`,
/// a user name, a `/` and a repository name, followed by nothing, by `.git` or by further
/// segments. The repository name comes back without what follows it, and the host without
/// a leading `www.`.
#[verifier::rlimit(60)]
pub proof fn lemma_parse_well_formed(
    scheme: Seq<char>,
    host: Seq<char>,
    sep: char,
    user: Seq<char>,
    repo: Seq<char>,
    rest: Seq<char>,
)
    requires
        is_scheme(scheme),
        host.len() > 0,
        forall|m: int| 0 <= m < host.len() ==> is_host_char(#[trigger] host[m]),
        sep == '/' || sep == ':',
        user.len() > 0,
        forall|m: int| 0 <= m < user.len() ==> #[trigger] user[m] != '/',
        repo.len() > 0,
        forall|m: int| 0 <= m < repo.len() ==> #[trigger] repo[m] != '/' && repo[m] != '.',
        rest.len() == 0 || rest[0] == '/' || rest[0] == '.',
    ensures
        parse_url(scheme + host + seq![sep] + user + seq!['/'] + repo + rest) == Some(
            (strip_www(host), user, repo),
        ),
{
    let tail = host + seq![sep] + user + seq!['/'] + repo + rest;
    let s = scheme + host + seq![sep] + user + seq!['/'] + repo + rest;
    let w = word_flags(s);
    assert(s =~= scheme + tail);
    lemma_scheme_len(scheme, tail);
    let a = scheme.len() as int;
    let h = a + host.len();
    let u = h + 1 + user.len();
    let r = u + 1 + repo.len();
    assert forall|m: int| a <= m < h implies in_class(CharClass::Host, #[trigger] s[m], w[m]) by {
        assert(s[m] == host[m - a]);
    }
    assert(s[h] == sep);
    assert(w[h] == is_word_char(sep));
    lemma_run_end_at(s, w, a, h, CharClass::Host);
    assert forall|m: int| h + 1 <= m < u implies in_class(CharClass::User, #[trigger] s[m], w[m]) by {
        assert(s[m] == user[m - h - 1]);
    }
    assert(s[u] == '/');
    lemma_run_end_at(s, w, h + 1, u, CharClass::User);
    assert forall|m: int| u + 1 <= m < r implies in_class(CharClass::Repo, #[trigger] s[m], w[m]) by {
        assert(s[m] == repo[m - u - 1]);
    }
    if rest.len() > 0 {
        assert(s[r] == rest[0]);
    }
    lemma_run_end_at(s, w, u + 1, r, CharClass::Repo);
    assert(s.subrange(a, h) =~= host);
    assert(s.subrange(h + 1, u) =~= user);
    assert(s.subrange(u + 1, r) =~= repo);
}

/// A URL in which no host, separator, user name, `/` and repository name stand one after
/// another (a bare host, a host and user name only) does not parse.
pub proof fn lemma_parse_without_identity(s: Seq<char>)
    requires
        !has_identity(s),
    ensures
        parse_url(s) is None,
{
    if parse_url(s) is Some {
        let q = lemma_parse_from_at(s, word_flags(s), 0);
        lemma_parse_at_identity(s, word_flags(s), q);
    }
}

/// No scheme prefix starts where a host/user/repository triple starts: each one holds a
/// `:` or `@` that a host cannot hold, after letters that a separator cannot be.
proof fn lemma_no_scheme_at_identity(
    s: Seq<char>,
    i: int,
    h: int,
    u: int,
    r: int,
    x: Seq<char>,
    c: int,
)
    requires
        identity_at(s, word_flags(s), i, h, u, r),
        0 <= c,
        c < x.len(),
        forall|k: int| 0 <= k < c ==> is_ascii_word(#[trigger] x[k]),
        (x[c] == ':' && c + 1 < x.len() && x[c + 1] == '/') || x[c] == '@',
    ensures
        !matches_at(s, i, x),
{
    if !matches_at(s, i, x) {
        return;
    }
    let w = word_flags(s);
    assert forall|k: int| 0 <= k < x.len() implies #[trigger] s[i + k] == x[k] by {
        assert(s.subrange(i, i + x.len())[k] == s[i + k]);
    }
    if h > i + c {
        assert(in_class(CharClass::Host, s[i + c], w[i + c]));
        assert(s[i + c] == x[c]);
    } else if h < i + c {
        assert(s[h] == x[h - i]);
        assert(is_ascii_word(x[h - i]));
    } else {
        assert(s[h] == x[c]);
        if x[c] == ':' {
            assert(s[h + 1] == x[c + 1]);
            assert(s[h + 1] != '/');
        }
    }
}

/// A match at `i` makes the first match at or after any `p <= i` exist.
proof fn lemma_parse_from_reaches(s: Seq<char>, w: Seq<bool>, p: int, i: int)
    requires
        0 <= p <= i < s.len(),
        parse_at(s, w, i) is Some,
    ensures
        parse_from(s, w, p) is Some,
    decreases i - p,
{
    if p < i && parse_at(s, w, p) is None {
        lemma_parse_from_reaches(s, w, p + 1, i);
    }
}

/// A URL in which a host, a separator, a user name, a `/` and a repository name stand one
/// after another parses; with the law above, a URL parses exactly when it holds such a
/// triple.
pub proof fn lemma_identity_parses(s: Seq<char>)
    requires
        has_identity(s),
    ensures
        parse_url(s) is Some,
{
    let w = word_flags(s);
    let (i, h, u, r) = choose|i: int, h: int, u: int, r: int| identity_at(s, w, i, h, u, r);
    lemma_no_scheme_at_identity(s, i, h, u, r, https_scheme(), 5);
    lemma_no_scheme_at_identity(s, i, h, u, r, http_scheme(), 4);
    lemma_no_scheme_at_identity(s, i, h, u, r, ssh_scheme(), 3);
    lemma_no_scheme_at_identity(s, i, h, u, r, scp_scheme(), 3);
    lemma_no_scheme_at_identity(s, i, h, u, r, git_scheme(), 3);
    assert(scheme_len(s, i) == 0);
    assert(!in_class(CharClass::Host, s[h], w[h]));
    lemma_run_end_at(s, w, i, h, CharClass::Host);
    lemma_run_end_at(s, w, h + 1, u, CharClass::User);
    lemma_run_end_bounds(s, w, u + 1, CharClass::Repo);
    assert(in_class(CharClass::Repo, s[u + 1], w[u + 1]));
    assert(parse_at(s, w, i) is Some);
    lemma_parse_from_reaches(s, w, 0, i);
}

} // verus!
