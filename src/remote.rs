//! Reading the owner and repository out of a remote's URL.
use vstd::prelude::*;

verus! {

/// Whether `c` is a Unicode word character, as the regex crate's `\w` matches
/// it: a letter, a mark, a digit, a connector punctuation or a join control.
pub uninterp spec fn unicode_word_char(c: char) -> bool;

/// Relies on regex_syntax::is_word_character, the test behind the regex
/// crate's Unicode `\w` class. It panics only without the crate's
/// `unicode-perl` feature, which its default features turn on.
#[verifier::external_body]
fn word_character(c: char) -> (r: bool)
    ensures
        r == unicode_word_char(c),
{
    regex_syntax::is_word_character(c)
}

/// A word character of an owner or repository name. The separators `/` and
/// `:` are never word characters; saying so here keeps the grammar's
/// separators apart from its names.
pub open spec fn is_word_char(c: char) -> bool {
    c != '/' && c != ':' && unicode_word_char(c)
}

/// A non-empty run of word characters.
pub open spec fn is_word(s: Seq<char>) -> bool {
    s.len() > 0 && forall|i: int| 0 <= i < s.len() ==> #[trigger] is_word_char(s[i])
}

/// A non-empty host name holding neither `/` nor `:`.
pub open spec fn is_host(h: Seq<char>) -> bool {
    h.len() > 0 && forall|i: int| 0 <= i < h.len() ==> #[trigger] h[i] != '/' && h[i] != ':'
}

pub open spec fn git_suffix() -> Seq<char> {
    seq!['.', 'g', 'i', 't']
}

pub open spec fn ssh_prefix() -> Seq<char> {
    seq!['g', 'i', 't', '@']
}

pub open spec fn https_prefix() -> Seq<char> {
    seq!['h', 't', 't', 'p', 's', ':', '/', '/']
}

/// `git@<host>:<owner>/<repo>.git`
pub open spec fn ssh_remote(host: Seq<char>, owner: Seq<char>, repo: Seq<char>) -> Seq<char> {
    ssh_prefix() + host + seq![':'] + owner + seq!['/'] + repo + git_suffix()
}

/// `https://<host>/<owner>/<repo>.git`
pub open spec fn https_remote(host: Seq<char>, owner: Seq<char>, repo: Seq<char>) -> Seq<char> {
    https_prefix() + host + seq!['/'] + owner + seq!['/'] + repo + git_suffix()
}

/// `url` is an SSH or HTTPS remote of the repository `repo` owned by `owner`.
pub open spec fn is_remote_for(url: Seq<char>, owner: Seq<char>, repo: Seq<char>) -> bool {
    &&& is_word(owner)
    &&& is_word(repo)
    &&& exists|host: Seq<char>|
        #![trigger is_host(host)]
        is_host(host) && (url == ssh_remote(host, owner, repo) || url == https_remote(
            host,
            owner,
            repo,
        ))
}

/// The SSH remote when `ssh`, else the HTTPS remote.
pub open spec fn shaped_remote(ssh: bool, host: Seq<char>, owner: Seq<char>, repo: Seq<char>) -> Seq<
    char,
> {
    if ssh {
        ssh_remote(host, owner, repo)
    } else {
        https_remote(host, owner, repo)
    }
}

/// `start` is where the longest run of word characters that ends at `end` begins.
pub open spec fn is_run_start(url: Seq<char>, start: int, end: int) -> bool {
    &&& 0 <= start <= end <= url.len()
    &&& forall|t: int| start <= t < end ==> #[trigger] is_word_char(url[t])
    &&& (start == 0 || !is_word_char(url[start - 1]))
}

proof fn lemma_run_start_unique(url: Seq<char>, a: int, b: int, end: int)
    requires
        is_run_start(url, a, end),
        is_run_start(url, b, end),
    ensures
        a == b,
{
    if a < b {
        assert(is_word_char(url[b - 1]));
    } else if b < a {
        assert(is_word_char(url[a - 1]));
    }
}

/// Where the parts of a remote URL stand, for any way of writing it as one.
proof fn lemma_remote_shape(url: Seq<char>, owner: Seq<char>, repo: Seq<char>)
    requires
        is_remote_for(url, owner, repo),
    ensures
        ({
            let n = url.len() as int;
            let e = n - 4;
            let s = e - repo.len();
            let k = s - 1 - owner.len();
            &&& n >= 4
            &&& url.subrange(e, n) == git_suffix()
            &&& 1 <= k && k < s - 1 && s < e
            &&& url[s - 1] == '/'
            &&& url.subrange(s, e) == repo
            &&& url.subrange(k, s - 1) == owner
            &&& is_run_start(url, s, e)
            &&& is_run_start(url, k, s - 1)
            &&& ((url[k - 1] == ':' && 4 < k - 1 && url.subrange(0, 4) == ssh_prefix()
                && is_host(url.subrange(4, k - 1))) || (url[k - 1] == '/' && 8 < k - 1
                && url.subrange(0, 8) == https_prefix() && is_host(url.subrange(8, k - 1))))
        }),
{
    let host = choose|host: Seq<char>|
        #![trigger is_host(host)]
        is_host(host) && (url == ssh_remote(host, owner, repo) || url == https_remote(
            host,
            owner,
            repo,
        ));
    let n = url.len() as int;
    let e = n - 4;
    let s = e - repo.len();
    let k = s - 1 - owner.len();
    let pl: int = if url == ssh_remote(host, owner, repo) { 4 } else { 8 };
    assert(k == pl + host.len() + 1);
    assert(url.subrange(e, n) =~= git_suffix());
    assert(url.subrange(s, e) =~= repo);
    assert(url.subrange(k, s - 1) =~= owner);
    assert(url.subrange(pl, k - 1) =~= host);
    assert forall|t: int| s <= t < e implies #[trigger] is_word_char(url[t]) by {
        assert(url[t] == repo[t - s]);
    }
    assert forall|t: int| k <= t < s - 1 implies #[trigger] is_word_char(url[t]) by {
        assert(url[t] == owner[t - k]);
    }
    if pl == 4 {
        assert(url.subrange(0, 4) =~= ssh_prefix());
    } else {
        assert(url.subrange(0, 8) =~= https_prefix());
    }
}

/// The remote URL names exactly one owner and repository.
pub proof fn lemma_remote_parts_unique(
    url: Seq<char>,
    owner: Seq<char>,
    repo: Seq<char>,
    owner2: Seq<char>,
    repo2: Seq<char>,
)
    requires
        is_remote_for(url, owner, repo),
        is_remote_for(url, owner2, repo2),
    ensures
        owner == owner2,
        repo == repo2,
{
    lemma_remote_shape(url, owner, repo);
    lemma_remote_shape(url, owner2, repo2);
    let e = url.len() - 4;
    lemma_run_start_unique(url, e - repo.len(), e - repo2.len(), e);
    let s = e - repo.len();
    lemma_run_start_unique(url, s - 1 - owner.len(), s - 1 - owner2.len(), s - 1);
}

/// A URL without the `.git` suffix names no repository.
pub proof fn lemma_needs_git_suffix(url: Seq<char>, owner: Seq<char>, repo: Seq<char>)
    requires
        url.len() < 4 || url.subrange(url.len() - 4, url.len() as int) != git_suffix(),
    ensures
        !is_remote_for(url, owner, repo),
{
    if is_remote_for(url, owner, repo) {
        lemma_remote_shape(url, owner, repo);
    }
}

/// Where each part of `git@<host>:<owner>/<repo>.git` (when `ssh`) or of
/// `https://<host>/<owner>/<repo>.git` stands.
proof fn lemma_remote_indices(ssh: bool, host: Seq<char>, owner: Seq<char>, repo: Seq<char>)
    ensures
        ({
            let url = shaped_remote(ssh, host, owner, repo);
            let pl: int = if ssh { 4 } else { 8 };
            let b = pl + host.len() + 1;
            &&& url.len() == b + owner.len() + 1 + repo.len() + 4
            &&& url[0] == (if ssh { 'g' } else { 'h' })
            &&& forall|t: int| 0 <= t < host.len() ==> url[pl + t] == #[trigger] host[t]
            &&& url[pl + host.len()] == (if ssh { ':' } else { '/' })
            &&& forall|t: int| 0 <= t < owner.len() ==> url[b + t] == #[trigger] owner[t]
            &&& url[b + owner.len()] == '/'
            &&& forall|t: int|
                0 <= t < repo.len() ==> url[b + owner.len() + 1 + t] == #[trigger] repo[t]
        }),
{
    let url = shaped_remote(ssh, host, owner, repo);
    let pl: int = if ssh { 4 } else { 8 };
    let b = pl + host.len() + 1;
    assert(url.subrange(pl, pl + host.len()) =~= host);
    assert(url.subrange(b, b + owner.len()) =~= owner);
    assert(url.subrange(b + owner.len() + 1, b + owner.len() + 1 + repo.len()) =~= repo);
    assert forall|t: int| 0 <= t < host.len() implies url[pl + t] == #[trigger] host[t] by {
        assert(url.subrange(pl, pl + host.len())[t] == url[pl + t]);
    }
    assert forall|t: int| 0 <= t < owner.len() implies url[b + t] == #[trigger] owner[t] by {
        assert(url.subrange(b, b + owner.len())[t] == url[b + t]);
    }
    assert forall|t: int| 0 <= t < repo.len() implies url[b + owner.len() + 1 + t]
        == #[trigger] repo[t] by {
        assert(url.subrange(b + owner.len() + 1, b + owner.len() + 1 + repo.len())[t] == url[b
            + owner.len() + 1 + t]);
    }
}

/// Two ways of writing one URL with word segments and host names agree on
/// the segments.
proof fn lemma_same_segments(
    ssh: bool,
    host: Seq<char>,
    owner: Seq<char>,
    repo: Seq<char>,
    ssh2: bool,
    h: Seq<char>,
    o: Seq<char>,
    p: Seq<char>,
)
    requires
        shaped_remote(ssh, host, owner, repo) == shaped_remote(ssh2, h, o, p),
        is_host(host),
        is_host(h),
        is_word(o),
        is_word(p),
    ensures
        o == owner,
        p == repo,
{
    let url = shaped_remote(ssh, host, owner, repo);
    lemma_remote_indices(ssh, host, owner, repo);
    lemma_remote_indices(ssh2, h, o, p);
    assert(ssh == ssh2);
    let pl: int = if ssh { 4 } else { 8 };
    if h.len() < host.len() {
        assert(url[pl + h.len()] == host[h.len() as int]);
    } else if h.len() > host.len() {
        assert(url[pl + host.len()] == h[host.len() as int]);
    }
    assert(h.len() == host.len());
    let b = pl + host.len() + 1;
    if o.len() < owner.len() {
        let t = owner.len() - o.len() - 1;
        assert(url[b + o.len() + 1 + t] == p[t]);
        assert(url[b + owner.len()] == p[t]);
        assert(!is_word_char(p[t]));
    } else if o.len() > owner.len() {
        assert(url[b + owner.len()] == o[owner.len() as int]);
        assert(!is_word_char(o[owner.len() as int]));
    }
    assert(o.len() == owner.len());
    assert forall|t: int| 0 <= t < o.len() implies o[t] == owner[t] by {
        assert(url[b + t] == o[t]);
    }
    assert(o =~= owner);
    assert forall|t: int| 0 <= t < p.len() implies p[t] == repo[t] by {
        assert(url[b + o.len() + 1 + t] == p[t]);
    }
    assert(p =~= repo);
}

/// A URL of the SSH or HTTPS shape whose owner or repository segment is empty
/// or holds a character that is not a word character names no repository.
pub proof fn lemma_non_word_segment_rejected(
    ssh: bool,
    host: Seq<char>,
    owner: Seq<char>,
    repo: Seq<char>,
)
    requires
        is_host(host),
        !is_word(owner) || !is_word(repo),
    ensures
        forall|o: Seq<char>, p: Seq<char>|
            !#[trigger] is_remote_for(shaped_remote(ssh, host, owner, repo), o, p),
{
    let url = shaped_remote(ssh, host, owner, repo);
    assert forall|o: Seq<char>, p: Seq<char>| !#[trigger] is_remote_for(url, o, p) by {
        if is_remote_for(url, o, p) {
            let h = choose|h: Seq<char>|
                #![trigger is_host(h)]
                is_host(h) && (url == ssh_remote(h, o, p) || url == https_remote(h, o, p));
            let ssh2 = url == ssh_remote(h, o, p);
            assert(url == shaped_remote(ssh2, h, o, p));
            lemma_same_segments(ssh, host, owner, repo, ssh2, h, o, p);
        }
    }
}

fn is_word_char_exec(c: char) -> (r: bool)
    ensures
        r == is_word_char(c),
{
    c != '/' && c != ':' && word_character(c)
}

/// Where the longest run of word characters that ends at `end` begins.
fn word_run_start(url: &str, end: usize) -> (start: usize)
    requires
        end <= url@.len(),
    ensures
        is_run_start(url@, start as int, end as int),
{
    let mut i: usize = end;
    while i > 0 && is_word_char_exec(url.get_char(i - 1))
        invariant
            i <= end <= url@.len(),
            forall|t: int| i <= t < end ==> #[trigger] is_word_char(url@[t]),
        decreases i,
    {
        i = i - 1;
    }
    i
}

/// Whether `lit` stands in `url` at `at`.
fn matches_at(url: &str, at: usize, lit: &str) -> (r: bool)
    requires
        at <= url@.len(),
    ensures
        r == (at + lit@.len() <= url@.len() && url@.subrange(
            at as int,
            at + lit@.len(),
        ) == lit@),
{
    let n = url.unicode_len();
    let m = lit.unicode_len();
    if m > n - at {
        return false;
    }
    let mut i: usize = 0;
    while i < m
        invariant
            n == url@.len(),
            m == lit@.len(),
            at + m <= n,
            i <= m,
            forall|t: int| 0 <= t < i ==> url@[at + t] == lit@[t],
        decreases m - i,
    {
        if url.get_char(at + i) != lit.get_char(i) {
            assert(url@.subrange(at as int, at + m)[i as int] != lit@[i as int]);
            return false;
        }
        i = i + 1;
    }
    assert(url@.subrange(at as int, at + m) =~= lit@);
    true
}

/// Whether the characters of `url` from `from` to `to` form a host name.
fn is_host_exec(url: &str, from: usize, to: usize) -> (r: bool)
    requires
        from <= to <= url@.len(),
    ensures
        r == is_host(url@.subrange(from as int, to as int)),
{
    if from == to {
        return false;
    }
    let mut i: usize = from;
    while i < to
        invariant
            from <= i <= to <= url@.len(),
            forall|t: int| from <= t < i ==> url@[t] != '/' && url@[t] != ':',
        decreases to - i,
    {
        let c = url.get_char(i);
        if c == '/' || c == ':' {
            assert(url@.subrange(from as int, to as int)[i - from] == c);
            return false;
        }
        i = i + 1;
    }
    assert forall|t: int| 0 <= t < to - from implies #[trigger] url@.subrange(
        from as int,
        to as int,
    )[t] != '/' && url@.subrange(from as int, to as int)[t] != ':' by {
        assert(url@.subrange(from as int, to as int)[t] == url@[from + t]);
    }
    true
}

/// The owner and repository of a remote URL of the form
/// `git@<host>:<owner>/<repo>.git` or `https://<host>/<owner>/<repo>.git`,
/// or `None` where the URL has neither form.
pub fn parse_git_url(url: &str) -> (r: Option<(&str, &str)>)
    ensures
        match r {
            Some((owner, repo)) => is_remote_for(url@, owner@, repo@),
            None => forall|owner: Seq<char>, repo: Seq<char>| !is_remote_for(url@, owner, repo),
        },
{
    proof {
        reveal_strlit(".git");
        reveal_strlit("git@");
        reveal_strlit("https://");
        assert(".git"@ =~= git_suffix());
        assert("git@"@ =~= ssh_prefix());
        assert("https://"@ =~= https_prefix());
    }
    let n = url.unicode_len();
    if n < 4 || !matches_at(url, n - 4, ".git") {
        proof {
            assert forall|owner: Seq<char>, repo: Seq<char>| !is_remote_for(url@, owner, repo) by {
                lemma_needs_git_suffix(url@, owner, repo);
            }
        }
        return None;
    }
    let e = n - 4;
    let s = word_run_start(url, e);
    if s == e || s == 0 || url.get_char(s - 1) != '/' {
        proof {
            assert forall|owner: Seq<char>, repo: Seq<char>| !is_remote_for(url@, owner, repo) by {
                if is_remote_for(url@, owner, repo) {
                    lemma_remote_shape(url@, owner, repo);
                    lemma_run_start_unique(url@, s as int, e - repo.len(), e as int);
                }
            }
        }
        return None;
    }
    let k = word_run_start(url, s - 1);
    let ok = if k == s - 1 || k == 0 {
        false
    } else {
        let sep = url.get_char(k - 1);
        if sep == ':' {
            4 < k - 1 && matches_at(url, 0, "git@") && is_host_exec(url, 4, k - 1)
        } else if sep == '/' {
            8 < k - 1 && matches_at(url, 0, "https://") && is_host_exec(url, 8, k - 1)
        } else {
            false
        }
    };
    if !ok {
        proof {
            assert forall|owner: Seq<char>, repo: Seq<char>| !is_remote_for(url@, owner, repo) by {
                if is_remote_for(url@, owner, repo) {
                    lemma_remote_shape(url@, owner, repo);
                    lemma_run_start_unique(url@, s as int, e - repo.len(), e as int);
                    lemma_run_start_unique(url@, k as int, s - 1 - owner.len(), s - 1);
                }
            }
        }
        return None;
    }
    let owner = url.substring_char(k, s - 1);
    let repo = url.substring_char(s, e);
    proof {
        let sep = url@[k - 1];
        let pl: int = if sep == ':' { 4 } else { 8 };
        let host = url@.subrange(pl, k - 1);
        assert(is_host(host));
        if sep == ':' {
            assert(url@ =~= ssh_remote(host, owner@, repo@));
        } else {
            assert(url@ =~= https_remote(host, owner@, repo@));
        }
        assert(url@.subrange(e as int, n as int) == git_suffix());
    }
    Some((owner, repo))
}

} // verus!
