//! Turning the configuration argument into a Nix flake reference.

use vstd::prelude::*;

use crate::text::{chars_of, split_chars, split_on, string_of, string_of_range};

verus! {

/// A parsed URL, as the parts that decide its flake reference.
#[derive(Debug, Clone)]
pub struct UrlParts {
    /// The scheme, lowercase, without the `:`.
    pub scheme: String,
    /// The host, when the URL has one.
    pub host: Option<String>,
    /// The path, percent-encoded.
    pub path: String,
    /// The whole URL as the parser serializes it.
    pub serialization: String,
}

/// A parsed URL as its scheme, host, path and serialization.
pub open spec fn url_view(u: UrlParts) -> (Seq<char>, Option<Seq<char>>, Seq<char>, Seq<char>) {
    (
        u.scheme@,
        match u.host {
            Some(h) => Some(h@),
            None => None,
        },
        u.path@,
        u.serialization@,
    )
}

/// What `url::Url::parse` gives for a text: `None` when it is no absolute
/// URL, else the scheme, host, path and serialization of the URL.
pub uninterp spec fn parsed_url(input: Seq<char>) -> Option<
    (Seq<char>, Option<Seq<char>>, Seq<char>, Seq<char>),
>;

/// Calls `url::Url::parse`, then reads the scheme, host, path and
/// serialization of the URL. The contract claims only that the outcome is a
/// fixed function of the text; the parser's rules are not stated here.
#[verifier::external_body]
fn parse_url(input: &str) -> (r: Option<UrlParts>)
    ensures
        match r {
            Some(u) => parsed_url(input@) == Some(url_view(u)),
            None => parsed_url(input@) is None,
        },
{
    let url = url::Url::parse(input).ok()?;
    Some(UrlParts {
        scheme: url.scheme().to_owned(),
        host: url.host_str().map(str::to_owned),
        path: url.path().to_owned(),
        serialization: url.as_str().to_owned(),
    })
}

/// The segments of a URL path, as `Url::path_segments` gives them: the path
/// after its leading `/`, split at each `/`; `None` when the path does not
/// start with `/`.
pub open spec fn spec_path_segments(path: Seq<char>) -> Option<Seq<Seq<char>>> {
    if path.len() > 0 && path[0] == '/' {
        Some(split_on(path.skip(1), '/'))
    } else {
        None
    }
}

/// `s` without the `.git` suffixes it ends with, as `trim_end_matches`
/// removes them.
pub open spec fn trim_git_suffix(s: Seq<char>) -> Seq<char>
    decreases s.len(),
{
    if s.len() >= 4 && s.skip(s.len() - 4) == ".git"@ {
        trim_git_suffix(s.take(s.len() - 4))
    } else {
        s
    }
}

/// Schemes that already name a flake reference.
pub open spec fn is_flake_scheme(scheme: Seq<char>) -> bool {
    scheme == "github"@ || scheme == "gitlab"@ || scheme == "sourcehut"@ || scheme == "path"@
        || scheme == "flake"@
}

/// `s` starts with `prefix`.
pub open spec fn starts_with(s: Seq<char>, prefix: Seq<char>) -> bool {
    prefix.len() <= s.len() && s.take(prefix.len() as int) == prefix
}

/// The flake reference of a parsed URL: flake-reference schemes and
/// `git+…`/`tarball+…` schemes pass through; a web or ssh URL of a GitHub
/// or GitLab repository becomes `github:owner/repo` (or `gitlab:`), without
/// the `.git` suffix; any other web or ssh URL becomes a `git+` remote; the
/// rest passes through.
pub open spec fn spec_to_flake_ref(url: (Seq<char>, Option<Seq<char>>, Seq<char>, Seq<char>)) -> Seq<
    char,
> {
    let (scheme, host, path, ser) = url;
    if is_flake_scheme(scheme) || starts_with(scheme, "git+"@) || starts_with(scheme, "tarball+"@) {
        ser
    } else if scheme == "https"@ || scheme == "http"@ || scheme == "ssh"@ {
        let h = match host {
            Some(h) => h,
            None => Seq::empty(),
        };
        let segs = spec_path_segments(path);
        if (h == "github.com"@ || h == "gitlab.com"@) && segs is Some && segs->0.len() >= 2 {
            (if h == "github.com"@ {
                "github"@
            } else {
                "gitlab"@
            }) + ":"@ + segs->0[0] + "/"@ + trim_git_suffix(segs->0[1])
        } else {
            "git+"@ + ser
        }
    } else {
        ser
    }
}

/// Splitting skips over a stretch without the separator.
proof fn lemma_split_skip(s: Seq<char>, sep: char, start: int, i: int, j: int)
    requires
        0 <= start <= i <= j <= s.len(),
        forall|k: int| i <= k < j ==> s[k] != sep,
    ensures
        crate::text::split_from(s, sep, start, i) == crate::text::split_from(s, sep, start, j),
    decreases j - i,
{
    if i < j {
        lemma_split_skip(s, sep, start, i + 1, j);
    }
}

/// The first two pieces of `owner/repo…` split at `/` are the owner and the
/// repository, when neither holds a `/` and what follows them is empty or
/// starts with `/`.
proof fn lemma_split_owner_repo(owner: Seq<char>, repo: Seq<char>, rest: Seq<char>)
    requires
        !owner.contains('/'),
        !repo.contains('/'),
        rest.len() == 0 || rest[0] == '/',
    ensures
        split_on(owner + "/"@ + repo + rest, '/').len() >= 2,
        split_on(owner + "/"@ + repo + rest, '/')[0] == owner,
        split_on(owner + "/"@ + repo + rest, '/')[1] == repo,
{
    reveal_strlit("/");
    let s = owner + "/"@ + repo + rest;
    let o = owner.len() as int;
    let r = repo.len() as int;
    assert forall|k: int| 0 <= k < o implies s[k] != '/' by {
        assert(s[k] == owner[k]);
    }
    lemma_split_skip(s, '/', 0, 0, o);
    assert(s[o] == '/');
    assert(s.subrange(0, o) =~= owner);
    assert forall|k: int| o + 1 <= k < o + 1 + r implies s[k] != '/' by {
        assert(s[k] == repo[k - o - 1]);
    }
    lemma_split_skip(s, '/', o + 1, o + 1, o + 1 + r);
    assert(s.subrange(o + 1, o + 1 + r) =~= repo);
    let tail = crate::text::split_from(s, '/', o + 1, o + 1 + r);
    if rest.len() == 0 {
        assert(tail == seq![s.subrange(o + 1, s.len() as int)]);
        assert(s.len() == o + 1 + r);
    } else {
        assert(s[o + 1 + r] == '/');
        assert(tail[0] == s.subrange(o + 1, o + 1 + r));
    }
}

/// `https`, `http` and `ssh` are neither flake-reference schemes nor
/// `git+`/`tarball+` schemes.
proof fn lemma_web_scheme_is_not_passed_through(scheme: Seq<char>)
    requires
        scheme == "https"@ || scheme == "http"@ || scheme == "ssh"@,
    ensures
        !is_flake_scheme(scheme),
        !starts_with(scheme, "git+"@),
        !starts_with(scheme, "tarball+"@),
{
    reveal_strlit("https");
    reveal_strlit("http");
    reveal_strlit("ssh");
    reveal_strlit("github");
    reveal_strlit("gitlab");
    reveal_strlit("sourcehut");
    reveal_strlit("path");
    reveal_strlit("flake");
    reveal_strlit("git+");
    reveal_strlit("tarball+");
    assert(scheme[0] == 'h' || scheme[0] == 's');
    assert("github"@[0] == 'g' && "gitlab"@[0] == 'g' && "path"@[0] == 'p' && "flake"@[0] == 'f');
    assert("sourcehut"@.len() == 9 && "ssh"@.len() == 3);
    if starts_with(scheme, "git+"@) {
        assert(scheme.take(4)[0] == "git+"@[0]);
    }
    if starts_with(scheme, "tarball+"@) {
        assert(scheme.len() >= 8);
    }
}

/// A web or ssh URL of a GitHub or GitLab repository becomes the
/// `github:owner/repo` (or `gitlab:`) reference of that repository, without
/// its `.git` suffix, whichever of `https`, `http` and `ssh` it uses and
/// whatever follows the repository in the path.
pub proof fn lemma_hosted_repo_ref(
    scheme: Seq<char>,
    host: Seq<char>,
    owner: Seq<char>,
    repo: Seq<char>,
    rest: Seq<char>,
    ser: Seq<char>,
)
    requires
        scheme == "https"@ || scheme == "http"@ || scheme == "ssh"@,
        host == "github.com"@ || host == "gitlab.com"@,
        !owner.contains('/'),
        !repo.contains('/'),
        rest.len() == 0 || rest[0] == '/',
    ensures
        spec_to_flake_ref((scheme, Some(host), "/"@ + owner + "/"@ + repo + rest, ser)) == (if host
            == "github.com"@ {
            "github:"@
        } else {
            "gitlab:"@
        }) + owner + "/"@ + trim_git_suffix(repo),
{
    lemma_web_scheme_is_not_passed_through(scheme);
    reveal_strlit("github");
    reveal_strlit("gitlab");
    reveal_strlit("github:");
    reveal_strlit("gitlab:");
    reveal_strlit(":");
    reveal_strlit("/");
    let path = "/"@ + owner + "/"@ + repo + rest;
    assert(path.skip(1) =~= owner + "/"@ + repo + rest);
    lemma_split_owner_repo(owner, repo, rest);
    assert("github"@ + ":"@ =~= "github:"@);
    assert("gitlab"@ + ":"@ =~= "gitlab:"@);
}

/// A web or ssh URL of any other host is taken as a git remote,
/// `git+<url>`; a URL whose scheme already names a flake reference, or a
/// `git+…`/`tarball+…` URL, is passed through unchanged.
pub proof fn lemma_other_refs(scheme: Seq<char>, host: Option<Seq<char>>, path: Seq<char>, ser: Seq<char>)
    ensures
        (scheme == "https"@ || scheme == "http"@ || scheme == "ssh"@) && !(host == Some(
            "github.com"@,
        ) || host == Some("gitlab.com"@)) ==> spec_to_flake_ref((scheme, host, path, ser))
            == "git+"@ + ser,
        (is_flake_scheme(scheme) || starts_with(scheme, "git+"@) || starts_with(scheme, "tarball+"@))
            ==> spec_to_flake_ref((scheme, host, path, ser)) == ser,
{
    if scheme == "https"@ || scheme == "http"@ || scheme == "ssh"@ {
        lemma_web_scheme_is_not_passed_through(scheme);
        reveal_strlit("github.com");
        reveal_strlit("gitlab.com");
        if host is None {
            assert("github.com"@.len() == 10 && "gitlab.com"@.len() == 10);
            assert(Seq::<char>::empty().len() == 0);
        }
    }
}

/// Whether `s` equals the text `lit`.
fn text_is(s: &str, lit: &str) -> (r: bool)
    ensures
        r == (s@ == lit@),
{
    crate::text::chars_eq(chars_of(s).as_slice(), chars_of(lit).as_slice())
}

/// Whether `s` starts with the text `prefix`.
fn text_starts_with(s: &str, prefix: &str) -> (r: bool)
    ensures
        r == starts_with(s@, prefix@),
{
    let v = chars_of(s);
    let p = chars_of(prefix);
    if p.len() > v.len() {
        return false;
    }
    let mut i: usize = 0;
    while i < p.len()
        invariant
            v@ == s@,
            p@ == prefix@,
            p@.len() <= v@.len(),
            i <= p@.len(),
            forall|j: int| 0 <= j < i ==> v@[j] == p@[j],
        decreases p@.len() - i,
    {
        if v[i] != p[i] {
            assert(s@.take(prefix@.len() as int)[i as int] != prefix@[i as int]);
            return false;
        }
        i = i + 1;
    }
    assert(s@.take(prefix@.len() as int) =~= prefix@);
    true
}

/// `s` without its trailing `.git` suffixes.
#[verifier::rlimit(40)]
fn trim_git(s: &Vec<char>) -> (r: String)
    ensures
        r@ == trim_git_suffix(s@),
{
    let mut n = s.len();
    proof {
        reveal_strlit(".git");
    }
    assert(s@.take(n as int) =~= s@);
    while n >= 4 && s[n - 4] == '.' && s[n - 3] == 'g' && s[n - 2] == 'i' && s[n - 1] == 't'
        invariant
            n <= s@.len(),
            trim_git_suffix(s@) == trim_git_suffix(s@.take(n as int)),
        decreases n,
    {
        proof {
            reveal_strlit(".git");
        }
        let ghost t = s@.take(n as int);
        assert(t[n - 4] == '.' && t[n - 3] == 'g' && t[n - 2] == 'i' && t[n - 1] == 't');
        assert(t.skip(t.len() - 4) =~= ".git"@);
        assert(t.take(t.len() - 4) =~= s@.take(n - 4));
        n = n - 4;
    }
    let ghost t = s@.take(n as int);
    assert(!(t.len() >= 4 && t.skip(t.len() - 4) == ".git"@)) by {
        if t.len() >= 4 && t.skip(t.len() - 4) == ".git"@ {
            assert(t.skip(t.len() - 4)[0] == '.');
            assert(t.skip(t.len() - 4)[1] == 'g');
            assert(t.skip(t.len() - 4)[2] == 'i');
            assert(t.skip(t.len() - 4)[3] == 't');
        }
    }
    let r = string_of_range(s.as_slice(), 0, n);
    assert(r@ =~= t);
    r
}

/// The segments of a URL path.
fn path_segments(path: &str) -> (r: Option<Vec<Vec<char>>>)
    ensures
        match r {
            Some(v) => spec_path_segments(path@) == Some(v@.map_values(|p: Vec<char>| p@)),
            None => spec_path_segments(path@) is None,
        },
{
    let v = chars_of(path);
    if v.len() > 0 && v[0] == '/' {
        let rest = string_of_range(v.as_slice(), 1, v.len());
        let rest_chars = chars_of(rest.as_str());
        assert(rest_chars@ =~= path@.skip(1));
        Some(split_chars(rest_chars.as_slice(), '/'))
    } else {
        None
    }
}

/// The flake reference of a parsed URL.
pub fn to_flake_ref(url: &UrlParts) -> (r: String)
    ensures
        r@ == spec_to_flake_ref(url_view(*url)),
{
    proof {
        reveal_strlit("github");
        reveal_strlit("gitlab");
        reveal_strlit("sourcehut");
        reveal_strlit("path");
        reveal_strlit("flake");
        reveal_strlit("https");
        reveal_strlit("http");
        reveal_strlit("ssh");
        reveal_strlit("github.com");
        reveal_strlit("gitlab.com");
        reveal_strlit(":");
        reveal_strlit("/");
        reveal_strlit("git+");
        reveal_strlit("");
    }
    let ghost u = url_view(*url);
    let scheme = url.scheme.as_str();
    if text_is(scheme, "github") || text_is(scheme, "gitlab") || text_is(scheme, "sourcehut")
        || text_is(scheme, "path") || text_is(scheme, "flake") || text_starts_with(scheme, "git+")
        || text_starts_with(scheme, "tarball+") {
        return url.serialization.clone();
    }
    if !(text_is(scheme, "https") || text_is(scheme, "http") || text_is(scheme, "ssh")) {
        return url.serialization.clone();
    }
    let host: &str = match &url.host {
        Some(h) => h.as_str(),
        None => "",
    };
    assert(host@ == match u.1 {
        Some(h) => h,
        None => Seq::<char>::empty(),
    });
    let github = text_is(host, "github.com");
    let gitlab = text_is(host, "gitlab.com");
    let segments = path_segments(url.path.as_str());
    if github || gitlab {
        if let Some(segs) = segments {
            let ghost sv = segs@.map_values(|p: Vec<char>| p@);
            if segs.len() >= 2 {
                assert(sv[0] == segs@[0]@ && sv[1] == segs@[1]@);
                let mut r = if github {
                    "github".to_owned()
                } else {
                    "gitlab".to_owned()
                };
                let seg0 = string_of(segs[0].as_slice());
                let seg1 = trim_git(&segs[1]);
                r.append(":");
                r.append(seg0.as_str());
                r.append("/");
                r.append(seg1.as_str());
                assert(r@ =~= spec_to_flake_ref(u));
                return r;
            }
            assert(sv.len() < 2);
        }
    }
    let mut r = "git+".to_owned();
    r.append(url.serialization.as_str());
    assert(r@ =~= spec_to_flake_ref(u));
    r
}

/// The flake reference a configuration argument names: a URL becomes its
/// flake reference, anything else (a path, a flake reference the URL parser
/// refuses) stays as written.
pub fn flake_ref(s: &str) -> (r: String)
    ensures
        r@ == match parsed_url(s@) {
            Some(u) => spec_to_flake_ref(u),
            None => s@,
        },
{
    match parse_url(s) {
        Some(url) => to_flake_ref(&url),
        None => s.to_owned(),
    }
}

} // verus!
