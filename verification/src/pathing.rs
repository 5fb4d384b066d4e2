//! Path templates and path arithmetic: token substitution, home-directory
//! expansion, joining, and the file-identity comparison used by the
//! classifier.

use vstd::prelude::*;

use crate::model::{FileMeta, ResolveContext};

verus! {

/// Greedy left-to-right replacement of every non-overlapping occurrence of
/// `token` in `s` by `repl`. An empty token replaces nothing.
pub open spec fn spec_replace(s: Seq<char>, token: Seq<char>, repl: Seq<char>) -> Seq<char>
    decreases s.len(),
{
    if token.len() == 0 || s.len() < token.len() {
        s
    } else if s.take(token.len() as int) == token {
        repl + spec_replace(s.skip(token.len() as int), token, repl)
    } else {
        seq![s[0]] + spec_replace(s.skip(1), token, repl)
    }
}

/// Whether `token` occurs in `s` starting at character position `i`.
fn token_matches_at(s: &str, n: usize, i: usize, token: &str, tn: usize) -> (r: bool)
    requires
        n == s@.len(),
        tn == token@.len(),
        i <= n,
    ensures
        r == (i + tn <= n && s@.subrange(i as int, i + tn) == token@),
{
    if tn > n - i {
        return false;
    }
    let mut j: usize = 0;
    while j < tn
        invariant
            n == s@.len(),
            tn == token@.len(),
            i + tn <= n,
            j <= tn,
            forall|k: int| 0 <= k < j ==> s@[i + k] == token@[k],
        decreases tn - j,
    {
        if s.get_char(i + j) != token.get_char(j) {
            proof {
                assert(s@.subrange(i as int, i + tn)[j as int] == s@[i + j]);
            }
            return false;
        }
        j = j + 1;
    }
    proof {
        assert(s@.subrange(i as int, i + tn) =~= token@);
    }
    true
}

/// Replace every occurrence of `token` in `input` by `replacement`,
/// scanning left to right without overlap. An empty token replaces nothing.
pub fn replace_token(input: &str, token: &str, replacement: &str) -> (out: String)
    ensures
        out@ == spec_replace(input@, token@, replacement@),
{
    let n = input.unicode_len();
    let tn = token.unicode_len();
    if tn == 0 {
        return input.to_owned();
    }
    let mut out = String::new();
    let mut i: usize = 0;
    proof {
        assert(input@.skip(0) =~= input@);
        assert(out@ + spec_replace(input@, token@, replacement@) =~= spec_replace(
            input@,
            token@,
            replacement@,
        ));
    }
    while i < n
        invariant
            n == input@.len(),
            tn == token@.len(),
            tn >= 1,
            i <= n,
            spec_replace(input@, token@, replacement@) == out@ + spec_replace(
                input@.skip(i as int),
                token@,
                replacement@,
            ),
        decreases n - i,
    {
        let ghost rest = input@.skip(i as int);
        let ghost goal = spec_replace(input@, token@, replacement@);
        if token_matches_at(input, n, i, token, tn) {
            out.append(replacement);
            proof {
                assert(rest.take(tn as int) =~= input@.subrange(i as int, i + tn));
                assert(rest.skip(tn as int) =~= input@.skip(i + tn));
                assert(spec_replace(rest, token@, replacement@) == replacement@ + spec_replace(
                    input@.skip(i + tn),
                    token@,
                    replacement@,
                ));
                assert(goal =~= out@ + spec_replace(input@.skip(i + tn), token@, replacement@));
            }
            i = i + tn;
        } else {
            let piece = input.substring_char(i, i + 1);
            out.append(piece);
            proof {
                assert(piece@ =~= seq![input@[i as int]]);
                assert(rest[0] == input@[i as int]);
                assert(rest.skip(1) =~= input@.skip(i + 1));
                if i + tn <= n {
                    assert(rest.take(tn as int) =~= input@.subrange(i as int, i + tn));
                    assert(spec_replace(rest, token@, replacement@) == seq![rest[0]]
                        + spec_replace(input@.skip(i + 1), token@, replacement@));
                } else {
                    assert(rest.len() < tn);
                    assert(spec_replace(rest, token@, replacement@) == rest);
                    assert(rest.skip(1).len() < tn);
                    assert(spec_replace(rest.skip(1), token@, replacement@) == rest.skip(1));
                    assert(rest =~= seq![rest[0]] + rest.skip(1));
                }
                assert(goal =~= out@ + spec_replace(input@.skip(i + 1), token@, replacement@));
            }
            i = i + 1;
        }
    }
    proof {
        assert(input@.skip(n as int) =~= Seq::<char>::empty());
        assert(spec_replace(Seq::<char>::empty(), token@, replacement@)
            == Seq::<char>::empty());
        assert(out@ + Seq::<char>::empty() =~= out@);
    }
    out
}

/// Joining a relative path onto a base path, inserting a separator unless the
/// base is empty or already ends with one.
pub open spec fn spec_path_join(base: Seq<char>, rel: Seq<char>) -> Seq<char> {
    if base.len() == 0 {
        rel
    } else if base.last() == '/' {
        base + rel
    } else {
        base + "/"@ + rel
    }
}

/// Join a relative path onto a base path.
pub fn path_join(base: &str, rel: &str) -> (r: String)
    ensures
        r@ == spec_path_join(base@, rel@),
{
    let n = base.unicode_len();
    if n == 0 {
        return rel.to_owned();
    }
    let mut out = base.to_owned();
    if base.get_char(n - 1) != '/' {
        proof {
            reveal_strlit("/");
        }
        out.append("/");
    }
    out.append(rel);
    out
}

/// All leading copies of `c` removed.
pub open spec fn spec_trim_leading(s: Seq<char>, c: char) -> Seq<char>
    decreases s.len(),
{
    if s.len() > 0 && s[0] == c {
        spec_trim_leading(s.skip(1), c)
    } else {
        s
    }
}

/// The character position of the first character not equal to `c`
/// (or the length, when all are).
fn scan_leading(s: &str, n: usize, from: usize, c: char) -> (r: usize)
    requires
        n == s@.len(),
        from <= n,
    ensures
        from <= r <= n,
        forall|k: int| from <= k < r ==> s@[k] == c,
        r < n ==> s@[r as int] != c,
        spec_trim_leading(s@.skip(from as int), c) == s@.skip(r as int),
    decreases n - from,
{
    if from < n && s.get_char(from) == c {
        let r = scan_leading(s, n, from + 1, c);
        proof {
            assert(s@.skip(from as int)[0] == s@[from as int]);
            assert(s@.skip(from as int).skip(1) =~= s@.skip(from + 1));
        }
        r
    } else {
        from
    }
}

/// Substitute the repository-root token, and the home token when a home
/// directory is known.
pub open spec fn spec_substitute(
    raw: Seq<char>,
    repo: Seq<char>,
    home: Option<Seq<char>>,
) -> Seq<char> {
    let with_repo = spec_replace(raw, "<repo>"@, repo);
    match home {
        Some(h) => spec_replace(with_repo, "<home>"@, h),
        None => with_repo,
    }
}

/// The view of an optional string.
pub open spec fn opt_view(o: Option<String>) -> Option<Seq<char>> {
    match o {
        Some(s) => Some(s@),
        None => None,
    }
}

/// Substitute the context's tokens into a template.
pub fn substitute_tokens(input: &str, ctx: &ResolveContext) -> (out: String)
    ensures
        out@ == spec_substitute(input@, ctx.repo_root_text@, opt_view(ctx.home_dir_text)),
{
    proof {
        reveal_strlit("<repo>");
        reveal_strlit("<home>");
    }
    let with_repo = replace_token(input, "<repo>", ctx.repo_root_text.as_str());
    match &ctx.home_dir_text {
        Some(home_text) => replace_token(with_repo.as_str(), "<home>", home_text.as_str()),
        None => with_repo,
    }
}

/// Where a substituted template resolves to: home-relative templates expand
/// under the home directory, absolute paths stand as they are, and anything
/// else resolves relative to the configuration file's directory.
pub open spec fn spec_resolve(raw: Seq<char>, ctx: ResolveContext) -> Seq<char> {
    let s = spec_substitute(raw, ctx.repo_root_text@, opt_view(ctx.home_dir_text));
    match ctx.home_dir {
        Some(home) => {
            if s == "~"@ || (s.len() >= 2 && s[0] == '~' && s[1] == '/') {
                let suffix = spec_trim_leading(spec_trim_leading(s, '~'), '/');
                if suffix.len() == 0 {
                    home@
                } else {
                    spec_path_join(home@, suffix)
                }
            } else if s.len() > 0 && s[0] == '/' {
                s
            } else {
                spec_path_join(ctx.config_dir@, s)
            }
        },
        None => {
            if s.len() > 0 && s[0] == '/' {
                s
            } else {
                spec_path_join(ctx.config_dir@, s)
            }
        },
    }
}

/// A path template as written in the configuration.
pub struct PathTemplate<'a> {
    pub raw: &'a str,
}

impl<'a> PathTemplate<'a> {
    /// Wrap a raw template string.
    pub fn new(raw: &'a str) -> (r: PathTemplate<'a>)
        ensures
            r.raw@ == raw@,
    {
        PathTemplate { raw }
    }

    /// Resolve the template to a path under the given context.
    pub fn resolve(&self, ctx: &ResolveContext) -> (r: String)
        ensures
            r@ == spec_resolve(self.raw@, *ctx),
    {
        let with_tokens = substitute_tokens(self.raw, ctx);
        let n = with_tokens.as_str().unicode_len();
        proof {
            reveal_strlit("~");
        }
        match &ctx.home_dir {
            Some(home) => {
                let tilde = n >= 1 && with_tokens.as_str().get_char(0) == '~' && (n == 1
                    || with_tokens.as_str().get_char(1) == '/');
                proof {
                    assert(tilde == (with_tokens@ == "~"@ || (with_tokens@.len() >= 2
                        && with_tokens@[0] == '~' && with_tokens@[1] == '/'))) by {
                        if n == 1 && with_tokens@[0] == '~' {
                            assert(with_tokens@ =~= "~"@);
                        }
                        if with_tokens@ == "~"@ {
                            assert(with_tokens@.len() == 1);
                        }
                    }
                }
                if tilde {
                    let after_tilde = scan_leading(with_tokens.as_str(), n, 0, '~');
                    let suffix_start = scan_leading(with_tokens.as_str(), n, after_tilde, '/');
                    proof {
                        assert(with_tokens@.skip(0) =~= with_tokens@);
                        assert(spec_trim_leading(with_tokens@, '~') == with_tokens@.skip(
                            after_tilde as int,
                        ));
                    }
                    if suffix_start == n {
                        home.clone()
                    } else {
                        let suffix = with_tokens.as_str().substring_char(suffix_start, n);
                        proof {
                            assert(suffix@ =~= with_tokens@.skip(suffix_start as int));
                        }
                        path_join(home.as_str(), suffix)
                    }
                } else if n > 0 && with_tokens.as_str().get_char(0) == '/' {
                    with_tokens
                } else {
                    path_join(ctx.config_dir.as_str(), with_tokens.as_str())
                }
            },
            None => {
                if n > 0 && with_tokens.as_str().get_char(0) == '/' {
                    with_tokens
                } else {
                    path_join(ctx.config_dir.as_str(), with_tokens.as_str())
                }
            },
        }
    }
}

/// Resolve a raw template string to a path under the given context.
pub fn resolve_path(raw: &str, ctx: &ResolveContext) -> (r: String)
    ensures
        r@ == spec_resolve(raw@, *ctx),
{
    PathTemplate::new(raw).resolve(ctx)
}

/// Two metadata values describe the same on-disk file identity: same device
/// and same inode.
pub open spec fn spec_same_file(a: FileMeta, b: FileMeta) -> bool {
    a.ino == b.ino && a.dev == b.dev
}

/// Whether two metadata values report the same device and inode.
pub fn same_file(a: &FileMeta, b: &FileMeta) -> (r: bool)
    ensures
        r == spec_same_file(*a, *b),
{
    a.ino == b.ino && a.dev == b.dev
}

/// The number of hardlinks the metadata reports.
pub fn hardlink_count(meta: &FileMeta) -> (r: u64)
    ensures
        r == meta.nlink,
{
    meta.nlink
}

} // verus!
