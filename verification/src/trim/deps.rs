//! Local files a set of Nix modules depends on, found through the relative
//! path literals (`./…`, `../…`) in their source.

use vstd::prelude::*;

use crate::path::{
    has_nix_extension, join_path, lemma_path_le_total, lemma_path_le_trans, parent_dir, path_le,
    path_le_exec, relative_to, sorted_paths, spec_has_nix_extension, spec_join_path, spec_parent,
    spec_relative_to,
};
use crate::text::{chars_of, class_admits, is_alphanumeric, occurs_at, push_char, string_of, string_of_range, unicode_alphanumeric};

verus! {

/// Index of the first `\n` at or after `k`.
pub open spec fn line_end(s: Seq<char>, k: int) -> Option<int>
    decreases s.len() - k,
{
    if k < 0 || k >= s.len() {
        None
    } else if s[k] == '\n' {
        Some(k)
    } else {
        line_end(s, k + 1)
    }
}

/// Index of the `/` closing a block comment, scanning from `k` where `prev`
/// is the character seen just before (a space right after the opening `/*`).
pub open spec fn block_end(s: Seq<char>, k: int, prev: char) -> Option<int>
    decreases s.len() - k,
{
    if k < 0 || k >= s.len() {
        None
    } else if prev == '*' && s[k] == '/' {
        Some(k)
    } else {
        block_end(s, k + 1, s[k])
    }
}

/// Bounds of `line_end`.
pub proof fn lemma_line_end_bounds(s: Seq<char>, k: int)
    ensures
        line_end(s, k) matches Some(j) ==> k <= j < s.len() && s[j] == '\n',
    decreases s.len() - k,
{
    if k < 0 || k >= s.len() {
    } else if s[k] == '\n' {
    } else {
        lemma_line_end_bounds(s, k + 1);
    }
}

/// Bounds of `block_end`.
pub proof fn lemma_block_end_bounds(s: Seq<char>, k: int, prev: char)
    ensures
        block_end(s, k, prev) matches Some(j) ==> k <= j < s.len(),
    decreases s.len() - k,
{
    if k < 0 || k >= s.len() {
    } else if prev == '*' && s[k] == '/' {
    } else {
        lemma_block_end_bounds(s, k + 1, s[k]);
    }
}

/// `s[i..]` with `#` line comments and `/* */` block comments removed. A
/// line comment keeps its closing newline; an unclosed comment runs to the end.
pub open spec fn stripped_from(s: Seq<char>, i: int) -> Seq<char>
    decreases s.len() - i,
{
    if i < 0 || i >= s.len() {
        Seq::empty()
    } else if s[i] == '#' {
        match line_end(s, i + 1) {
            Some(j) => {
                proof {
                    lemma_line_end_bounds(s, i + 1);
                }
                seq!['\n'] + stripped_from(s, j + 1)
            },
            None => Seq::empty(),
        }
    } else if s[i] == '/' && i + 1 < s.len() && s[i + 1] == '*' {
        match block_end(s, i + 2, ' ') {
            Some(j) => {
                proof {
                    lemma_block_end_bounds(s, i + 2, ' ');
                }
                stripped_from(s, j + 1)
            },
            None => Seq::empty(),
        }
    } else {
        seq![s[i]] + stripped_from(s, i + 1)
    }
}

/// Stripping leaves no `#` behind and never lengthens the text.
pub proof fn lemma_stripped_from_shape(s: Seq<char>, i: int)
    requires
        0 <= i,
    ensures
        !stripped_from(s, i).contains('#'),
        stripped_from(s, i).len() <= if i < s.len() { s.len() - i } else { 0 },
    decreases s.len() - i,
{
    if i >= s.len() {
    } else if s[i] == '#' {
        lemma_line_end_bounds(s, i + 1);
        if let Some(j) = line_end(s, i + 1) {
            lemma_stripped_from_shape(s, j + 1);
            let rest = stripped_from(s, j + 1);
            assert forall|k: int| 0 <= k < (seq!['\n'] + rest).len() implies (seq!['\n']
                + rest)[k] != '#' by {
                if k > 0 {
                    assert((seq!['\n'] + rest)[k] == rest[k - 1]);
                }
            }
        }
    } else if s[i] == '/' && i + 1 < s.len() && s[i + 1] == '*' {
        lemma_block_end_bounds(s, i + 2, ' ');
        if let Some(j) = block_end(s, i + 2, ' ') {
            lemma_stripped_from_shape(s, j + 1);
        }
    } else {
        lemma_stripped_from_shape(s, i + 1);
        let rest = stripped_from(s, i + 1);
        assert forall|k: int| 0 <= k < (seq![s[i]] + rest).len() implies (seq![s[i]] + rest)[k]
            != '#' by {
            if k > 0 {
                assert((seq![s[i]] + rest)[k] == rest[k - 1]);
            }
        }
    }
}

/// `t` is `u` with some characters left out, the rest kept in order.
pub open spec fn is_subsequence(t: Seq<char>, u: Seq<char>) -> bool
    decreases u.len(),
{
    if t.len() == 0 {
        true
    } else if u.len() == 0 {
        false
    } else {
        (t[0] == u[0] && is_subsequence(t.drop_first(), u.drop_first())) || is_subsequence(
            t,
            u.drop_first(),
        )
    }
}

/// A subsequence of `v` is a subsequence of anything that ends with `v`.
proof fn lemma_subsequence_of_suffix(t: Seq<char>, w: Seq<char>, v: Seq<char>)
    requires
        is_subsequence(t, v),
    ensures
        is_subsequence(t, w + v),
    decreases w.len(),
{
    if w.len() > 0 {
        lemma_subsequence_of_suffix(t, w.drop_first(), v);
        assert((w + v).drop_first() =~= w.drop_first() + v);
    } else {
        assert(w + v =~= v);
    }
}

/// Stripping comments from `s[i..]` only leaves characters out.
pub proof fn lemma_stripped_from_subsequence(s: Seq<char>, i: int)
    requires
        0 <= i,
    ensures
        is_subsequence(stripped_from(s, i), s.skip(i)),
    decreases s.len() - i,
{
    if i >= s.len() {
    } else if s[i] == '#' {
        lemma_line_end_bounds(s, i + 1);
        if let Some(j) = line_end(s, i + 1) {
            lemma_stripped_from_subsequence(s, j + 1);
            let rest = stripped_from(s, j + 1);
            let t = seq!['\n'] + rest;
            assert(t.drop_first() =~= rest);
            assert(s.skip(j).drop_first() =~= s.skip(j + 1));
            assert(is_subsequence(t, s.skip(j)));
            lemma_subsequence_of_suffix(t, s.subrange(i, j), s.skip(j));
            assert(s.subrange(i, j) + s.skip(j) =~= s.skip(i));
        }
    } else if s[i] == '/' && i + 1 < s.len() && s[i + 1] == '*' {
        lemma_block_end_bounds(s, i + 2, ' ');
        if let Some(j) = block_end(s, i + 2, ' ') {
            lemma_stripped_from_subsequence(s, j + 1);
            lemma_subsequence_of_suffix(stripped_from(s, j + 1), s.subrange(i, j + 1), s.skip(j + 1));
            assert(s.subrange(i, j + 1) + s.skip(j + 1) =~= s.skip(i));
        }
    } else {
        lemma_stripped_from_subsequence(s, i + 1);
        let t = seq![s[i]] + stripped_from(s, i + 1);
        assert(t.drop_first() =~= stripped_from(s, i + 1));
        assert(s.skip(i).drop_first() =~= s.skip(i + 1));
    }
}

/// Nix source with its comments removed.
pub open spec fn spec_strip_comments(s: Seq<char>) -> Seq<char> {
    stripped_from(s, 0)
}

/// Removes `#` line comments and `/* */` block comments from Nix source.
pub fn strip_comments(src: &str) -> (r: String)
    ensures
        r@ == spec_strip_comments(src@),
        !r@.contains('#'),
        r@.len() <= src@.len(),
        is_subsequence(r@, src@),
{
    proof {
        lemma_stripped_from_shape(src@, 0);
        lemma_stripped_from_subsequence(src@, 0);
        assert(src@.skip(0) =~= src@);
    }
    let v = chars_of(src);
    let mut out = String::new();
    let mut i: usize = 0;
    while i < v.len()
        invariant
            v@ == src@,
            i <= v@.len(),
            spec_strip_comments(v@) == out@ + stripped_from(v@, i as int),
        decreases v@.len() - i,
    {
        let c = v[i];
        if c == '#' {
            let mut j = i + 1;
            while j < v.len() && v[j] != '\n'
                invariant
                    i < j <= v@.len(),
                    line_end(v@, i + 1) == line_end(v@, j as int),
                decreases v@.len() - j,
            {
                j = j + 1;
            }
            if j < v.len() {
                push_char(&mut out, '\n');
                assert(out@ + stripped_from(v@, j + 1) =~= out@.drop_last() + (seq!['\n']
                    + stripped_from(v@, j + 1)));
                i = j + 1;
            } else {
                assert(out@ + Seq::<char>::empty() =~= out@);
                i = v.len();
            }
        } else if c == '/' && i + 1 < v.len() && v[i + 1] == '*' {
            let mut prev = ' ';
            let mut j = i + 2;
            while j < v.len() && !(prev == '*' && v[j] == '/')
                invariant
                    i + 2 <= j <= v@.len(),
                    block_end(v@, i + 2, ' ') == block_end(v@, j as int, prev),
                decreases v@.len() - j,
            {
                prev = v[j];
                j = j + 1;
            }
            if j < v.len() {
                i = j + 1;
            } else {
                assert(out@ + Seq::<char>::empty() =~= out@);
                i = v.len();
            }
        } else {
            let ghost before = out@;
            push_char(&mut out, c);
            assert(before + (seq![c] + stripped_from(v@, i + 1)) =~= out@ + stripped_from(
                v@,
                i + 1,
            ));
            i = i + 1;
        }
    }
    assert(out@ + Seq::<char>::empty() =~= out@);
    out
}

/// What `regex::Regex::find_iter` reports for `haystack` once `pattern` is
/// compiled with `regex::Regex::new`: the `(start, end)` byte offsets of the
/// successive matches, or `None` when the pattern does not compile.
pub uninterp spec fn regex_find_spans(pattern: Seq<char>, haystack: Seq<char>) -> Option<
    Seq<(int, int)>,
>;

/// A list of byte spans, as integers.
pub open spec fn spans_view(v: Seq<(usize, usize)>) -> Seq<(int, int)> {
    v.map_values(|p: (usize, usize)| (p.0 as int, p.1 as int))
}

/// Compiles `pattern` with `regex::Regex::new` and lists the byte spans of
/// the matches `regex::Regex::find_iter` yields on `haystack`. The contract
/// only names the result as a function of the pattern and the haystack;
/// nothing is claimed about where matches lie.
#[verifier::external_body]
fn regex_find_iter(pattern: &str, haystack: &str) -> (r: Option<Vec<(usize, usize)>>)
    ensures
        match r {
            Some(v) => regex_find_spans(pattern@, haystack@) == Some(spans_view(v@)),
            None => regex_find_spans(pattern@, haystack@) is None,
        },
{
    match regex::Regex::new(pattern) {
        Ok(re) => Some(re.find_iter(haystack).map(|m| (m.start(), m.end())).collect()),
        Err(_) => None,
    }
}

/// Number of bytes of the UTF-8 encoding of a character.
pub open spec fn utf8_width(c: char) -> int {
    let n = c as u32;
    if n < 0x80 {
        1
    } else if n < 0x800 {
        2
    } else if n < 0x10000 {
        3
    } else {
        4
    }
}

/// Scanning from character `k`, whose byte offset is `acc`, the index of the
/// character that starts at byte offset `b` (or `s.len()` at the very end).
pub open spec fn char_index_from(s: Seq<char>, b: int, k: int, acc: int) -> Option<int>
    decreases s.len() - k,
{
    if k < 0 {
        None
    } else if acc == b {
        Some(k)
    } else if k >= s.len() || acc > b {
        None
    } else {
        char_index_from(s, b, k + 1, acc + utf8_width(s[k]))
    }
}

/// The character index at byte offset `b` of the UTF-8 encoding of `s`, if
/// `b` falls on a character boundary.
pub open spec fn char_index(s: Seq<char>, b: int) -> Option<int> {
    char_index_from(s, b, 0, 0)
}

/// Character index at byte offset `b` of the text.
pub fn char_index_exec(v: &[char], b: usize) -> (r: Option<usize>)
    ensures
        match r {
            Some(i) => char_index(v@, b as int) == Some(i as int) && i <= v@.len(),
            None => char_index(v@, b as int) is None,
        },
{
    let mut k: usize = 0;
    let mut acc: usize = 0;
    loop
        invariant
            k <= v@.len(),
            acc <= b,
            char_index(v@, b as int) == char_index_from(v@, b as int, k as int, acc as int),
        decreases v@.len() - k,
    {
        if acc == b {
            return Some(k);
        }
        if k >= v.len() {
            return None;
        }
        let c = v[k];
        let n = c as u32;
        let w: usize = if n < 0x80 {
            1
        } else if n < 0x800 {
            2
        } else if n < 0x10000 {
            3
        } else {
            4
        };
        assert(w as int == utf8_width(c));
        if w > b - acc {
            assert(char_index_from(v@, b as int, (k + 1) as int, (acc + w) as int) is None);
            return None;
        }
        acc = acc + w;
        k = k + 1;
    }
}

/// A relative path literal found in Nix source text.
#[derive(Debug, Clone, PartialEq, Eq)]
pub struct PathLiteral {
    /// The literal text, e.g. `../common/base.nix`.
    pub text: String,
    /// Whether the literal is immediately followed by `${` interpolation.
    pub dynamic: bool,
}

impl PathLiteral {
    /// The literal as its text and interpolation flag.
    pub open spec fn view_pair(self) -> (Seq<char>, bool) {
        (self.text@, self.dynamic)
    }
}

/// The literals of a list, as text and interpolation flag.
pub open spec fn literal_views(v: Seq<PathLiteral>) -> Seq<(Seq<char>, bool)> {
    v.map_values(|l: PathLiteral| l.view_pair())
}

/// A match starting at `start` is glued to a preceding word character, dot
/// or underscore (`a./x`, `.../x`), so it is not a path.
pub open spec fn glued_before(s: Seq<char>, start: int) -> bool {
    start > 0 && (unicode_alphanumeric(s[start - 1]) || s[start - 1] == '.' || s[start - 1]
        == '_')
}

/// The text at `end` opens a `${` interpolation.
pub open spec fn interpolated_at(s: Seq<char>, end: int) -> bool {
    occurs_at(s, seq!['$', '{'], end)
}

/// The path literals that the byte spans `spans` of a regex search over `s`
/// denote: each span that falls on character boundaries and is not glued to
/// a preceding word, with its text and whether `${` follows it.
pub open spec fn literals_from_spans(s: Seq<char>, spans: Seq<(int, int)>) -> Seq<
    (Seq<char>, bool),
>
    decreases spans.len(),
{
    if spans.len() == 0 {
        Seq::empty()
    } else {
        let rest = literals_from_spans(s, spans.drop_last());
        let span = spans.last();
        match (char_index(s, span.0), char_index(s, span.1)) {
            (Some(i), Some(j)) => if i <= j && j <= s.len() && !glued_before(s, i) {
                rest.push((s.subrange(i, j), interpolated_at(s, j)))
            } else {
                rest
            },
            _ => rest,
        }
    }
}

/// Turns the byte spans of the path regex's matches over `stripped` into
/// path literals: spans glued to a preceding word character, `.` or `_`
/// are dropped, and each literal records whether `${` follows it.
pub fn literals_at(stripped: &str, spans: &Vec<(usize, usize)>) -> (r: Vec<PathLiteral>)
    ensures
        literal_views(r@) == literals_from_spans(stripped@, spans_view(spans@)),
{
    let v = chars_of(stripped);
    let mut r: Vec<PathLiteral> = Vec::new();
    let mut n: usize = 0;
    while n < spans.len()
        invariant
            v@ == stripped@,
            n <= spans@.len(),
            literal_views(r@) == literals_from_spans(v@, spans_view(spans@).take(n as int)),
        decreases spans@.len() - n,
    {
        let (a, b) = spans[n];
        let ghost prev = literal_views(r@);
        let ghost taken = spans_view(spans@).take(n + 1);
        assert(taken.drop_last() =~= spans_view(spans@).take(n as int));
        assert(taken.last() == (a as int, b as int));
        match (char_index_exec(&v, a), char_index_exec(&v, b)) {
            (Some(i), Some(j)) => {
                if i <= j && j <= v.len() {
                    let glued = i > 0 && {
                        let c = v[i - 1];
                        is_alphanumeric(c) || c == '.' || c == '_'
                    };
                    if !glued {
                        let text = string_of_range(&v, i, j);
                        let dollar: Vec<char> = vec!['$', '{'];
                        let dynamic = crate::text::occurs_at_exec(&v, &dollar, j);
                        assert(dollar@ =~= seq!['$', '{']);
                        r.push(PathLiteral { text, dynamic });
                        assert(literal_views(r@) =~= prev.push(
                            (v@.subrange(i as int, j as int), dynamic),
                        ));
                    }
                }
            },
            _ => {},
        }
        n = n + 1;
    }
    assert(spans_view(spans@).take(spans@.len() as int) =~= spans_view(spans@));
    r
}

/// The pattern of a relative path literal.
pub open spec fn path_pattern() -> Seq<char> {
    "\\.\\.?/[A-Za-z0-9_\\-./+@]*"@
}

/// The characters a path literal is made of: ASCII letters and digits, `_`,
/// `-`, `.`, `/`, `+` and `@`.
pub open spec fn path_char(c: char) -> bool {
    ('A' <= c && c <= 'Z') || ('a' <= c && c <= 'z') || ('0' <= c && c <= '9') || c == '_' || c
        == '-' || c == '.' || c == '/' || c == '+' || c == '@'
}

/// The bracket class of the path-literal pattern.
pub open spec fn path_class() -> Seq<char> {
    "A-Za-z0-9_\\-./+@"@
}

/// The path-literal pattern is `./` or `../` followed by any run of path
/// characters: its bracket class admits exactly the path characters, digits
/// included.
pub proof fn lemma_path_pattern_runs_over_path_chars()
    ensures
        path_pattern() == "\\.\\.?/["@ + path_class() + "]*"@,
        forall|c: char| class_admits(path_class(), 0, c) <==> path_char(c),
{
    reveal_strlit("\\.\\.?/[A-Za-z0-9_\\-./+@]*");
    reveal_strlit("\\.\\.?/[");
    reveal_strlit("A-Za-z0-9_\\-./+@");
    reveal_strlit("]*");
    assert(path_pattern() =~= "\\.\\.?/["@ + path_class() + "]*"@);
    reveal_with_fuel(class_admits, 12);
}

/// What `path_literals` returns for Nix source `src`.
pub open spec fn spec_path_literals(src: Seq<char>) -> Seq<(Seq<char>, bool)> {
    let stripped = spec_strip_comments(src);
    match regex_find_spans(path_pattern(), stripped) {
        Some(spans) => literals_from_spans(stripped, spans),
        None => Seq::empty(),
    }
}

/// Extracts relative path literals (`./…`, `../…`) from Nix source text:
/// comments are stripped, then the path pattern is searched with the regex
/// crate and its matches are kept as [`literals_at`] says.
pub fn path_literals(src: &str) -> (r: Vec<PathLiteral>)
    ensures
        literal_views(r@) == spec_path_literals(src@),
{
    let stripped = strip_comments(src);
    match regex_find_iter("\\.\\.?/[A-Za-z0-9_\\-./+@]*", stripped.as_str()) {
        Some(spans) => literals_at(stripped.as_str(), &spans),
        None => {
            assert(literal_views(Seq::<PathLiteral>::empty()) =~= Seq::empty());
            Vec::new()
        },
    }
}

/// Non-fatal problem discovered while trimming a config.
#[derive(Debug, Clone, PartialEq, Eq)]
pub enum Warning {
    /// A path literal contains `${...}` interpolation and cannot be followed.
    Dynamic {
        /// File containing the literal.
        file: String,
        /// The literal text.
        literal: String,
    },
    /// A path literal points outside the source repo.
    OutsideRepo {
        /// File containing the literal.
        file: String,
        /// The literal text.
        literal: String,
    },
    /// A path literal does not resolve to an existing file.
    Missing {
        /// File containing the literal.
        file: String,
        /// The literal text.
        literal: String,
    },
    /// A `.nix` file could not be read.
    Unreadable {
        /// The unreadable file.
        file: String,
    },
    /// An added module has no resolvable source path and was skipped.
    UnresolvedModule {
        /// The module name.
        name: String,
    },
    /// The chosen hostname already exists in the source config.
    HostnameExists {
        /// The colliding hostname.
        hostname: String,
    },
    /// The nixpkgs release could not be determined; stateVersion left commented.
    NoStateVersion,
    /// No inputs were found in the source flake.nix; a default was generated.
    NoInputs,
}

impl Warning {
    /// The message describing the warning.
    pub open spec fn spec_message(self) -> Seq<char> {
        match self {
            Warning::Dynamic { file, literal } => "dynamic path `"@ + literal@ + "` in "@ + file@
                + " skipped"@,
            Warning::OutsideRepo { file, literal } => "`"@ + literal@ + "` in "@ + file@
                + " points outside the repo"@,
            Warning::Missing { file, literal } => "`"@ + literal@ + "` in "@ + file@
                + " does not exist"@,
            Warning::Unreadable { file } => "could not read "@ + file@,
            Warning::UnresolvedModule { name } => "module `"@ + name@
                + "` has no resolvable source, skipped"@,
            Warning::HostnameExists { hostname } => "host `"@ + hostname@
                + "` already exists in the source config"@,
            Warning::NoStateVersion => "could not detect nixpkgs release; stateVersion left commented"@,
            Warning::NoInputs => "no inputs found in source flake.nix; default nixpkgs input generated"@,
        }
    }

    /// The message describing the warning, as shown to the user.
    pub fn message(&self) -> (r: String)
        ensures
            r@ == self.spec_message(),
    {
        let mut r = String::new();
        match self {
            Warning::Dynamic { file, literal } => {
                r.append("dynamic path `");
                r.append(literal.as_str());
                r.append("` in ");
                r.append(file.as_str());
                r.append(" skipped");
            },
            Warning::OutsideRepo { file, literal } => {
                r.append("`");
                r.append(literal.as_str());
                r.append("` in ");
                r.append(file.as_str());
                r.append(" points outside the repo");
            },
            Warning::Missing { file, literal } => {
                r.append("`");
                r.append(literal.as_str());
                r.append("` in ");
                r.append(file.as_str());
                r.append(" does not exist");
            },
            Warning::Unreadable { file } => {
                r.append("could not read ");
                r.append(file.as_str());
            },
            Warning::UnresolvedModule { name } => {
                r.append("module `");
                r.append(name.as_str());
                r.append("` has no resolvable source, skipped");
            },
            Warning::HostnameExists { hostname } => {
                r.append("host `");
                r.append(hostname.as_str());
                r.append("` already exists in the source config");
            },
            Warning::NoStateVersion => {
                r.append("could not detect nixpkgs release; stateVersion left commented");
            },
            Warning::NoInputs => {
                r.append("no inputs found in source flake.nix; default nixpkgs input generated");
            },
        }
        r
    }
}

/// Whether `file` is one of `files`.
pub open spec fn has_file(files: Seq<String>, file: Seq<char>) -> bool {
    exists|i: int| 0 <= i < files.len() && #[trigger] files[i]@ == file
}

/// No file is listed twice.
pub open spec fn distinct_files(files: Seq<String>) -> bool {
    forall|i: int, j: int| 0 <= i < j < files.len() ==> #[trigger] files[i]@ != #[trigger] files[j]@
}

/// The files of a list, as a set of paths.
pub open spec fn file_set(files: Seq<String>) -> Set<Seq<char>> {
    Set::new(|f: Seq<char>| has_file(files, f))
}

/// Result of a transitive dependency scan.
#[derive(Debug, Default)]
pub struct ScanResult {
    /// Absolute paths of every file to copy, each listed once, in path
    /// order.
    pub files: Vec<String>,
    /// Non-fatal problems encountered while scanning.
    pub warnings: Vec<Warning>,
}

/// Index of `file` in `files`, if present.
fn position_of(files: &Vec<String>, file: &String) -> (r: Option<usize>)
    ensures
        match r {
            Some(i) => i < files@.len() && files@[i as int]@ == file@,
            None => !has_file(files@, file@),
        },
{
    let mut i: usize = 0;
    while i < files.len()
        invariant
            i <= files@.len(),
            forall|j: int| 0 <= j < i ==> files@[j]@ != file@,
        decreases files@.len() - i,
    {
        if files[i].eq(file) {
            return Some(i);
        }
        i = i + 1;
    }
    None
}

impl ScanResult {
    /// Well-formed: each file listed once, in path order.
    pub open spec fn wf(&self) -> bool {
        distinct_files(self.files@) && sorted_paths(self.files@)
    }

    /// Adds `file` at its place in path order unless it is already listed;
    /// returns whether it was new.
    pub fn insert_file(&mut self, file: String) -> (added: bool)
        requires
            old(self).wf(),
        ensures
            final(self).wf(),
            added == !has_file(old(self).files@, file@),
            file_set(final(self).files@) == file_set(old(self).files@).insert(file@),
            final(self).warnings@ == old(self).warnings@,
    {
        if position_of(&self.files, &file).is_some() {
            proof {
                assert(file_set(self.files@) =~= file_set(self.files@).insert(file@));
            }
            return false;
        }
        let mut p: usize = 0;
        while p < self.files.len() && path_le_exec(self.files[p].as_str(), file.as_str())
            invariant
                p <= self.files@.len(),
                forall|j: int| 0 <= j < p ==> path_le(#[trigger] self.files@[j]@, file@),
            decreases self.files@.len() - p,
        {
            p = p + 1;
        }
        let ghost before = self.files@;
        proof {
            if p < before.len() {
                lemma_path_le_total(before[p as int]@, file@, 0);
                assert forall|j: int| p <= j < before.len() implies path_le(
                    file@,
                    #[trigger] before[j]@,
                ) by {
                    if j > p {
                        lemma_path_le_trans(file@, before[p as int]@, before[j]@, 0);
                    }
                }
            }
        }
        let ghost fv = file;
        self.files.insert(p, file);
        proof {
            assert(self.files@ =~= before.take(p as int).push(fv) + before.skip(p as int));
            assert forall|i: int| 0 <= i < self.files@.len() implies #[trigger] self.files@[i]
                == if i < p {
                before[i]
            } else if i == p {
                fv
            } else {
                before[i - 1]
            } by {}
            assert forall|i: int, j: int|
                0 <= i < j < self.files@.len() implies #[trigger] self.files@[i]@
                != #[trigger] self.files@[j]@ && path_le(self.files@[i]@, self.files@[j]@) by {
                if j < p {
                } else if j == p {
                    assert(before[i]@ != fv@);
                } else if i < p {
                    lemma_path_le_trans(before[i]@, fv@, before[j - 1]@, 0);
                } else if i == p {
                    assert(before[j - 1]@ != fv@);
                } else {
                }
            }
            assert forall|f: Seq<char>| has_file(self.files@, f) <==> file_set(before).insert(
                fv@,
            ).contains(f) by {
                if has_file(self.files@, f) {
                    let i = choose|i: int| 0 <= i < self.files@.len() && #[trigger] self.files@[i]@ == f;
                    if i < p {
                        assert(before[i] == self.files@[i]);
                    } else if i > p {
                        assert(before[i - 1] == self.files@[i]);
                    }
                }
                if file_set(before).contains(f) {
                    let i = choose|i: int| 0 <= i < before.len() && #[trigger] before[i]@ == f;
                    if i < p {
                        assert(self.files@[i] == before[i]);
                    } else {
                        assert(self.files@[i + 1] == before[i]);
                    }
                }
                if f == fv@ {
                    assert(self.files@[p as int]@ == f);
                }
            }
            assert(file_set(self.files@) =~= file_set(before).insert(fv@));
        }
        true
    }

    /// Takes `file` out of the list.
    pub fn remove_file(&mut self, file: &String)
        requires
            old(self).wf(),
        ensures
            final(self).wf(),
            file_set(final(self).files@) == file_set(old(self).files@).remove(file@),
            final(self).warnings@ == old(self).warnings@,
    {
        match position_of(&self.files, file) {
            None => {
                proof {
                    assert(file_set(self.files@) =~= file_set(self.files@).remove(file@));
                }
            },
            Some(i) => {
                let ghost before = self.files@;
                self.files.remove(i);
                proof {
                    assert forall|a: int, b: int|
                        0 <= a < b < self.files@.len() implies #[trigger] self.files@[a]@
                        != #[trigger] self.files@[b]@ && path_le(
                        self.files@[a]@,
                        self.files@[b]@,
                    ) by {
                        let a0 = if a < i { a } else { a + 1 };
                        let b0 = if b < i { b } else { b + 1 };
                        assert(self.files@[a] == before[a0]);
                        assert(self.files@[b] == before[b0]);
                    }
                    assert forall|f: Seq<char>| has_file(self.files@, f) <==> file_set(
                        before,
                    ).remove(file@).contains(f) by {
                        if has_file(self.files@, f) {
                            let k = choose|k: int|
                                0 <= k < self.files@.len() && #[trigger] self.files@[k]@ == f;
                            let k0 = if k < i { k } else { k + 1 };
                            assert(self.files@[k] == before[k0]);
                            assert(k0 != i);
                        }
                        if file_set(before).remove(file@).contains(f) {
                            let k = choose|k: int| 0 <= k < before.len() && #[trigger] before[k]@ == f;
                            assert(k != i);
                            let k1 = if k < i { k } else { k - 1 };
                            assert(self.files@[k1] == before[k]);
                        }
                    }
                    assert(file_set(self.files@) =~= file_set(before).remove(file@));
                }
            },
        }
    }
}

/// Where a non-interpolated path literal leads, as found on disk relative to
/// the directory of the file that contains it.
#[derive(Debug, Clone, PartialEq, Eq)]
pub enum Resolution {
    /// The path does not exist.
    Unresolved,
    /// The path exists outside the source repo.
    Outside,
    /// The path is a directory; `entry` is its `default.nix` when that file
    /// exists.
    Directory {
        /// The directory's `default.nix`, if it is a file.
        entry: Option<String>,
    },
    /// The path is a `.nix` file.
    NixFile {
        /// The canonical path of the file.
        target: String,
    },
    /// The path is another kind of file.
    OtherFile {
        /// The canonical path of the file.
        target: String,
    },
}

/// A transitive dependency scan in progress: the `.nix` files left to read
/// and what was found so far.
#[derive(Debug)]
pub struct Scan {
    /// `.nix` files still to read; the last one is read next.
    pub pending: Vec<String>,
    /// Files and warnings found so far.
    pub result: ScanResult,
}

impl Scan {
    /// Well-formed: each found file listed once.
    pub open spec fn wf(&self) -> bool {
        self.result.wf()
    }

    /// A scan seeded with the entry files of the exported modules.
    pub fn new(seeds: Vec<String>) -> (s: Scan)
        ensures
            s.wf(),
            s.pending@ == seeds@,
            s.result.files@.len() == 0,
            s.result.warnings@.len() == 0,
    {
        Scan { pending: seeds, result: ScanResult { files: Vec::new(), warnings: Vec::new() } }
    }

    /// Pops the pending files until one that was not seen yet, records it as
    /// found and returns it; `None` once nothing new is pending.
    pub fn next_file(&mut self) -> (r: Option<String>)
        requires
            old(self).wf(),
        ensures
            final(self).wf(),
            final(self).result.warnings@ == old(self).result.warnings@,
            r is None ==> final(self).pending@.len() == 0,
            r is None ==> file_set(final(self).result.files@) == file_set(old(self).result.files@),
            r is None ==> forall|j: int|
                0 <= j < old(self).pending@.len() ==> #[trigger] file_set(
                    old(self).result.files@,
                ).contains(old(self).pending@[j]@),
            r matches Some(f) ==> {
                &&& final(self).pending@.len() < old(self).pending@.len()
                &&& final(self).pending@ == old(self).pending@.take(final(self).pending@.len() as int)
                &&& old(self).pending@[final(self).pending@.len() as int]@ == f@
                &&& !file_set(old(self).result.files@).contains(f@)
                &&& file_set(final(self).result.files@) == file_set(
                    old(self).result.files@,
                ).insert(f@)
                &&& forall|j: int|
                    final(self).pending@.len() < j < old(self).pending@.len() ==> #[trigger] file_set(
                        old(self).result.files@,
                    ).contains(old(self).pending@[j]@)
            },
    {
        let ghost pending0 = self.pending@;
        let ghost files0 = file_set(self.result.files@);
        while self.pending.len() > 0
            invariant
                self.wf(),
                pending0 == old(self).pending@,
                files0 == file_set(old(self).result.files@),
                self.pending@ == pending0.take(self.pending@.len() as int),
                self.pending@.len() <= pending0.len(),
                file_set(self.result.files@) == files0,
                self.result.warnings@ == old(self).result.warnings@,
                forall|j: int|
                    self.pending@.len() <= j < pending0.len() ==> #[trigger] files0.contains(pending0[j]@),
            decreases self.pending@.len(),
        {
            let file = self.pending.pop().unwrap();
            let ghost k = self.pending@.len();
            assert(pending0[k as int] == file);
            assert(self.pending@ =~= pending0.take(k as int));
            let copy = file.clone();
            let ghost files_before = self.result.files@;
            if self.result.insert_file(copy) {
                assert(!has_file(files_before, file@));
                assert(!files0.contains(file@));
                assert(file_set(self.result.files@) == files0.insert(file@));
                return Some(file);
            }
            assert(has_file(files_before, file@));
            assert(files0.contains(pending0[k as int]@));
        }
        None
    }

    /// Records that a pending file could not be read: it is no longer a found
    /// file and an `Unreadable` warning names it.
    pub fn unreadable(&mut self, file: String)
        requires
            old(self).wf(),
        ensures
            final(self).wf(),
            final(self).pending@ == old(self).pending@,
            file_set(final(self).result.files@) == file_set(old(self).result.files@).remove(
                file@,
            ),
            final(self).result.warnings@ == old(self).result.warnings@.push(
                Warning::Unreadable { file },
            ),
    {
        self.result.remove_file(&file);
        self.result.warnings.push(Warning::Unreadable { file });
    }

    /// Follows one path literal found in `file`: interpolated literals and
    /// unresolvable, outside or entry-less targets become warnings, `.nix`
    /// targets and directory entries are queued, other files are recorded.
    pub fn follow(&mut self, file: &String, literal: PathLiteral, resolution: Resolution)
        requires
            old(self).wf(),
        ensures
            final(self).wf(),
            literal.dynamic ==> {
                &&& final(self).pending@ == old(self).pending@
                &&& final(self).result.files@ == old(self).result.files@
                &&& final(self).result.warnings@ == old(self).result.warnings@.push(
                    Warning::Dynamic { file: *file, literal: literal.text },
                )
            },
            !literal.dynamic ==> match resolution {
                Resolution::Unresolved => {
                    &&& final(self).pending@ == old(self).pending@
                    &&& final(self).result.files@ == old(self).result.files@
                    &&& final(self).result.warnings@ == old(self).result.warnings@.push(
                        Warning::Missing { file: *file, literal: literal.text },
                    )
                },
                Resolution::Outside => {
                    &&& final(self).pending@ == old(self).pending@
                    &&& final(self).result.files@ == old(self).result.files@
                    &&& final(self).result.warnings@ == old(self).result.warnings@.push(
                        Warning::OutsideRepo { file: *file, literal: literal.text },
                    )
                },
                Resolution::Directory { entry: Some(entry) } => {
                    &&& final(self).pending@ == old(self).pending@.push(entry)
                    &&& final(self).result.files@ == old(self).result.files@
                    &&& final(self).result.warnings@ == old(self).result.warnings@
                },
                Resolution::Directory { entry: None } => {
                    &&& final(self).pending@ == old(self).pending@
                    &&& final(self).result.files@ == old(self).result.files@
                    &&& final(self).result.warnings@.len() == old(self).result.warnings@.len() + 1
                    &&& final(self).result.warnings@.drop_last() == old(self).result.warnings@
                    &&& final(self).result.warnings@.last() matches Warning::Missing { file: f, literal: l }
                        && f == *file && l@ == literal.text@ + "/default.nix"@
                },
                Resolution::NixFile { target } => {
                    &&& final(self).pending@ == old(self).pending@.push(target)
                    &&& final(self).result.files@ == old(self).result.files@
                    &&& final(self).result.warnings@ == old(self).result.warnings@
                },
                Resolution::OtherFile { target } => {
                    &&& final(self).pending@ == old(self).pending@
                    &&& file_set(final(self).result.files@) == file_set(
                        old(self).result.files@,
                    ).insert(target@)
                    &&& final(self).result.warnings@ == old(self).result.warnings@
                },
            },
    {
        if literal.dynamic {
            self.result.warnings.push(Warning::Dynamic { file: file.clone(), literal: literal.text });
            return;
        }
        match resolution {
            Resolution::Unresolved => {
                self.result.warnings.push(Warning::Missing { file: file.clone(), literal: literal.text });
            },
            Resolution::Outside => {
                self.result.warnings.push(
                    Warning::OutsideRepo { file: file.clone(), literal: literal.text },
                );
            },
            Resolution::Directory { entry: Some(entry) } => {
                self.pending.push(entry);
            },
            Resolution::Directory { entry: None } => {
                let mut text = literal.text;
                text.append("/default.nix");
                self.result.warnings.push(Warning::Missing { file: file.clone(), literal: text });
            },
            Resolution::NixFile { target } => {
                self.pending.push(target);
            },
            Resolution::OtherFile { target } => {
                self.result.insert_file(target);
            },
        }
    }
}

} // verus!

verus! {

/// Where a path literal found in `file` points, before it is looked up:
/// the literal joined to the directory of `file` (to `root` when `file` has
/// no parent).
pub open spec fn spec_literal_target(root: Seq<char>, file: Seq<char>, text: Seq<char>) -> Seq<
    char,
> {
    let dir = match spec_parent(file) {
        Some(d) => d,
        None => root,
    };
    spec_join_path(dir, text)
}

/// Where a path literal found in `file` points, before it is looked up.
pub fn literal_target(root: &str, file: &str, text: &str) -> (r: String)
    ensures
        r@ == spec_literal_target(root@, file@, text@),
{
    match parent_dir(file) {
        Some(dir) => join_path(dir.as_str(), text),
        None => join_path(root, text),
    }
}

/// The `default.nix` entry of a directory.
pub open spec fn spec_directory_entry(dir: Seq<char>) -> Seq<char> {
    spec_join_path(dir, "default.nix"@)
}

/// The `default.nix` entry of a directory.
pub fn directory_entry(dir: &str) -> (r: String)
    ensures
        r@ == spec_directory_entry(dir@),
{
    join_path(dir, "default.nix")
}

/// A resolution with its paths as character sequences.
pub enum ResolutionView {
    /// The path does not exist.
    Unresolved,
    /// The path exists outside the source repo.
    Outside,
    /// A directory and its `default.nix`, when that is a file.
    Directory(Option<Seq<char>>),
    /// A `.nix` file.
    NixFile(Seq<char>),
    /// Another kind of file.
    OtherFile(Seq<char>),
}

impl View for Resolution {
    type V = ResolutionView;

    open spec fn view(&self) -> ResolutionView {
        match self {
            Resolution::Unresolved => ResolutionView::Unresolved,
            Resolution::Outside => ResolutionView::Outside,
            Resolution::Directory { entry } => ResolutionView::Directory(
                match entry {
                    Some(e) => Some(e@),
                    None => None,
                },
            ),
            Resolution::NixFile { target } => ResolutionView::NixFile(target@),
            Resolution::OtherFile { target } => ResolutionView::OtherFile(target@),
        }
    }
}

/// How the scan treats a looked-up literal target: `target` is its
/// canonical path when it exists, `is_dir` whether it is a directory and
/// `entry_is_file` whether that directory's `default.nix` is a file.
pub open spec fn spec_resolve_target(
    root: Seq<char>,
    target: Option<Seq<char>>,
    is_dir: bool,
    entry_is_file: bool,
) -> ResolutionView {
    match target {
        None => ResolutionView::Unresolved,
        Some(t) => if spec_relative_to(root, t) is None {
            ResolutionView::Outside
        } else if is_dir {
            ResolutionView::Directory(
                if entry_is_file {
                    Some(spec_directory_entry(t))
                } else {
                    None
                },
            )
        } else if spec_has_nix_extension(t) {
            ResolutionView::NixFile(t)
        } else {
            ResolutionView::OtherFile(t)
        },
    }
}

/// Classifies a looked-up literal target: missing, outside the source
/// tree, a directory (with its `default.nix` entry when that is a file), a
/// `.nix` file or another file.
pub fn resolve_target(root: &str, target: Option<String>, is_dir: bool, entry_is_file: bool) -> (r:
    Resolution)
    ensures
        r@ == spec_resolve_target(
            root@,
            match target {
                Some(t) => Some(t@),
                None => None,
            },
            is_dir,
            entry_is_file,
        ),
{
    match target {
        None => Resolution::Unresolved,
        Some(t) => {
            if relative_to(root, t.as_str()).is_none() {
                Resolution::Outside
            } else if is_dir {
                if entry_is_file {
                    Resolution::Directory { entry: Some(directory_entry(t.as_str())) }
                } else {
                    Resolution::Directory { entry: None }
                }
            } else if has_nix_extension(t.as_str()) {
                Resolution::NixFile { target: t }
            } else {
                Resolution::OtherFile { target: t }
            }
        },
    }
}

} // verus!
