//! Text of the files generated for a trimmed host config.

use vstd::prelude::*;

use crate::text::{
    chars_of, contains, contains_exec, find_from, find_from_exec, is_alphanumeric, is_whitespace,
    join, join_strings, push_char, string_of_range, to_uppercase, unicode_alphanumeric,
    unicode_uppercase, unicode_whitespace,
};

verus! {

/// The word that opens an input declaration.
pub open spec fn inputs_word() -> Seq<char> {
    seq!['i', 'n', 'p', 'u', 't', 's']
}

/// Separator placed between lifted declarations.
pub open spec fn inputs_separator() -> Seq<char> {
    seq!['\n', ' ', ' ']
}

/// Characters that glue a preceding token to `inputs` (`my_inputs`,
/// `self.inputs`, `@inputs`), so that it is not a declaration.
pub open spec fn glues_to_word(c: char) -> bool {
    unicode_alphanumeric(c) || c == '_' || c == '.' || c == '@'
}

/// Characters of a dotted attribute path such as `.nixpkgs.url` or
/// `."home-manager"`.
pub open spec fn attr_path_char(c: char) -> bool {
    c == '.' || c == '-' || c == '_' || c == '"' || unicode_alphanumeric(c)
}

/// First index at or after `k` that is not part of an attribute path.
pub open spec fn skip_attr_path(s: Seq<char>, k: int) -> int
    decreases s.len() - k,
{
    if k < 0 || k >= s.len() || !attr_path_char(s[k]) {
        k
    } else {
        skip_attr_path(s, k + 1)
    }
}

/// First index at or after `k` that is not white space.
pub open spec fn skip_whitespace(s: Seq<char>, k: int) -> int
    decreases s.len() - k,
{
    if k < 0 || k >= s.len() || !unicode_whitespace(s[k]) {
        k
    } else {
        skip_whitespace(s, k + 1)
    }
}

/// Whether the word `inputs` ending at `after` starts a declaration: an `=`
/// follows, after the attribute path in the dotted form.
pub open spec fn is_declaration(s: Seq<char>, after: int) -> bool {
    let k = if after < s.len() && s[after] == '.' {
        skip_attr_path(s, after)
    } else {
        after
    };
    let j = skip_whitespace(s, k);
    j < s.len() && s[j] == '='
}

/// Whether the occurrence of `inputs` at `start` stands on its own.
pub open spec fn free_before(s: Seq<char>, start: int) -> bool {
    start == 0 || !glues_to_word(s[start - 1])
}

/// Scanning from `j` with brace depth `depth`, the index just past the first
/// `;` met at depth zero (a `}` at depth zero leaves the depth at zero).
pub open spec fn statement_end(s: Seq<char>, j: int, depth: nat) -> Option<int>
    decreases s.len() - j,
{
    if j < 0 || j >= s.len() {
        None
    } else if s[j] == '{' {
        statement_end(s, j + 1, depth + 1)
    } else if s[j] == '}' {
        statement_end(s, j + 1, if depth == 0 { 0 } else { (depth - 1) as nat })
    } else if s[j] == ';' && depth == 0 {
        Some(j + 1)
    } else {
        statement_end(s, j + 1, depth)
    }
}

/// Positions found by `find_from` lie inside the text.
pub proof fn lemma_find_from_bounds(s: Seq<char>, pat: Seq<char>, i: int)
    ensures
        find_from(s, pat, i) matches Some(k) ==> i <= k && k + pat.len() <= s.len() && crate::text::occurs_at(
            s,
            pat,
            k,
        ),
    decreases s.len() - i,
{
    if i < 0 || i + pat.len() > s.len() {
    } else if crate::text::occurs_at(s, pat, i) {
    } else if i >= s.len() {
    } else {
        lemma_find_from_bounds(s, pat, i + 1);
    }
}

/// A statement end lies past the scan start and inside the text.
pub proof fn lemma_statement_end_bounds(s: Seq<char>, j: int, depth: nat)
    ensures
        statement_end(s, j, depth) matches Some(e) ==> j < e <= s.len() && s[e - 1] == ';',
    decreases s.len() - j,
{
    if j < 0 || j >= s.len() {
    } else if s[j] == '{' {
        lemma_statement_end_bounds(s, j + 1, depth + 1);
    } else if s[j] == '}' {
        lemma_statement_end_bounds(s, j + 1, if depth == 0 { 0 } else { (depth - 1) as nat });
    } else if s[j] == ';' && depth == 0 {
    } else {
        lemma_statement_end_bounds(s, j + 1, depth);
    }
}

/// The top-level input declarations of `s` found at or after `i`, in order;
/// the search stops at a declaration that is never closed by a `;`, keeping
/// those found before it.
pub open spec fn declarations_from(s: Seq<char>, i: int) -> Seq<Seq<char>>
    decreases s.len() - i,
{
    if i < 0 || i > s.len() {
        Seq::empty()
    } else {
        match find_from(s, inputs_word(), i) {
            None => Seq::empty(),
            Some(start) => {
                proof {
                    lemma_find_from_bounds(s, inputs_word(), i);
                }
                let after = start + 6;
                if !(free_before(s, start) && is_declaration(s, after)) {
                    declarations_from(s, after)
                } else {
                    match statement_end(s, start, 0) {
                        None => Seq::empty(),
                        Some(end) => {
                            proof {
                                lemma_statement_end_bounds(s, start, 0);
                            }
                            seq![s.subrange(start, end)] + declarations_from(s, end)
                        },
                    }
                }
            },
        }
    }
}

/// Every lifted declaration is a piece of the text at or after `i` that
/// opens with the word `inputs` and closes with a `;`.
pub proof fn lemma_declarations_shape(s: Seq<char>, i: int)
    requires
        0 <= i,
    ensures
        forall|k: int|
            #![trigger declarations_from(s, i)[k]]
            0 <= k < declarations_from(s, i).len() ==> {
                &&& exists|a: int, b: int|
                    i <= a < b <= s.len() && declarations_from(s, i)[k] == #[trigger] s.subrange(a, b)
                &&& declarations_from(s, i)[k].len() > 6
                &&& declarations_from(s, i)[k].take(6) == inputs_word()
                &&& declarations_from(s, i)[k].last() == ';'
            },
    decreases s.len() - i,
{
    let d = declarations_from(s, i);
    if i > s.len() {
    } else {
        lemma_find_from_bounds(s, inputs_word(), i);
        match find_from(s, inputs_word(), i) {
            None => {},
            Some(start) => {
                let after = start + 6;
                if !(free_before(s, start) && is_declaration(s, after)) {
                    lemma_declarations_shape(s, after);
                    let rest = declarations_from(s, after);
                    assert(d == rest);
                    assert forall|k: int| #![trigger d[k]] 0 <= k < d.len() implies exists|a: int, b: int|
                        i <= a < b <= s.len() && d[k] == #[trigger] s.subrange(a, b) by {
                        assert(d[k] == rest[k]);
                        let (a, b) = choose|a: int, b: int|
                            after <= a < b <= s.len() && d[k] == #[trigger] s.subrange(a, b);
                        assert(i <= a < b <= s.len() && d[k] == s.subrange(a, b));
                    }
                } else {
                    lemma_statement_end_bounds(s, start, 0);
                    match statement_end(s, start, 0) {
                        None => {},
                        Some(end) => {
                            lemma_declarations_shape(s, end);
                            let rest = declarations_from(s, end);
                            let first = s.subrange(start, end);
                            assert(d == seq![first] + rest);
                            assert(s.subrange(start, start + 6) == inputs_word());
                            assert(end > after) by {
                                assert(s[after - 1] == 's');
                                if end <= after {
                                    assert(s[end - 1] == s.subrange(start, start + 6)[end - 1 - start]);
                                }
                            }
                            assert(first.take(6) =~= inputs_word());
                            assert forall|k: int| #![trigger d[k]] 0 <= k < d.len() implies exists|a: int, b: int|
                                i <= a < b <= s.len() && d[k] == #[trigger] s.subrange(a, b) by {
                                if k == 0 {
                                    assert(d[0] == s.subrange(start, end));
                                } else {
                                    assert(d[k] == rest[k - 1]);
                                    let (a, b) = choose|a: int, b: int|
                                        end <= a < b <= s.len() && rest[k - 1] == #[trigger] s.subrange(a, b);
                                    assert(i <= a < b <= s.len() && d[k] == s.subrange(a, b));
                                }
                            }
                            assert forall|k: int| 0 < k < d.len() implies d[k] == rest[k - 1] by {}
                        },
                    }
                }
            },
        }
    }
}

/// Joined pieces open with the first piece's opening and close with the
/// last piece's closing.
proof fn lemma_join_ends(list: Seq<Seq<char>>, sep: Seq<char>)
    requires
        list.len() > 0,
        forall|k: int| 0 <= k < list.len() ==> #[trigger] list[k].len() > 6,
    ensures
        join(list, sep).take(6) == list[0].take(6),
        join(list, sep).len() > 6,
        join(list, sep).last() == list.last().last(),
    decreases list.len(),
{
    if list.len() > 1 {
        let init = list.drop_last();
        assert(init[0] == list[0]);
        assert forall|k: int| 0 <= k < init.len() implies #[trigger] init[k].len() > 6 by {
            assert(init[k] == list[k]);
        }
        lemma_join_ends(init, sep);
        let j = join(init, sep) + sep + list.last();
        assert(join(list, sep) == j);
        assert(j.take(6) =~= join(init, sep).take(6));
    }
}

/// Brace depth after reading `s[a..j]`: `{` opens a level, `}` closes one
/// (never below zero).
pub open spec fn brace_depth(s: Seq<char>, a: int, j: int) -> nat
    decreases j - a,
{
    if j <= a {
        0
    } else {
        let d = brace_depth(s, a, j - 1);
        if s[j - 1] == '{' {
            d + 1
        } else if s[j - 1] == '}' {
            if d == 0 {
                0
            } else {
                (d - 1) as nat
            }
        } else {
            d
        }
    }
}

/// A declaration occupies `s[a..b]`: it opens with `inputs`, closes with
/// `;`, and every earlier `;` in it lies inside braces opened within it.
pub open spec fn declaration_at(s: Seq<char>, a: int, b: int) -> bool {
    &&& 0 <= a
    &&& a + 6 < b <= s.len()
    &&& s.subrange(a, a + 6) == inputs_word()
    &&& s[b - 1] == ';'
    &&& forall|m: int| a <= m < b - 1 && s[m] == ';' ==> #[trigger] brace_depth(s, a, m) > 0
}

/// `p` is a declaration of `s` that starts at or after `lo`.
pub open spec fn lies_within(s: Seq<char>, p: Seq<char>, lo: int) -> bool {
    exists|a: int, b: int| lo <= a && #[trigger] declaration_at(s, a, b) && p == s.subrange(a, b)
}

/// The `k`-th of the declarations `d` is a declaration of `s` starting at or
/// after `lo`, and every later one lies after it.
pub open spec fn placed(s: Seq<char>, d: Seq<Seq<char>>, k: int, lo: int) -> bool {
    exists|a: int, b: int|
        lo <= a && #[trigger] declaration_at(s, a, b) && d[k] == s.subrange(a, b) && forall|q: int|
            k < q < d.len() ==> #[trigger] lies_within(s, d[q], b)
}

/// Where a statement scanned from `start` ends, no `;` before its last
/// character lies at brace depth zero.
proof fn lemma_statement_end_braces(s: Seq<char>, start: int, j: int)
    requires
        0 <= start <= j,
        statement_end(s, start, 0) == statement_end(s, j, brace_depth(s, start, j)),
        forall|m: int| start <= m < j && s[m] == ';' ==> #[trigger] brace_depth(s, start, m) > 0,
    ensures
        statement_end(s, start, 0) matches Some(e) ==> forall|m: int|
            start <= m < e - 1 && s[m] == ';' ==> #[trigger] brace_depth(s, start, m) > 0,
    decreases s.len() - j,
{
    if j < s.len() {
        let d = brace_depth(s, start, j);
        assert(brace_depth(s, start, j + 1) == if s[j] == '{' {
            d + 1
        } else if s[j] == '}' {
            if d == 0 { 0 } else { (d - 1) as nat }
        } else {
            d
        });
        if s[j] == ';' && d == 0 {
        } else {
            lemma_statement_end_braces(s, start, j + 1);
        }
    }
}

/// The declarations found at or after `i` come in order: each is a
/// declaration of `s` (opening with `inputs`, closing with `;`, with every
/// earlier `;` inside its own braces), and each later one starts after it
/// ends, so their ranges are disjoint and increasing.
pub proof fn lemma_declarations_ordered(s: Seq<char>, i: int)
    requires
        0 <= i,
    ensures
        forall|k: int|
            0 <= k < declarations_from(s, i).len() ==> #[trigger] placed(
                s,
                declarations_from(s, i),
                k,
                i,
            ),
    decreases s.len() - i,
{
    let d = declarations_from(s, i);
    if i > s.len() {
    } else {
        lemma_find_from_bounds(s, inputs_word(), i);
        match find_from(s, inputs_word(), i) {
            None => {},
            Some(start) => {
                let after = start + 6;
                if !(free_before(s, start) && is_declaration(s, after)) {
                    lemma_declarations_ordered(s, after);
                    assert(d == declarations_from(s, after));
                    assert forall|k: int| 0 <= k < d.len() implies #[trigger] placed(s, d, k, i) by {
                        assert(placed(s, d, k, after));
                        let (a, b) = choose|a: int, b: int|
                            after <= a && #[trigger] declaration_at(s, a, b) && d[k] == s.subrange(a, b)
                                && forall|q: int| k < q < d.len() ==> #[trigger] lies_within(s, d[q], b);
                        assert(i <= a);
                    }
                } else {
                    lemma_statement_end_bounds(s, start, 0);
                    lemma_statement_end_braces(s, start, start);
                    match statement_end(s, start, 0) {
                        None => {},
                        Some(end) => {
                            lemma_declarations_ordered(s, end);
                            let rest = declarations_from(s, end);
                            assert(d == seq![s.subrange(start, end)] + rest);
                            assert(s.subrange(start, start + 6) == inputs_word());
                            assert(end > after) by {
                                assert(s[after - 1] == 's');
                                if end <= after {
                                    assert(s[end - 1] == s.subrange(start, start + 6)[end - 1 - start]);
                                }
                            }
                            assert(declaration_at(s, start, end));
                            assert forall|q: int| 0 < q < d.len() implies #[trigger] lies_within(
                                s,
                                d[q],
                                end,
                            ) by {
                                assert(d[q] == rest[q - 1]);
                                assert(placed(s, rest, q - 1, end));
                                let (a, b) = choose|a: int, b: int|
                                    end <= a && #[trigger] declaration_at(s, a, b) && rest[q - 1]
                                        == s.subrange(a, b) && forall|r: int|
                                        q - 1 < r < rest.len() ==> #[trigger] lies_within(s, rest[r], b);
                                assert(end <= a && declaration_at(s, a, b) && d[q] == s.subrange(a, b));
                            }
                            assert(placed(s, d, 0, i));
                            assert forall|k: int| 0 <= k < d.len() implies #[trigger] placed(s, d, k, i) by {
                                if k > 0 {
                                    assert(placed(s, rest, k - 1, end));
                                    let (a, b) = choose|a: int, b: int|
                                        end <= a && #[trigger] declaration_at(s, a, b) && rest[k - 1]
                                            == s.subrange(a, b) && forall|r: int|
                                            k - 1 < r < rest.len() ==> #[trigger] lies_within(
                                                s,
                                                rest[r],
                                                b,
                                            );
                                    assert forall|q: int| k < q < d.len() implies #[trigger] lies_within(
                                        s,
                                        d[q],
                                        b,
                                    ) by {
                                        assert(d[q] == rest[q - 1]);
                                        assert(lies_within(s, rest[q - 1], b));
                                    }
                                    assert(d[k] == rest[k - 1]);
                                    assert(i <= a);
                                }
                            }
                        },
                    }
                }
            },
        }
    }
}

/// What `extract_inputs` returns: the complete top-level declarations
/// joined by a newline and two spaces, or `None` when there are none.
pub open spec fn spec_extract_inputs(s: Seq<char>) -> Option<Seq<char>> {
    let found = declarations_from(s, 0);
    if found.len() == 0 {
        None
    } else {
        Some(join(found, inputs_separator()))
    }
}

/// Index just past the attribute path starting at `k`.
fn skip_attr_path_exec(v: &[char], k: usize) -> (r: usize)
    requires
        k <= v@.len(),
    ensures
        r as int == skip_attr_path(v@, k as int),
        k <= r <= v@.len(),
    decreases v@.len() - k,
{
    if k >= v.len() {
        return k;
    }
    let c = v[k];
    if c == '.' || c == '-' || c == '_' || c == '"' || is_alphanumeric(c) {
        skip_attr_path_exec(v, k + 1)
    } else {
        k
    }
}

/// Index of the first non-white-space character at or after `k`.
fn skip_whitespace_exec(v: &[char], k: usize) -> (r: usize)
    requires
        k <= v@.len(),
    ensures
        r as int == skip_whitespace(v@, k as int),
        k <= r <= v@.len(),
    decreases v@.len() - k,
{
    if k >= v.len() {
        return k;
    }
    if is_whitespace(v[k]) {
        skip_whitespace_exec(v, k + 1)
    } else {
        k
    }
}

/// Index just past the statement starting at `start`, if it is closed.
fn statement_end_exec(v: &[char], start: usize) -> (r: Option<usize>)
    requires
        start <= v@.len(),
    ensures
        r matches Some(e) ==> statement_end(v@, start as int, 0) == Some(e as int),
        r is None ==> statement_end(v@, start as int, 0) is None,
{
    let mut depth: usize = 0;
    let mut j: usize = start;
    while j < v.len()
        invariant
            start <= j <= v@.len(),
            depth <= j,
            statement_end(v@, start as int, 0) == statement_end(v@, j as int, depth as nat),
        decreases v@.len() - j,
    {
        let c = v[j];
        if c == '{' {
            depth = depth + 1;
        } else if c == '}' {
            if depth > 0 {
                depth = depth - 1;
            }
        } else if c == ';' && depth == 0 {
            return Some(j + 1);
        }
        j = j + 1;
    }
    None
}

/// Lifts every top-level `inputs …;` declaration from flake.nix source.
///
/// An occurrence of `inputs` counts when no word character, `.` or `@` is
/// glued before it and an `=` follows it (after the attribute path in the
/// dotted form `inputs.foo.url = …`, which rules out usages such as
/// `inputs.flake-parts.lib.mkFlake { … }`). The declaration runs to the
/// first `;` outside braces. Brace-depth tracking ignores braces inside
/// strings. A declaration that is never closed ends the search; the
/// complete ones found before it are kept. Returns `None` when nothing is
/// found.
pub fn extract_inputs(src: &str) -> (r: Option<String>)
    ensures
        r is None <==> spec_extract_inputs(src@) is None,
        r matches Some(text) ==> spec_extract_inputs(src@) == Some(text@),
        r matches Some(text) ==> text@.take(6) == inputs_word() && text@.last() == ';',
{
    proof {
        let found = declarations_from(src@, 0);
        lemma_declarations_shape(src@, 0);
        if found.len() > 0 {
            assert forall|k: int| 0 <= k < found.len() implies #[trigger] found[k].len() > 6 by {}
            lemma_join_ends(found, inputs_separator());
            assert(found[0].take(6) == inputs_word());
            assert(found.last() == found[found.len() - 1]);
        }
    }
    let v = chars_of(src);
    let word: Vec<char> = vec!['i', 'n', 'p', 'u', 't', 's'];
    assert(word@ =~= inputs_word());
    let mut found: Vec<String> = Vec::new();
    let mut i: usize = 0;
    let mut done = false;
    let n = v.len();
    while !done
        invariant
            v@ == src@,
            n == v@.len(),
            word@ == inputs_word(),
            i <= v@.len(),
            !done ==> declarations_from(v@, 0) == found@.map_values(|p: String| p@)
                + declarations_from(v@, i as int),
            done ==> declarations_from(v@, 0) == found@.map_values(|p: String| p@),
        decreases v@.len() + 1 - i - (if done { 1int } else { 0int }),
    {
        let ghost before = found@.map_values(|p: String| p@);
        let start = match find_from_exec(&v, &word, i) {
            None => {
                assert(before + Seq::<Seq<char>>::empty() =~= before);
                i = v.len();
                done = true;
                continue;
            },
            Some(start) => start,
        };
        proof {
            lemma_find_from_bounds(v@, inputs_word(), i as int);
        }
        assert(start + 6 <= n);
        let after = start + 6;
        let free = start == 0 || {
            let c = v[start - 1];
            !(is_alphanumeric(c) || c == '_' || c == '.' || c == '@')
        };
        let declaration = if free {
            let k = if after < v.len() && v[after] == '.' {
                skip_attr_path_exec(&v, after)
            } else {
                after
            };
            let j = skip_whitespace_exec(&v, k);
            j < v.len() && v[j] == '='
        } else {
            false
        };
        if !declaration {
            i = after;
            continue;
        }
        match statement_end_exec(&v, start) {
            None => {
                assert(before + Seq::<Seq<char>>::empty() =~= before);
                done = true;
            },
            Some(end) => {
                proof {
                    lemma_statement_end_bounds(v@, start as int, 0);
                }
                let piece = string_of_range(&v, start, end);
                let ghost piece_view = piece@;
                found.push(piece);
                proof {
                    let now = found@.map_values(|p: String| p@);
                    assert(now =~= before.push(piece_view));
                    let r = declarations_from(v@, end as int);
                    assert(before + (seq![piece_view] + r) =~= now + r);
                }
                i = end;
            },
        }
    }
    if found.len() == 0 {
        None
    } else {
        proof {
            reveal_strlit("\n  ");
        }
        assert("\n  "@ =~= inputs_separator());
        let joined = join_strings(&found, "\n  ");
        Some(joined)
    }
}

/// `s` with its first character uppercased, matching the source config's
/// `config<Hostname>` attribute naming.
pub open spec fn spec_capitalize(s: Seq<char>) -> Seq<char> {
    if s.len() == 0 {
        Seq::empty()
    } else {
        unicode_uppercase(s[0]) + s.drop_first()
    }
}

/// The uppercase letter of an ASCII lowercase letter; any other character
/// unchanged.
pub open spec fn ascii_uppercase(c: char) -> char {
    if 'a' <= c && c <= 'z' {
        ((c as u32) - 32) as char
    } else {
        c
    }
}

/// Uppercases the first character, matching the source config's
/// `config<Hostname>` attribute naming.
pub fn capitalize(s: &str) -> (r: String)
    ensures
        r@ == spec_capitalize(s@),
        s@.len() > 0 && (s@[0] as u32) < 128 ==> r@ == seq![ascii_uppercase(s@[0])] + s@.drop_first(),
{
    let v = chars_of(s);
    if v.len() == 0 {
        return String::new();
    }
    let mut r = to_uppercase(v[0]);
    let mut i: usize = 1;
    while i < v.len()
        invariant
            1 <= i <= v@.len(),
            v@ == s@,
            r@ == unicode_uppercase(v@[0]) + v@.subrange(1, i as int),
        decreases v@.len() - i,
    {
        push_char(&mut r, v[i]);
        i = i + 1;
        assert(r@ =~= unicode_uppercase(v@[0]) + v@.subrange(1, i as int));
    }
    assert(v@.subrange(1, v@.len() as int) =~= v@.drop_first());
    r
}

/// `inputs` completed with the flake-parts and import-tree inputs that the
/// generated outputs need, each added only when its name is absent.
pub open spec fn with_machinery_inputs(inputs: Seq<char>) -> Seq<char> {
    let a = if contains(inputs, "flake-parts"@) {
        inputs
    } else {
        inputs + "\n  inputs.flake-parts.url = \"github:hercules-ci/flake-parts\";"@
    };
    if contains(a, "import-tree"@) {
        a
    } else {
        a + "\n  inputs.import-tree.url = \"github:vic/import-tree\";"@
    }
}

/// A pattern occurring at `i` is found by a search from any `j <= i`.
pub proof fn lemma_occurrence_found(s: Seq<char>, pat: Seq<char>, j: int, i: int)
    requires
        0 <= j <= i,
        crate::text::occurs_at(s, pat, i),
    ensures
        find_from(s, pat, j) is Some,
    decreases i - j,
{
    if crate::text::occurs_at(s, pat, j) {
    } else if j >= s.len() {
        assert(s.subrange(j, j + pat.len()) =~= pat);
    } else {
        lemma_occurrence_found(s, pat, j + 1, i);
    }
}

/// A pattern found in `a` is found in `a + b`, and one occurring in `b` at
/// `k` is found in `a + b`.
proof fn lemma_contains_concat(a: Seq<char>, b: Seq<char>, pat: Seq<char>, k: int)
    ensures
        contains(a, pat) ==> contains(a + b, pat),
        crate::text::occurs_at(b, pat, k) ==> contains(a + b, pat),
{
    if contains(a, pat) {
        lemma_find_from_bounds(a, pat, 0);
        let i = find_from(a, pat, 0).unwrap();
        assert((a + b).subrange(i, i + pat.len()) =~= a.subrange(i, i + pat.len()));
        lemma_occurrence_found(a + b, pat, 0, i);
    }
    if crate::text::occurs_at(b, pat, k) {
        let i = a.len() + k;
        assert((a + b).subrange(i, i + pat.len()) =~= b.subrange(k, k + pat.len()));
        lemma_occurrence_found(a + b, pat, 0, i);
    }
}

/// The lifted inputs are kept as they are, and what follows them declares
/// `flake-parts` and `import-tree` whenever the lifted inputs did not.
pub proof fn lemma_machinery_inputs(inputs: Seq<char>)
    ensures
        with_machinery_inputs(inputs).len() >= inputs.len(),
        with_machinery_inputs(inputs).take(inputs.len() as int) == inputs,
        contains(with_machinery_inputs(inputs), "flake-parts"@),
        contains(with_machinery_inputs(inputs), "import-tree"@),
{
    let l1 = "\n  inputs.flake-parts.url = \"github:hercules-ci/flake-parts\";"@;
    let l2 = "\n  inputs.import-tree.url = \"github:vic/import-tree\";"@;
    reveal_strlit("\n  inputs.flake-parts.url = \"github:hercules-ci/flake-parts\";");
    reveal_strlit("\n  inputs.import-tree.url = \"github:vic/import-tree\";");
    reveal_strlit("flake-parts");
    reveal_strlit("import-tree");
    let a = if contains(inputs, "flake-parts"@) {
        inputs
    } else {
        inputs + l1
    };
    assert(l1.subrange(10, 21) =~= "flake-parts"@);
    assert(l2.subrange(10, 21) =~= "import-tree"@);
    lemma_contains_concat(inputs, l1, "flake-parts"@, 10);
    assert(contains(a, "flake-parts"@));
    assert(a.take(inputs.len() as int) =~= inputs);
    lemma_contains_concat(a, l2, "flake-parts"@, 10);
    lemma_contains_concat(a, l2, "import-tree"@, 10);
    let r = with_machinery_inputs(inputs);
    assert(r.take(inputs.len() as int) =~= a.take(inputs.len() as int));
}

/// What `flake_nix` generates.
pub open spec fn spec_flake_nix(inputs: Seq<char>, hostname: Seq<char>, source: Seq<char>) -> Seq<
    char,
> {
    "{\n  description = \""@ + hostname + " — trimmed from "@ + source + " by flamingo\";\n\n  "@
        + with_machinery_inputs(inputs)
        + "\n\n  outputs = inputs: inputs.flake-parts.lib.mkFlake { inherit inputs; } (inputs.import-tree ./modules);\n}\n"@
}

/// Generates the new config's flake.nix.
///
/// The output mirrors the source's flake-parts shape: modules (including the
/// generated host) are auto-imported from ./modules, so files copied verbatim
/// keep evaluating at flake level exactly as they did in the source config.
pub fn flake_nix(inputs: &str, hostname: &str, source: &str) -> (r: String)
    ensures
        r@ == spec_flake_nix(inputs@, hostname@, source@),
{
    let mut lifted = inputs.to_owned();
    let lifted_chars = chars_of(inputs);
    let flake_parts = chars_of("flake-parts");
    if !contains_exec(&lifted_chars, &flake_parts) {
        lifted.append("\n  inputs.flake-parts.url = \"github:hercules-ci/flake-parts\";");
    }
    let lifted_chars = chars_of(lifted.as_str());
    let import_tree = chars_of("import-tree");
    if !contains_exec(&lifted_chars, &import_tree) {
        lifted.append("\n  inputs.import-tree.url = \"github:vic/import-tree\";");
    }
    let mut r = String::new();
    r.append("{\n  description = \"");
    r.append(hostname);
    r.append(" — trimmed from ");
    r.append(source);
    r.append(" by flamingo\";\n\n  ");
    r.append(lifted.as_str());
    r.append(
        "\n\n  outputs = inputs: inputs.flake-parts.lib.mkFlake { inherit inputs; } (inputs.import-tree ./modules);\n}\n",
    );
    r
}

/// The import line wiring one selected module.
pub open spec fn import_line(name: Seq<char>) -> Seq<char> {
    "      self.nixosModules."@ + name
}

/// The stateVersion line: set when the release is known, else a comment.
pub open spec fn state_version_line(state_version: Option<Seq<char>>) -> Seq<char> {
    match state_version {
        Some(version) => "    system.stateVersion = \""@ + version + "\";"@,
        None => "    # system.stateVersion = \"CHANGE-ME\"; # flamingo could not detect the nixpkgs release"@,
    }
}

/// What `host_default_nix` generates.
pub open spec fn spec_host_default_nix(
    hostname: Seq<char>,
    state_version: Option<Seq<char>>,
    modules: Seq<Seq<char>>,
) -> Seq<char> {
    let cap = spec_capitalize(hostname);
    "{ inputs, self, ... }:\n{\n  flake.nixosConfigurations."@ + hostname
        + " = inputs.nixpkgs.lib.nixosSystem {\n    specialArgs = {\n      hostName = \""@ + hostname
        + "\";\n      inherit self;\n    };\n    modules = [\n      self.nixosModules.config"@ + cap
        + "\n      self.nixosModules.hardware"@ + cap + "\n    ];\n  };\n\n  flake.nixosModules.config"@
        + cap + " = {\n    imports = [\n"@ + join(modules.map_values(|n: Seq<char>| import_line(n)), "\n"@)
        + "\n    ];\n\n    networking.hostName = \""@ + hostname + "\";\n"@ + state_version_line(
        state_version,
    ) + "\n  };\n}\n"@
}

/// Text found in `a` is found in `a + b`.
broadcast proof fn lemma_contains_left(a: Seq<char>, b: Seq<char>, pat: Seq<char>)
    requires
        contains(a, pat),
    ensures
        #[trigger] contains(a + b, pat),
{
    lemma_contains_concat(a, b, pat, 0);
}

/// Text found in `b` is found in `a + b`.
broadcast proof fn lemma_contains_right(a: Seq<char>, b: Seq<char>, pat: Seq<char>)
    requires
        contains(b, pat),
    ensures
        #[trigger] contains(a + b, pat),
{
    lemma_find_from_bounds(b, pat, 0);
    lemma_contains_concat(a, b, pat, find_from(b, pat, 0).unwrap());
}

/// Each joined piece is found in the joined text.
proof fn lemma_join_contains(list: Seq<Seq<char>>, sep: Seq<char>, k: int)
    requires
        0 <= k < list.len(),
    ensures
        contains(join(list, sep), list[k]),
    decreases list.len(),
{
    if list.len() == 1 {
        assert(list[0].subrange(0, list[0].len() as int) =~= list[0]);
        lemma_occurrence_found(list[0], list[0], 0, 0);
    } else {
        let init = list.drop_last();
        let front = join(init, sep) + sep;
        if k < list.len() - 1 {
            lemma_join_contains(init, sep, k);
            assert(init[k] == list[k]);
            lemma_contains_left(join(init, sep), sep, list[k]);
            lemma_contains_left(front, list.last(), list[k]);
        } else {
            assert(list.last().subrange(0, list.last().len() as int) =~= list.last());
            lemma_contains_concat(front, list.last(), list.last(), 0);
        }
        assert(join(list, sep) == front + list.last());
    }
}

/// The generated host profile imports every selected module by name.
pub proof fn lemma_host_imports_modules(
    hostname: Seq<char>,
    state_version: Option<Seq<char>>,
    modules: Seq<Seq<char>>,
    k: int,
)
    requires
        0 <= k < modules.len(),
    ensures
        contains(spec_host_default_nix(hostname, state_version, modules), import_line(modules[k])),
{
    broadcast use lemma_contains_left, lemma_contains_right;
    let lines = modules.map_values(|n: Seq<char>| import_line(n));
    assert(lines[k] == import_line(modules[k]));
    lemma_join_contains(lines, "\n"@, k);
    assert(contains(spec_host_default_nix(hostname, state_version, modules), import_line(modules[k])));
}

/// Text that ends `m`, followed by `c`, is found in `(a + m) + c`.
broadcast proof fn lemma_contains_tail(a: Seq<char>, m: Seq<char>, l: Seq<char>, c: Seq<char>)
    requires
        l.len() <= m.len(),
        m.skip(m.len() - l.len()) == l,
    ensures
        #[trigger] contains((a + m) + c, l + c),
{
    let s = (a + m) + c;
    let i = a.len() + m.len() - l.len();
    assert(s.subrange(i, i + (l + c).len()) =~= l + c);
    lemma_occurrence_found(s, l + c, 0, i);
}

/// A text is found in itself.
proof fn lemma_contains_self(t: Seq<char>)
    ensures
        contains(t, t),
{
    assert(t.subrange(0, t.len() as int) =~= t);
    lemma_occurrence_found(t, t, 0, 0);
}

/// The host profile wires the hardware module that the hardware wrapper
/// defines, and carries the state-version line.
pub proof fn lemma_host_wires_hardware(
    hostname: Seq<char>,
    state_version: Option<Seq<char>>,
    modules: Seq<Seq<char>>,
)
    ensures
        contains(
            spec_host_default_nix(hostname, state_version, modules),
            "self.nixosModules.hardware"@ + spec_capitalize(hostname),
        ),
        contains(
            spec_host_hardware_nix(hostname),
            "flake.nixosModules.hardware"@ + spec_capitalize(hostname),
        ),
        contains(
            spec_host_default_nix(hostname, state_version, modules),
            state_version_line(state_version),
        ),
{
    broadcast use lemma_contains_left, lemma_contains_right, lemma_contains_tail;
    let cap = spec_capitalize(hostname);
    reveal_strlit("\n      self.nixosModules.hardware");
    reveal_strlit("self.nixosModules.hardware");
    reveal_strlit("{\n  flake.nixosModules.hardware");
    reveal_strlit("flake.nixosModules.hardware");
    let m = "\n      self.nixosModules.hardware"@;
    assert(m.skip(m.len() - "self.nixosModules.hardware"@.len()) =~= "self.nixosModules.hardware"@);
    assert(contains(
        spec_host_default_nix(hostname, state_version, modules),
        "self.nixosModules.hardware"@ + cap,
    ));
    let h = "{\n  flake.nixosModules.hardware"@;
    assert(h.skip(h.len() - "flake.nixosModules.hardware"@.len()) =~= "flake.nixosModules.hardware"@);
    assert(Seq::<char>::empty() + h =~= h);
    lemma_contains_tail(Seq::empty(), h, "flake.nixosModules.hardware"@, cap);
    assert(contains(spec_host_hardware_nix(hostname), "flake.nixosModules.hardware"@ + cap));
    lemma_contains_self(state_version_line(state_version));
    assert(contains(
        spec_host_default_nix(hostname, state_version, modules),
        state_version_line(state_version),
    ));
}

/// `s` begins with `p`.
pub open spec fn starts_with(s: Seq<char>, p: Seq<char>) -> bool {
    p.len() <= s.len() && s.take(p.len() as int) == p
}

/// A text that begins with `p` still does once more text follows.
broadcast proof fn lemma_starts_with_left(a: Seq<char>, b: Seq<char>, p: Seq<char>)
    requires
        starts_with(a, p),
    ensures
        #[trigger] starts_with(a + b, p),
{
    assert((a + b).take(p.len() as int) =~= a.take(p.len() as int));
}

/// The host profile opens by declaring the host's NixOS configuration.
pub proof fn lemma_host_profile_opening(
    hostname: Seq<char>,
    state_version: Option<Seq<char>>,
    modules: Seq<Seq<char>>,
)
    ensures
        starts_with(
            spec_host_default_nix(hostname, state_version, modules),
            "{ inputs, self, ... }:\n{\n  flake.nixosConfigurations."@ + hostname + " = "@,
        ),
{
    broadcast use lemma_starts_with_left;
    let a = "{ inputs, self, ... }:\n{\n  flake.nixosConfigurations."@ + hostname;
    let b = " = inputs.nixpkgs.lib.nixosSystem {\n    specialArgs = {\n      hostName = \""@;
    reveal_strlit(" = inputs.nixpkgs.lib.nixosSystem {\n    specialArgs = {\n      hostName = \"");
    reveal_strlit(" = ");
    let p = a + " = "@;
    assert((a + b).take(p.len() as int) =~= p);
    assert(starts_with(a + b, p));
    assert(starts_with(spec_host_default_nix(hostname, state_version, modules), p));
}

/// Generates modules/hosts/<hostname>/default.nix: the hardcoded profile
/// wiring the selected modules by name, in the source config's idiom.
pub fn host_default_nix(hostname: &str, state_version: Option<&str>, modules: &[String]) -> (r:
    String)
    ensures
        r@ == spec_host_default_nix(
            hostname@,
            match state_version {
                Some(v) => Some(v@),
                None => None,
            },
            modules@.map_values(|m: String| m@),
        ),
{
    let cap = capitalize(hostname);
    let mut lines: Vec<String> = Vec::new();
    let mut i: usize = 0;
    while i < modules.len()
        invariant
            i <= modules@.len(),
            lines@.map_values(|l: String| l@) =~= modules@.take(i as int).map_values(
                |m: String| import_line(m@),
            ),
        decreases modules@.len() - i,
    {
        let mut line = String::new();
        line.append("      self.nixosModules.");
        line.append(modules[i].as_str());
        assert(line@ == import_line(modules@[i as int]@));
        let ghost prev = lines@.map_values(|l: String| l@);
        lines.push(line);
        assert(lines@.map_values(|l: String| l@) =~= prev.push(import_line(modules@[i as int]@)));
        assert(modules@.take(i + 1) =~= modules@.take(i as int).push(modules@[i as int]));
        i = i + 1;
        assert(lines@.map_values(|l: String| l@) =~= modules@.take(i as int).map_values(
            |m: String| import_line(m@),
        ));
    }
    assert(modules@.take(modules@.len() as int) =~= modules@);
    assert(lines@.map_values(|l: String| l@) =~= modules@.map_values(|m: String| m@).map_values(
        |n: Seq<char>| import_line(n),
    ));
    let imports = join_strings(&lines, "\n");
    let mut version_line = String::new();
    match state_version {
        Some(version) => {
            version_line.append("    system.stateVersion = \"");
            version_line.append(version);
            version_line.append("\";");
        },
        None => {
            version_line.append(
                "    # system.stateVersion = \"CHANGE-ME\"; # flamingo could not detect the nixpkgs release",
            );
        },
    }
    let mut r = String::new();
    r.append("{ inputs, self, ... }:\n{\n  flake.nixosConfigurations.");
    r.append(hostname);
    r.append(" = inputs.nixpkgs.lib.nixosSystem {\n    specialArgs = {\n      hostName = \"");
    r.append(hostname);
    r.append("\";\n      inherit self;\n    };\n    modules = [\n      self.nixosModules.config");
    r.append(cap.as_str());
    r.append("\n      self.nixosModules.hardware");
    r.append(cap.as_str());
    r.append("\n    ];\n  };\n\n  flake.nixosModules.config");
    r.append(cap.as_str());
    r.append(" = {\n    imports = [\n");
    r.append(imports.as_str());
    r.append("\n    ];\n\n    networking.hostName = \"");
    r.append(hostname);
    r.append("\";\n");
    r.append(version_line.as_str());
    r.append("\n  };\n}\n");
    r
}

/// What `host_hardware_nix` generates.
pub open spec fn spec_host_hardware_nix(hostname: Seq<char>) -> Seq<char> {
    "{\n  flake.nixosModules.hardware"@ + spec_capitalize(hostname)
        + " = ./_hardware-configuration.nix;\n}\n"@
}

/// Generates modules/hosts/<hostname>/hardware.nix, wrapping the raw
/// hardware file as a named module the way the source config does.
pub fn host_hardware_nix(hostname: &str) -> (r: String)
    ensures
        r@ == spec_host_hardware_nix(hostname@),
{
    let cap = capitalize(hostname);
    let mut r = String::new();
    r.append("{\n  flake.nixosModules.hardware");
    r.append(cap.as_str());
    r.append(" = ./_hardware-configuration.nix;\n}\n");
    r
}

/// The placeholder hardware configuration.
pub open spec fn spec_hardware_placeholder() -> Seq<char> {
    "# Replace this file with the real hardware configuration of the target\n# machine, generated on that machine with:\n#\n#   nixos-generate-config --show-hw-config > hardware-configuration.nix\n{ ... }:\n{\n  nixpkgs.hostPlatform = \"x86_64-linux\";\n}\n"@
}

/// Placeholder hardware config pointing the user at nixos-generate-config.
///
/// Underscore-prefixed on disk so import-tree does not auto-import it as a
/// flake-parts module; it only enters the eval through the hardware wrapper.
pub fn hardware_placeholder() -> (r: String)
    ensures
        r@ == spec_hardware_placeholder(),
{
    "# Replace this file with the real hardware configuration of the target\n# machine, generated on that machine with:\n#\n#   nixos-generate-config --show-hw-config > hardware-configuration.nix\n{ ... }:\n{\n  nixpkgs.hostPlatform = \"x86_64-linux\";\n}\n".to_owned()
}

} // verus!
