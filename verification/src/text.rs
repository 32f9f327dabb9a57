//! Character-level helpers shared by the Nix text processing.

use vstd::prelude::*;

verus! {

/// What `char::is_alphanumeric` returns for a character (Unicode
/// `Alphabetic` or `Numeric`).
pub uninterp spec fn unicode_alphanumeric(c: char) -> bool;

/// What `char::is_whitespace` returns for a character (Unicode
/// `White_Space`).
pub uninterp spec fn unicode_whitespace(c: char) -> bool;

/// ASCII letters and digits.
pub open spec fn ascii_alphanumeric(c: char) -> bool {
    ('a' <= c && c <= 'z') || ('A' <= c && c <= 'Z') || ('0' <= c && c <= '9')
}

/// ASCII white space as listed by `char::is_whitespace`.
pub open spec fn ascii_whitespace(c: char) -> bool {
    c == ' ' || c == '\t' || c == '\n' || c == '\x0B' || c == '\x0C' || c == '\r'
}

/// Whether the body of a regular-expression bracket class, read from
/// position `i`, admits `c`: `x-y` is the range from `x` to `y`, `\x` is
/// the character `x`, and any other character (a `-` that starts no range
/// among them) stands for itself.
pub open spec fn class_admits(cls: Seq<char>, i: int, c: char) -> bool
    decreases cls.len() - i,
{
    if i < 0 || i >= cls.len() {
        false
    } else if cls[i] == '\\' && i + 1 < cls.len() {
        c == cls[i + 1] || class_admits(cls, i + 2, c)
    } else if i + 2 < cls.len() && cls[i + 1] == '-' {
        (cls[i] <= c && c <= cls[i + 2]) || class_admits(cls, i + 3, c)
    } else {
        c == cls[i] || class_admits(cls, i + 1, c)
    }
}

/// Calls `char::is_alphanumeric`. The contract claims the result is a fixed
/// function of the character and, for ASCII characters, that it holds
/// exactly for letters and digits, as the std documentation states.
#[verifier::external_body]
pub(crate) fn is_alphanumeric(c: char) -> (r: bool)
    ensures
        r == unicode_alphanumeric(c),
        (c as u32) < 128 ==> (r <==> ascii_alphanumeric(c)),
{
    c.is_alphanumeric()
}

/// Calls `char::is_whitespace`. The contract claims the result is a fixed
/// function of the character and, for ASCII characters, that it holds for
/// exactly the six ASCII white-space characters the std documentation lists.
#[verifier::external_body]
pub(crate) fn is_whitespace(c: char) -> (r: bool)
    ensures
        r == unicode_whitespace(c),
        (c as u32) < 128 ==> (r <==> ascii_whitespace(c)),
{
    c.is_whitespace()
}

/// What `char::to_uppercase` yields for a character, collected in order.
pub uninterp spec fn unicode_uppercase(c: char) -> Seq<char>;

/// Calls `char::to_uppercase` and collects the characters it yields. The
/// contract claims the result is a fixed function of the character and,
/// for ASCII characters, that lowercase letters map to their uppercase
/// letter and every other ASCII character to itself.
#[verifier::external_body]
pub(crate) fn to_uppercase(c: char) -> (r: String)
    ensures
        r@ == unicode_uppercase(c),
        'a' <= c && c <= 'z' ==> r@ == seq![((c as u32) - 32) as char],
        (c as u32) < 128 && !('a' <= c && c <= 'z') ==> r@ == seq![c],
{
    c.to_uppercase().collect()
}

/// Calls `String::push`: the character is appended at the end.
#[verifier::external_body]
pub(crate) fn push_char(s: &mut String, c: char)
    ensures
        final(s)@ == old(s)@.push(c),
{
    s.push(c);
}

/// Copies the characters of a string slice into a vector.
pub fn chars_of(s: &str) -> (v: Vec<char>)
    ensures
        v@ == s@,
{
    let mut v: Vec<char> = Vec::new();
    for c in it: s.chars()
        invariant
            v@ == it.seq().take(it.index() as int),
    {
        v.push(c);
    }
    v
}

/// Builds a string from a slice of characters.
pub fn string_of(v: &[char]) -> (s: String)
    ensures
        s@ == v@,
{
    let mut s = String::new();
    let mut i: usize = 0;
    while i < v.len()
        invariant
            i <= v@.len(),
            s@ == v@.take(i as int),
        decreases v@.len() - i,
    {
        push_char(&mut s, v[i]);
        i = i + 1;
        assert(s@ =~= v@.take(i as int));
    }
    assert(v@.take(v@.len() as int) =~= v@);
    s
}

/// Builds a string from the characters `v[from..to]`.
pub fn string_of_range(v: &[char], from: usize, to: usize) -> (s: String)
    requires
        from <= to <= v@.len(),
    ensures
        s@ == v@.subrange(from as int, to as int),
{
    let mut s = String::new();
    let mut i: usize = from;
    while i < to
        invariant
            from <= i <= to <= v@.len(),
            s@ == v@.subrange(from as int, i as int),
        decreases to - i,
    {
        push_char(&mut s, v[i]);
        i = i + 1;
        assert(s@ =~= v@.subrange(from as int, i as int));
    }
    s
}

/// Whether `pat` occurs in `s` at position `i`.
pub open spec fn occurs_at(s: Seq<char>, pat: Seq<char>, i: int) -> bool {
    0 <= i && i + pat.len() <= s.len() && s.subrange(i, i + pat.len()) == pat
}

/// The first position at or after `i` where `pat` occurs in `s`.
pub open spec fn find_from(s: Seq<char>, pat: Seq<char>, i: int) -> Option<int>
    decreases s.len() - i,
{
    if i < 0 || i + pat.len() > s.len() {
        None
    } else if occurs_at(s, pat, i) {
        Some(i)
    } else if i >= s.len() {
        None
    } else {
        find_from(s, pat, i + 1)
    }
}

/// Whether `s` contains `pat` anywhere.
pub open spec fn contains(s: Seq<char>, pat: Seq<char>) -> bool {
    find_from(s, pat, 0) is Some
}

/// Whether `pat` occurs at position `i` of `s`.
pub fn occurs_at_exec(s: &[char], pat: &[char], i: usize) -> (r: bool)
    ensures
        r == occurs_at(s@, pat@, i as int),
{
    if i > s.len() || pat.len() > s.len() - i {
        return false;
    }
    let n = s.len();
    let mut k: usize = 0;
    while k < pat.len()
        invariant
            n == s@.len(),
            k <= pat@.len(),
            i + pat@.len() <= s@.len(),
            i + k <= s@.len(),
            forall|j: int| 0 <= j < k ==> s@[i + j] == pat@[j],
        decreases pat@.len() - k,
    {
        if s[i + k] != pat[k] {
            assert(s@.subrange(i as int, i + pat@.len())[k as int] != pat@[k as int]);
            return false;
        }
        k = k + 1;
    }
    assert(s@.subrange(i as int, i + pat@.len()) =~= pat@);
    true
}

/// The first position at or after `i` where `pat` occurs in `s`.
pub fn find_from_exec(s: &[char], pat: &[char], i: usize) -> (r: Option<usize>)
    ensures
        r matches Some(k) ==> find_from(s@, pat@, i as int) == Some(k as int),
        r is None ==> find_from(s@, pat@, i as int) is None,
{
    if pat.len() == 0 {
        if i <= s.len() {
            assert(s@.subrange(i as int, i as int) =~= pat@);
            return Some(i);
        }
        return None;
    }
    let mut k: usize = i;
    while k <= s.len() && pat.len() <= s.len() - k
        invariant
            i <= k,
            pat@.len() > 0,
            find_from(s@, pat@, i as int) == find_from(s@, pat@, k as int),
        decreases s@.len() + 1 - k,
    {
        if occurs_at_exec(s, pat, k) {
            return Some(k);
        }
        k = k + 1;
    }
    None
}

/// Whether `s` contains `pat`.
pub fn contains_exec(s: &[char], pat: &[char]) -> (r: bool)
    ensures
        r == contains(s@, pat@),
{
    find_from_exec(s, pat, 0).is_some()
}

/// The pieces of `list` joined, with `sep` between consecutive pieces.
pub open spec fn join(list: Seq<Seq<char>>, sep: Seq<char>) -> Seq<char>
    decreases list.len(),
{
    if list.len() == 0 {
        Seq::empty()
    } else if list.len() == 1 {
        list[0]
    } else {
        join(list.drop_last(), sep) + sep + list.last()
    }
}

/// Joins strings with a separator between consecutive pieces.
pub fn join_strings(list: &Vec<String>, sep: &str) -> (r: String)
    ensures
        r@ == join(list@.map_values(|p: String| p@), sep@),
{
    let ghost pieces = list@.map_values(|p: String| p@);
    let mut r = String::new();
    let mut i: usize = 0;
    while i < list.len()
        invariant
            i <= list@.len(),
            pieces == list@.map_values(|p: String| p@),
            r@ == join(pieces.take(i as int), sep@),
        decreases list@.len() - i,
    {
        if i != 0 {
            r.append(sep);
        }
        r.append(list[i].as_str());
        assert(pieces.take(i + 1).drop_last() =~= pieces.take(i as int));
        i = i + 1;
    }
    assert(pieces.take(list@.len() as int) =~= pieces);
    r
}

/// Whether two character slices are equal.
pub fn chars_eq(a: &[char], b: &[char]) -> (r: bool)
    ensures
        r == (a@ == b@),
{
    if a.len() != b.len() {
        return false;
    }
    let mut i: usize = 0;
    while i < a.len()
        invariant
            a@.len() == b@.len(),
            i <= a@.len(),
            forall|j: int| 0 <= j < i ==> a@[j] == b@[j],
        decreases a@.len() - i,
    {
        if a[i] != b[i] {
            return false;
        }
        i = i + 1;
    }
    assert(a@ =~= b@);
    true
}

/// Whether a character slice spells the string literal `lit`.
pub fn is_word(a: &[char], lit: &str) -> (r: bool)
    ensures
        r == (a@ == lit@),
{
    let l = chars_of(lit);
    chars_eq(a, &l)
}

/// The pieces of `s` between the occurrences of `sep`, scanning from `i`
/// where the current piece started at `start`.
pub open spec fn split_from(s: Seq<char>, sep: char, start: int, i: int) -> Seq<Seq<char>>
    decreases s.len() - i,
{
    if i < start || start < 0 || i >= s.len() {
        seq![s.subrange(start, s.len() as int)]
    } else if s[i] == sep {
        seq![s.subrange(start, i)] + split_from(s, sep, i + 1, i + 1)
    } else {
        split_from(s, sep, start, i + 1)
    }
}

/// The pieces of `s` between the occurrences of `sep`, as `str::split` with
/// a character yields them (an empty `s` gives one empty piece).
pub open spec fn split_on(s: Seq<char>, sep: char) -> Seq<Seq<char>> {
    split_from(s, sep, 0, 0)
}

/// Splits text at each occurrence of `sep`.
pub fn split_chars(v: &[char], sep: char) -> (r: Vec<Vec<char>>)
    ensures
        r@.map_values(|p: Vec<char>| p@) == split_on(v@, sep),
{
    let mut r: Vec<Vec<char>> = Vec::new();
    let mut start: usize = 0;
    let mut i: usize = 0;
    while i < v.len()
        invariant
            start <= i <= v@.len(),
            split_on(v@, sep) == r@.map_values(|p: Vec<char>| p@) + split_from(
                v@,
                sep,
                start as int,
                i as int,
            ),
        decreases v@.len() - i,
    {
        if v[i] == sep {
            let mut piece: Vec<char> = Vec::new();
            let mut k = start;
            while k < i
                invariant
                    start <= k <= i < v@.len(),
                    piece@ == v@.subrange(start as int, k as int),
                decreases i - k,
            {
                piece.push(v[k]);
                k = k + 1;
                assert(piece@ =~= v@.subrange(start as int, k as int));
            }
            let ghost before = r@.map_values(|p: Vec<char>| p@);
            r.push(piece);
            assert(r@.map_values(|p: Vec<char>| p@) =~= before.push(
                v@.subrange(start as int, i as int),
            ));
            assert(before + (seq![v@.subrange(start as int, i as int)] + split_from(
                v@,
                sep,
                i + 1,
                i + 1,
            )) =~= r@.map_values(|p: Vec<char>| p@) + split_from(v@, sep, i + 1, i + 1));
            start = i + 1;
        }
        i = i + 1;
    }
    let mut piece: Vec<char> = Vec::new();
    let mut k = start;
    while k < v.len()
        invariant
            start <= k <= v@.len(),
            piece@ == v@.subrange(start as int, k as int),
        decreases v@.len() - k,
    {
        piece.push(v[k]);
        k = k + 1;
        assert(piece@ =~= v@.subrange(start as int, k as int));
    }
    let ghost before = r@.map_values(|p: Vec<char>| p@);
    r.push(piece);
    assert(r@.map_values(|p: Vec<char>| p@) =~= before + seq![
        v@.subrange(start as int, v@.len() as int),
    ]);
    r
}

/// Index of the first character at or after `i` that is not white space.
pub open spec fn trim_start_at(s: Seq<char>, i: int) -> int
    decreases s.len() - i,
{
    if i < 0 || i >= s.len() || !unicode_whitespace(s[i]) {
        i
    } else {
        trim_start_at(s, i + 1)
    }
}

/// Index just past the last character before `j` that is not white space,
/// not going below `lo`.
pub open spec fn trim_end_at(s: Seq<char>, lo: int, j: int) -> int
    decreases j - lo,
{
    if j <= lo || j > s.len() || !unicode_whitespace(s[j - 1]) {
        j
    } else {
        trim_end_at(s, lo, j - 1)
    }
}

/// `s` without leading and trailing white space, as `str::trim`.
pub open spec fn trimmed(s: Seq<char>) -> Seq<char> {
    let a = trim_start_at(s, 0);
    s.subrange(a, trim_end_at(s, a, s.len() as int))
}

/// Bounds of `trim_start_at`.
pub proof fn lemma_trim_start_bounds(s: Seq<char>, i: int)
    requires
        0 <= i <= s.len(),
    ensures
        i <= trim_start_at(s, i) <= s.len(),
    decreases s.len() - i,
{
    if i < s.len() && unicode_whitespace(s[i]) {
        lemma_trim_start_bounds(s, i + 1);
    }
}

/// Bounds of `trim_end_at`.
pub proof fn lemma_trim_end_bounds(s: Seq<char>, lo: int, j: int)
    requires
        0 <= lo <= j <= s.len(),
    ensures
        lo <= trim_end_at(s, lo, j) <= j,
    decreases j - lo,
{
    if j > lo && unicode_whitespace(s[j - 1]) {
        lemma_trim_end_bounds(s, lo, j - 1);
    }
}

/// Removes leading and trailing white space.
pub fn trim_chars(v: &[char]) -> (r: Vec<char>)
    ensures
        r@ == trimmed(v@),
{
    let mut a: usize = 0;
    while a < v.len() && is_whitespace(v[a])
        invariant
            a <= v@.len(),
            trim_start_at(v@, 0) == trim_start_at(v@, a as int),
        decreases v@.len() - a,
    {
        a = a + 1;
    }
    let mut b: usize = v.len();
    while b > a && is_whitespace(v[b - 1])
        invariant
            a <= b <= v@.len(),
            a as int == trim_start_at(v@, 0),
            trim_end_at(v@, a as int, v@.len() as int) == trim_end_at(v@, a as int, b as int),
        decreases b - a,
    {
        b = b - 1;
    }
    let mut r: Vec<char> = Vec::new();
    let mut k = a;
    while k < b
        invariant
            a <= k <= b <= v@.len(),
            r@ == v@.subrange(a as int, k as int),
        decreases b - k,
    {
        r.push(v[k]);
        k = k + 1;
        assert(r@ =~= v@.subrange(a as int, k as int));
    }
    r
}

} // verus!

verus! {

/// The character of a decimal digit.
pub open spec fn digit_char(d: int) -> char {
    (d + 48) as char
}

/// Decimal notation of a natural number.
pub open spec fn decimal_of(n: nat) -> Seq<char>
    decreases n,
{
    if n < 10 {
        seq![digit_char(n as int)]
    } else {
        decimal_of(n / 10) + seq![digit_char((n % 10) as int)]
    }
}

/// Decimal notation of a count.
pub fn decimal_string(n: usize) -> (r: String)
    ensures
        r@ == decimal_of(n as nat),
    decreases n,
{
    let d = ((n % 10) as u8 + 48) as char;
    if n < 10 {
        let mut r = String::new();
        push_char(&mut r, d);
        r
    } else {
        let mut r = decimal_string(n / 10);
        push_char(&mut r, d);
        r
    }
}

} // verus!

verus! {

/// How many line breaks `s` holds.
pub open spec fn newline_count(s: Seq<char>) -> nat
    decreases s.len(),
{
    if s.len() == 0 {
        0
    } else {
        newline_count(s.drop_last()) + if s.last() == '\n' {
            1nat
        } else {
            0nat
        }
    }
}

/// How many lines `str::lines` finds in `s`: each line break ends a line,
/// and text after the last line break is one more line.
pub open spec fn spec_line_count(s: Seq<char>) -> nat {
    newline_count(s) + if s.len() > 0 && s.last() != '\n' {
        1nat
    } else {
        0nat
    }
}

proof fn lemma_newline_count_bound(s: Seq<char>)
    ensures
        newline_count(s) <= s.len(),
    decreases s.len(),
{
    if s.len() > 0 {
        lemma_newline_count_bound(s.drop_last());
    }
}

/// How many lines a text has.
pub fn line_count(s: &str) -> (r: usize)
    ensures
        r == spec_line_count(s@),
{
    let v = chars_of(s);
    let mut n: usize = 0;
    let mut i: usize = 0;
    while i < v.len()
        invariant
            v@ == s@,
            i <= v@.len(),
            n == newline_count(v@.take(i as int)),
            n <= i,
        decreases v@.len() - i,
    {
        assert(v@.take(i + 1).drop_last() =~= v@.take(i as int));
        if v[i] == '\n' {
            n = n + 1;
        }
        i = i + 1;
    }
    assert(v@.take(v@.len() as int) =~= v@);
    if v.len() > 0 && v[v.len() - 1] != '\n' {
        proof {
            lemma_newline_count_bound(v@.drop_last());
        }
        n + 1
    } else {
        n
    }
}

} // verus!
