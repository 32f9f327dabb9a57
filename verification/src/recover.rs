//! Textual recovery of what the Nix eval cannot see: entry files of opaque
//! modules, and children hidden inside function modules.

use vstd::prelude::*;

use crate::config::module::{contains_name, names_contain};
use crate::flake::{Flake, added_flags, cascade_from, same_but_added, spec_module_tree};
use crate::module::{opt_view, Module};
use crate::text::{chars_of, class_admits, occurs_at_exec};

verus! {

/// What `regex::Regex::captures_iter` reports for `haystack` once `pattern`
/// is compiled with `regex::Regex::new`: for each match in order, the text
/// of capture groups 1 and 2 when they took part; `None` when the pattern
/// does not compile.
pub uninterp spec fn regex_capture_pairs(pattern: Seq<char>, haystack: Seq<char>) -> Option<
    Seq<(Option<Seq<char>>, Option<Seq<char>>)>,
>;

/// What `regex::Regex::is_match` reports for `haystack` once `pattern` is
/// compiled with `regex::Regex::new`; `None` when the pattern does not compile.
pub uninterp spec fn regex_matches(pattern: Seq<char>, haystack: Seq<char>) -> Option<bool>;

/// Capture pairs as character sequences.
pub open spec fn pairs_view(v: Seq<(Option<String>, Option<String>)>) -> Seq<
    (Option<Seq<char>>, Option<Seq<char>>),
> {
    v.map_values(|p: (Option<String>, Option<String>)| (opt_view(p.0), opt_view(p.1)))
}

/// Compiles `pattern` with `regex::Regex::new` and lists, for each match of
/// `regex::Regex::captures_iter` on `haystack`, the text of capture groups 1
/// and 2. The contract only names the result as a function of the pattern
/// and the haystack.
#[verifier::external_body]
fn regex_captures_iter(pattern: &str, haystack: &str) -> (r: Option<
    Vec<(Option<String>, Option<String>)>,
>)
    ensures
        match r {
            Some(v) => regex_capture_pairs(pattern@, haystack@) == Some(pairs_view(v@)),
            None => regex_capture_pairs(pattern@, haystack@) is None,
        },
{
    match regex::Regex::new(pattern) {
        Ok(re) => Some(
            re.captures_iter(haystack).map(
                |c| (c.get(1).map(|m| m.as_str().to_string()), c.get(2).map(|m| m.as_str().to_string())),
            ).collect(),
        ),
        Err(_) => None,
    }
}

/// Compiles `pattern` with `regex::Regex::new` and asks
/// `regex::Regex::is_match` whether it matches somewhere in `haystack`. The
/// contract only names the result as a function of the pattern and the
/// haystack.
#[verifier::external_body]
fn regex_is_match(pattern: &str, haystack: &str) -> (r: Option<bool>)
    ensures
        r == regex_matches(pattern@, haystack@),
{
    match regex::Regex::new(pattern) {
        Ok(re) => Some(re.is_match(haystack)),
        Err(_) => None,
    }
}

/// Characters that `regex::escape` prefixes with a backslash.
pub open spec fn is_meta_character(c: char) -> bool {
    c == '\\' || c == '.' || c == '+' || c == '*' || c == '?' || c == '(' || c == ')' || c == '|'
        || c == '[' || c == ']' || c == '{' || c == '}' || c == '^' || c == '$' || c == '#' || c
        == '&' || c == '-' || c == '~'
}

/// `text` with every meta character prefixed by a backslash.
pub open spec fn spec_escape(text: Seq<char>) -> Seq<char>
    decreases text.len(),
{
    if text.len() == 0 {
        Seq::empty()
    } else {
        let c = text.last();
        spec_escape(text.drop_last()) + if is_meta_character(c) {
            seq!['\\', c]
        } else {
            seq![c]
        }
    }
}

/// Calls `regex::escape`, which prefixes each regex meta character
/// (`\ . + * ? ( ) | [ ] { } ^ $ # & - ~`) with a backslash and keeps every
/// other character, as its source shows.
#[verifier::external_body]
fn regex_escape(text: &str) -> (r: String)
    ensures
        r@ == spec_escape(text@),
{
    regex::escape(text)
}

/// The pattern matching references `<attr>.name` and `<attr>."name"`,
/// capturing the bare name in group 1 and the quoted one in group 2.
pub open spec fn reference_pattern(attr: Seq<char>) -> Seq<char> {
    attr + "\\.(?:([A-Za-z_][A-Za-z0-9_'-]*)|\"([A-Za-z_][A-Za-z0-9_'-]*)\")"@
}

/// Characters that may start a module name: ASCII letters and `_`.
pub open spec fn name_start_char(c: char) -> bool {
    ('A' <= c && c <= 'Z') || ('a' <= c && c <= 'z') || c == '_'
}

/// Characters that may follow in a module name, as in a Nix identifier:
/// ASCII letters and digits, `_`, `'` and `-`.
pub open spec fn name_char(c: char) -> bool {
    ('A' <= c && c <= 'Z') || ('a' <= c && c <= 'z') || ('0' <= c && c <= '9') || c == '_' || c
        == '\'' || c == '-'
}

/// The bracket class of a module name's first character.
pub open spec fn name_start_class() -> Seq<char> {
    "A-Za-z_"@
}

/// The bracket class of the characters after a module name's first.
pub open spec fn name_class() -> Seq<char> {
    "A-Za-z0-9_'-"@
}

/// The reference pattern is `<attr>.` followed by a module name, bare
/// (capture group 1) or in double quotes (capture group 2), where a name is
/// a name-start character followed by any run of name characters; the
/// classes admit exactly those characters, so a bare reference such as
/// `nixosModules.dev-tools` takes in the whole hyphenated name.
pub proof fn lemma_reference_pattern_takes_whole_names(attr: Seq<char>)
    ensures
        reference_pattern(attr) == attr + "\\.(?:(["@ + name_start_class() + "]["@ + name_class()
            + "]*)|\"(["@ + name_start_class() + "]["@ + name_class() + "]*)\")"@,
        forall|c: char| class_admits(name_start_class(), 0, c) <==> name_start_char(c),
        forall|c: char| class_admits(name_class(), 0, c) <==> name_char(c),
{
    reveal_strlit("\\.(?:([A-Za-z_][A-Za-z0-9_'-]*)|\"([A-Za-z_][A-Za-z0-9_'-]*)\")");
    reveal_strlit("\\.(?:([");
    reveal_strlit("][");
    reveal_strlit("]*)|\"([");
    reveal_strlit("]*)\")");
    reveal_strlit("A-Za-z_");
    reveal_strlit("A-Za-z0-9_'-");
    assert(reference_pattern(attr) =~= attr + "\\.(?:(["@ + name_start_class() + "]["@
        + name_class() + "]*)|\"(["@ + name_start_class() + "]["@ + name_class() + "]*)\")"@);
    reveal_with_fuel(class_admits, 8);
}

/// The pattern matching a definition `<attr>.name =` or `<attr>."name" =`.
pub open spec fn definition_pattern(attr: Seq<char>, name: Seq<char>) -> Seq<char> {
    attr + "\\.(?:"@ + spec_escape(name) + "|\""@ + spec_escape(name) + "\")\\s*="@
}

/// The entry file of the last of the first `k` modules named `name` that
/// has one.
pub open spec fn entry_of_upto(ms: Seq<Module>, name: Seq<char>, k: int) -> Option<Seq<char>>
    decreases k,
{
    if k <= 0 {
        None
    } else if ms[k - 1].name@ == name && ms[k - 1].path is Some {
        opt_view(ms[k - 1].path)
    } else {
        entry_of_upto(ms, name, k - 1)
    }
}

/// The entry file recorded for the module named `name`.
pub open spec fn entry_of(ms: Seq<Module>, name: Seq<char>) -> Option<Seq<char>> {
    entry_of_upto(ms, name, ms.len() as int)
}

/// `path` has `comp` as one of its `/`-separated components.
pub open spec fn has_component(path: Seq<char>, comp: Seq<char>) -> bool {
    exists|i: int|
        0 <= i && i + comp.len() <= path.len() && #[trigger] path.subrange(i, i + comp.len()) == comp
            && (i == 0 || path[i - 1] == '/') && (i + comp.len() == path.len() || path[i
            + comp.len()] == '/')
}

/// The name a reference capture designates: the bare name, else the quoted
/// one, else nothing.
pub open spec fn captured_name(pair: (Option<Seq<char>>, Option<Seq<char>>)) -> Seq<char> {
    match pair.0 {
        Some(n) => n,
        None => match pair.1 {
            Some(n) => n,
            None => Seq::empty(),
        },
    }
}

/// `files` after following the first `k` captured references of module
/// `self_name`: each names another module whose entry file is appended when
/// not yet listed.
pub open spec fn add_references(
    ms: Seq<Module>,
    self_name: Seq<char>,
    files: Seq<Seq<char>>,
    pairs: Seq<(Option<Seq<char>>, Option<Seq<char>>)>,
    k: int,
) -> Seq<Seq<char>>
    decreases k,
{
    if k <= 0 || k > pairs.len() {
        files
    } else {
        let before = add_references(ms, self_name, files, pairs, k - 1);
        let name = captured_name(pairs[k - 1]);
        if name != self_name && entry_of(ms, name) is Some && !before.contains(
            entry_of(ms, name).unwrap(),
        ) {
            before.push(entry_of(ms, name).unwrap())
        } else {
            before
        }
    }
}

/// The files of module `m` (of list `ms`) once its hidden children are
/// recovered: unchanged when it has no content or is a host module,
/// otherwise extended with the entry files of the modules its content refers to.
pub open spec fn recovered_files(ms: Seq<Module>, m: Module, attr: Seq<char>) -> Seq<Seq<char>> {
    let files = m.files@.map_values(|f: String| f@);
    match m.content {
        None => files,
        Some(content) => if m.path is Some && has_component(m.path.unwrap()@, "hosts"@) {
            files
        } else {
            match regex_capture_pairs(reference_pattern(attr), content@) {
                None => files,
                Some(pairs) => add_references(ms, m.name@, files, pairs, pairs.len() as int),
            }
        },
    }
}

/// Following references only appends: `files` stays a prefix, and each
/// appended file is new at its place and is the entry file of a module,
/// other than `self_name`, that one of the first `k` captures names.
pub proof fn lemma_add_references_extends(
    ms: Seq<Module>,
    self_name: Seq<char>,
    files: Seq<Seq<char>>,
    pairs: Seq<(Option<Seq<char>>, Option<Seq<char>>)>,
    k: int,
)
    ensures
        ({
            let r = add_references(ms, self_name, files, pairs, k);
            &&& files.len() <= r.len()
            &&& r.take(files.len() as int) == files
            &&& forall|j: int|
                files.len() <= j < r.len() ==> !r.take(j).contains(#[trigger] r[j])
            &&& forall|j: int|
                #![trigger r[j]]
                files.len() <= j < r.len() ==> exists|p: int|
                    0 <= p < pairs.len() && captured_name(#[trigger] pairs[p]) != self_name
                        && entry_of(ms, captured_name(pairs[p])) == Some(r[j])
        }),
    decreases k,
{
    let r = add_references(ms, self_name, files, pairs, k);
    if k <= 0 || k > pairs.len() {
        assert(r.take(files.len() as int) =~= files);
    } else {
        lemma_add_references_extends(ms, self_name, files, pairs, k - 1);
        let before = add_references(ms, self_name, files, pairs, k - 1);
        let name = captured_name(pairs[k - 1]);
        if r != before {
            assert(r == before.push(entry_of(ms, name).unwrap()));
            assert(r.take(files.len() as int) =~= before.take(files.len() as int));
            assert forall|j: int| files.len() <= j < r.len() implies !r.take(j).contains(
                #[trigger] r[j],
            ) by {
                if j < before.len() {
                    assert(r.take(j) =~= before.take(j));
                    assert(r[j] == before[j]);
                } else {
                    assert(r.take(j) =~= before);
                }
            }
            assert forall|j: int| #![trigger r[j]] files.len() <= j < r.len() implies exists|p: int|
                0 <= p < pairs.len() && captured_name(#[trigger] pairs[p]) != self_name
                    && entry_of(ms, captured_name(pairs[p])) == Some(r[j]) by {
                if j < before.len() {
                    assert(r[j] == before[j]);
                } else {
                    assert(captured_name(pairs[k - 1]) != self_name);
                }
            }
        }
    }
}

/// Recovering children only appends to a module's files: the old list stays
/// a prefix, nothing is listed twice that was not before, each appended file
/// is the entry file of another module that the content refers to, and a
/// module without content or under a `hosts` directory keeps its files.
pub proof fn lemma_recovered_files_extend(ms: Seq<Module>, m: Module, attr: Seq<char>)
    ensures
        ({
            let f = file_views(m.files@);
            let r = recovered_files(ms, m, attr);
            &&& f.len() <= r.len()
            &&& r.take(f.len() as int) == f
            &&& forall|j: int| f.len() <= j < r.len() ==> !r.take(j).contains(#[trigger] r[j])
            &&& forall|j: int|
                #![trigger r[j]]
                f.len() <= j < r.len() ==> exists|name: Seq<char>|
                    name != m.name@ && #[trigger] entry_of(ms, name) == Some(r[j])
            &&& (m.content is None || (m.path is Some && has_component(m.path.unwrap()@, "hosts"@)))
                ==> r == f
        }),
{
    let f = file_views(m.files@);
    let r = recovered_files(ms, m, attr);
    assert(f == m.files@.map_values(|x: String| x@));
    if r == f {
        assert(r.take(f.len() as int) =~= f);
    } else {
        let content = m.content.unwrap();
        let pairs = regex_capture_pairs(reference_pattern(attr), content@).unwrap();
        lemma_add_references_extends(ms, m.name@, f, pairs, pairs.len() as int);
        assert forall|j: int| #![trigger r[j]] f.len() <= j < r.len() implies exists|name: Seq<char>|
            name != m.name@ && #[trigger] entry_of(ms, name) == Some(r[j]) by {
            let p = choose|p: int|
                0 <= p < pairs.len() && captured_name(#[trigger] pairs[p]) != m.name@
                    && entry_of(ms, captured_name(pairs[p])) == Some(r[j]);
            let name = captured_name(pairs[p]);
            assert(entry_of(ms, name) == Some(r[j]));
        }
    }
}

/// The entry file recorded for the module named `name`.
fn entry_of_exec(ms: &Vec<Module>, name: &String) -> (r: Option<String>)
    ensures
        opt_view(r) == entry_of(ms@, name@),
{
    let mut k: usize = ms.len();
    while k > 0
        invariant
            k <= ms@.len(),
            entry_of(ms@, name@) == entry_of_upto(ms@, name@, k as int),
        decreases k,
    {
        let m = &ms[k - 1];
        if m.name.eq(name) {
            match &m.path {
                Some(p) => {
                    return Some(p.clone());
                },
                None => {},
            }
        }
        k = k - 1;
    }
    None
}

/// Whether `path` has `hosts` as one of its components.
fn is_host_path(path: &String) -> (r: bool)
    ensures
        r == has_component(path@, "hosts"@),
{
    let v = chars_of(path.as_str());
    let comp = chars_of("hosts");
    let n = v.len();
    let m = comp.len();
    let mut i: usize = 0;
    while i < n
        invariant
            v@ == path@,
            comp@ == "hosts"@,
            n == v@.len(),
            m == comp@.len(),
            forall|j: int|
                0 <= j < i ==> !(j + m <= n && #[trigger] v@.subrange(j, j + m) == comp@ && (j == 0
                    || v@[j - 1] == '/') && (j + m == n || v@[j + m] == '/')),
        decreases n - i,
    {
        if occurs_at_exec(&v, &comp, i) && (i == 0 || v[i - 1] == '/') && (i + m == n || v[i + m]
            == '/') {
            return true;
        }
        i = i + 1;
    }
    proof {
        reveal_strlit("hosts");
    }
    assert(comp@.len() == 5);
    false
}

/// The list of strings as character sequences.
pub open spec fn file_views(files: Seq<String>) -> Seq<Seq<char>> {
    files.map_values(|f: String| f@)
}

/// A copy of a list of strings.
fn clone_strings(v: &Vec<String>) -> (r: Vec<String>)
    ensures
        file_views(r@) == file_views(v@),
{
    let mut r: Vec<String> = Vec::new();
    let mut i: usize = 0;
    while i < v.len()
        invariant
            i <= v@.len(),
            file_views(r@) == file_views(v@).take(i as int),
        decreases v@.len() - i,
    {
        let c = v[i].clone();
        assert(c@ == file_views(v@)[i as int]);
        let ghost before = file_views(r@);
        r.push(c);
        assert(file_views(r@) =~= before.push(c@));
        assert(file_views(v@).take(i + 1) =~= file_views(v@).take(i as int).push(
            file_views(v@)[i as int],
        ));
        i = i + 1;
    }
    assert(file_views(v@).take(v@.len() as int) =~= file_views(v@));
    r
}

/// `contains_name` agrees with `contains` on the views.
proof fn lemma_names_contain_views(files: Seq<String>, e: Seq<char>)
    ensures
        names_contain(files, e) == file_views(files).contains(e),
{
    if names_contain(files, e) {
        let i = choose|i: int| 0 <= i < files.len() && #[trigger] files[i]@ == e;
        assert(file_views(files)[i] == e);
    }
    if file_views(files).contains(e) {
        let i = choose|i: int| 0 <= i < file_views(files).len() && file_views(files)[i] == e;
        assert(files[i]@ == e);
    }
}

/// The files of a module list are the only thing that changed.
pub open spec fn same_but_files(a: Seq<Module>, b: Seq<Module>) -> bool {
    &&& a.len() == b.len()
    &&& forall|i: int|
        0 <= i < a.len() ==> {
            &&& #[trigger] a[i].name == b[i].name
            &&& a[i].path == b[i].path
            &&& a[i].content == b[i].content
            &&& a[i].added == b[i].added
        }
}

/// Replaces the files of module `i`.
fn set_files(modules: &mut Vec<Module>, i: usize, files: Vec<String>)
    requires
        i < old(modules)@.len(),
    ensures
        same_but_files(old(modules)@, final(modules)@),
        final(modules)@[i as int].files == files,
        forall|j: int| 0 <= j < old(modules)@.len() && j != i ==> #[trigger] final(modules)@[j] == old(modules)@[j],
{
    let ghost before = modules@;
    let mut m = modules.remove(i);
    m.files = files;
    modules.insert(i, m);
    proof {
        assert forall|j: int| 0 <= j < before.len() && j != i implies #[trigger] modules@[j]
            == before[j] by {}
    }
}

/// The name designated by a capture pair.
fn captured_name_exec(pair: &(Option<String>, Option<String>)) -> (r: String)
    ensures
        r@ == captured_name((opt_view(pair.0), opt_view(pair.1))),
{
    match &pair.0 {
        Some(n) => n.clone(),
        None => match &pair.1 {
            Some(n) => n.clone(),
            None => String::new(),
        },
    }
}

/// Entries of every module whose name is the same in both lists and whose
/// path is the same are the same.
proof fn lemma_entry_of_same_paths(a: Seq<Module>, b: Seq<Module>, name: Seq<char>, k: int)
    requires
        a.len() == b.len(),
        0 <= k <= a.len(),
        forall|i: int| 0 <= i < a.len() ==> #[trigger] a[i].name == b[i].name && a[i].path == b[i].path,
    ensures
        entry_of_upto(a, name, k) == entry_of_upto(b, name, k),
    decreases k,
{
    if k > 0 {
        assert(a[k - 1].name == b[k - 1].name && a[k - 1].path == b[k - 1].path);
        lemma_entry_of_same_paths(a, b, name, k - 1);
    }
}

/// Following references depends on the module list only through the entry
/// file recorded for each name.
proof fn lemma_add_references_same_entries(
    a: Seq<Module>,
    b: Seq<Module>,
    self_name: Seq<char>,
    files: Seq<Seq<char>>,
    pairs: Seq<(Option<Seq<char>>, Option<Seq<char>>)>,
    k: int,
)
    requires
        forall|name: Seq<char>| #[trigger] entry_of(a, name) == entry_of(b, name),
    ensures
        add_references(a, self_name, files, pairs, k) == add_references(b, self_name, files, pairs, k),
    decreases k,
{
    if k > 0 && k <= pairs.len() {
        lemma_add_references_same_entries(a, b, self_name, files, pairs, k - 1);
        assert(entry_of(a, captured_name(pairs[k - 1])) == entry_of(b, captured_name(pairs[k - 1])));
    }
}

/// Follows the captured references of the module named `self_name`, in
/// order: each names a module; when that is another module with an entry
/// file not yet in `files`, the entry file is appended.
pub fn add_captured_references(
    modules: &Vec<Module>,
    self_name: &String,
    files: Vec<String>,
    pairs: &Vec<(Option<String>, Option<String>)>,
) -> (r: Vec<String>)
    ensures
        file_views(r@) == add_references(
            modules@,
            self_name@,
            file_views(files@),
            pairs_view(pairs@),
            pairs@.len() as int,
        ),
{
    let ghost pv = pairs_view(pairs@);
    let ghost files0 = file_views(files@);
    let mut files = files;
    let mut k: usize = 0;
    while k < pairs.len()
        invariant
            k <= pairs@.len(),
            pv == pairs_view(pairs@),
            file_views(files@) == add_references(modules@, self_name@, files0, pv, k as int),
        decreases pairs@.len() - k,
    {
        let name = captured_name_exec(&pairs[k]);
        assert(pv[k as int] == (opt_view(pairs@[k as int].0), opt_view(pairs@[k as int].1)));
        if !name.eq(self_name) {
            match entry_of_exec(modules, &name) {
                Some(entry) => {
                    proof {
                        lemma_names_contain_views(files@, entry@);
                    }
                    if !contains_name(&files, &entry) {
                        let ghost fb = file_views(files@);
                        files.push(entry);
                        assert(file_views(files@) =~= fb.push(entry_of(modules@, name@).unwrap()));
                    }
                },
                None => {},
            }
        }
        k = k + 1;
    }
    files
}

impl Flake {
    /// Textually recovers `<attr>.<name>` references from each module's entry
    /// file and records the referenced module's entry file.
    ///
    /// A module with content that is not a host module (no `hosts` path
    /// component) gains, for each reference to another module that has an
    /// entry file, that entry file unless already listed. Dynamic references
    /// (`nixosModules.${x}`) are not references, and mentions inside Nix
    /// comments still count.
    pub fn recover_children(modules: &mut Vec<Module>, attr: &str)
        ensures
            same_but_files(old(modules)@, final(modules)@),
            forall|i: int|
                0 <= i < old(modules)@.len() ==> file_views(#[trigger] final(modules)@[i].files@)
                    == recovered_files(old(modules)@, old(modules)@[i], attr@),
    {
        let mut pattern = attr.to_owned();
        pattern.append("\\.(?:([A-Za-z_][A-Za-z0-9_'-]*)|\"([A-Za-z_][A-Za-z0-9_'-]*)\")");
        let ghost ms0 = modules@;
        let n = modules.len();
        let mut i: usize = 0;
        while i < n
            invariant
                n == ms0.len(),
                ms0 == old(modules)@,
                pattern@ == reference_pattern(attr@),
                i <= n,
                same_but_files(ms0, modules@),
                forall|j: int| i <= j < n ==> #[trigger] modules@[j] == ms0[j],
                forall|j: int|
                    0 <= j < i ==> file_views(#[trigger] modules@[j].files@) == recovered_files(
                        ms0,
                        ms0[j],
                        attr@,
                    ),
            decreases n - i,
        {
            let ghost m0 = ms0[i as int];
            assert(modules@[i as int] == m0);
            let pairs = match &modules[i].content {
                None => None,
                Some(content) => {
                    let host = match &modules[i].path {
                        Some(p) => is_host_path(p),
                        None => false,
                    };
                    if host {
                        None
                    } else {
                        regex_captures_iter(pattern.as_str(), content.as_str())
                    }
                },
            };
            match pairs {
                None => {},
                Some(pairs) => {
                    let self_name = modules[i].name.clone();
                    let files = clone_strings(&modules[i].files);
                    let files = add_captured_references(modules, &self_name, files, &pairs);
                    proof {
                        assert forall|name: Seq<char>| #[trigger] entry_of(modules@, name) == entry_of(
                            ms0,
                            name,
                        ) by {
                            lemma_entry_of_same_paths(ms0, modules@, name, n as int);
                        }
                        lemma_add_references_same_entries(
                            modules@,
                            ms0,
                            m0.name@,
                            file_views(m0.files@),
                            pairs_view(pairs@),
                            pairs@.len() as int,
                        );
                    }
                    set_files(modules, i, files);
                },
            }
            i = i + 1;
        }
    }

    /// Recovers children hidden inside function modules, for the NixOS
    /// modules (`nixosModules`) and the Home Manager modules (`homeModules`).
    pub fn recover_function_module_children(&mut self)
        ensures
            same_but_files(old(self).nixos_modules@, final(self).nixos_modules@),
            forall|i: int|
                0 <= i < old(self).nixos_modules@.len() ==> file_views(
                    #[trigger] final(self).nixos_modules@[i].files@,
                ) == recovered_files(
                    old(self).nixos_modules@,
                    old(self).nixos_modules@[i],
                    "nixosModules"@,
                ),
            same_but_files(old(self).home_modules@, final(self).home_modules@),
            forall|i: int|
                0 <= i < old(self).home_modules@.len() ==> file_views(
                    #[trigger] final(self).home_modules@[i].files@,
                ) == recovered_files(
                    old(self).home_modules@,
                    old(self).home_modules@[i],
                    "homeModules"@,
                ),
            final(self).source == old(self).source,
    {
        Flake::recover_children(&mut self.nixos_modules, "nixosModules");
        Flake::recover_children(&mut self.home_modules, "homeModules");
    }
}

/// Source files as (path, content) character sequences.
pub open spec fn sources_view(sources: Seq<(String, String)>) -> Seq<(Seq<char>, Seq<char>)> {
    sources.map_values(|p: (String, String)| (p.0@, p.1@))
}

/// Index of the first of the sources from `k` on whose content matches `pattern`.
pub open spec fn first_match_from(sources: Seq<(Seq<char>, Seq<char>)>, pattern: Seq<char>, k: int) -> Option<int>
    decreases sources.len() - k,
{
    if k < 0 || k >= sources.len() {
        None
    } else if regex_matches(pattern, sources[k].1) == Some(true) {
        Some(k)
    } else {
        first_match_from(sources, pattern, k + 1)
    }
}

/// Module `m` once its entry file is recovered from `sources`: a module
/// without entry file adopts the first source defining `<attr>.<name> =`
/// (path, content, and that file as its only file); others are unchanged.
pub open spec fn path_recovered(
    m: Module,
    result: Module,
    attr: Seq<char>,
    sources: Seq<(Seq<char>, Seq<char>)>,
) -> bool {
    &&& result.name == m.name
    &&& result.added == m.added
    &&& if m.path is None {
        match first_match_from(sources, definition_pattern(attr, m.name@), 0) {
            Some(k) => {
                &&& opt_view(result.path) == Some(sources[k].0)
                &&& opt_view(result.content) == Some(sources[k].1)
                &&& file_views(result.files@) == seq![sources[k].0]
            },
            None => result == m,
        }
    } else {
        result == m
    }
}

impl Flake {
    /// Adopts the first file defining `<attr>.<name> =` (or
    /// `<attr>."name" =`) as the entry file of each module that has none;
    /// bare references inside `imports` (no `=`) do not count. `sources`
    /// are the `(path, content)` pairs of the source tree's `.nix` files.
    pub fn recover_paths(modules: &mut Vec<Module>, attr: &str, sources: &Vec<(String, String)>)
        ensures
            final(modules)@.len() == old(modules)@.len(),
            forall|i: int|
                0 <= i < old(modules)@.len() ==> path_recovered(
                    old(modules)@[i],
                    #[trigger] final(modules)@[i],
                    attr@,
                    sources_view(sources@),
                ),
    {
        let ghost ms0 = modules@;
        let ghost sv = sources_view(sources@);
        let n = modules.len();
        let mut i: usize = 0;
        while i < n
            invariant
                n == ms0.len(),
                ms0 == old(modules)@,
                sv == sources_view(sources@),
                i <= n,
                modules@.len() == n,
                forall|j: int| i <= j < n ==> #[trigger] modules@[j] == ms0[j],
                forall|j: int|
                    0 <= j < i ==> path_recovered(ms0[j], #[trigger] modules@[j], attr@, sv),
            decreases n - i,
        {
            if modules[i].path.is_none() {
                let escaped = regex_escape(modules[i].name.as_str());
                let mut pattern = attr.to_owned();
                pattern.append("\\.(?:");
                pattern.append(escaped.as_str());
                pattern.append("|\"");
                pattern.append(escaped.as_str());
                pattern.append("\")\\s*=");
                assert(pattern@ == definition_pattern(attr@, ms0[i as int].name@));
                let mut k: usize = 0;
                let mut found: Option<usize> = None;
                while k < sources.len() && found.is_none()
                    invariant
                        k <= sources@.len(),
                        sv == sources_view(sources@),
                        found is None ==> first_match_from(sv, pattern@, 0) == first_match_from(
                            sv,
                            pattern@,
                            k as int,
                        ),
                        found matches Some(f) ==> f < sources@.len() && first_match_from(
                            sv,
                            pattern@,
                            0,
                        ) == Some(f as int),
                    decreases sources@.len() - k,
                {
                    assert(sv[k as int].1 == sources@[k as int].1@);
                    if regex_is_match(pattern.as_str(), sources[k].1.as_str()) == Some(true) {
                        found = Some(k);
                    }
                    k = k + 1;
                }
                match found {
                    Some(k) => {
                        assert(first_match_from(sv, pattern@, 0) == Some(k as int));
                        let path = sources[k].0.clone();
                        let content = sources[k].1.clone();
                        assert(sv[k as int] == (sources@[k as int].0@, sources@[k as int].1@));
                        let files: Vec<String> = vec![path.clone()];
                        assert(file_views(files@) =~= seq![sv[k as int].0]);
                        let ghost before = modules@;
                        let mut m = modules.remove(i);
                        m.path = Some(path);
                        m.content = Some(content);
                        m.files = files;
                        modules.insert(i, m);
                        assert forall|j: int| 0 <= j < n && j != i implies #[trigger] modules@[j]
                            == before[j] by {}
                        assert(path_recovered(ms0[i as int], modules@[i as int], attr@, sv));
                    },
                    None => {},
                }
            }
            i = i + 1;
        }
    }

    /// Finds definition sites for modules the eval left opaque (top-level
    /// function modules have no `_file`) among the `.nix` files of the
    /// source tree, for the NixOS and the Home Manager modules.
    pub fn recover_missing_module_paths(&mut self, sources: &Vec<(String, String)>)
        ensures
            final(self).nixos_modules@.len() == old(self).nixos_modules@.len(),
            forall|i: int|
                0 <= i < old(self).nixos_modules@.len() ==> path_recovered(
                    old(self).nixos_modules@[i],
                    #[trigger] final(self).nixos_modules@[i],
                    "nixosModules"@,
                    sources_view(sources@),
                ),
            final(self).home_modules@.len() == old(self).home_modules@.len(),
            forall|i: int|
                0 <= i < old(self).home_modules@.len() ==> path_recovered(
                    old(self).home_modules@[i],
                    #[trigger] final(self).home_modules@[i],
                    "homeModules"@,
                    sources_view(sources@),
                ),
            final(self).source == old(self).source,
    {
        Flake::recover_paths(&mut self.nixos_modules, "nixosModules", sources);
        Flake::recover_paths(&mut self.home_modules, "homeModules", sources);
    }
}

/// `after` is `before` with entry files adopted from `sources` for the
/// modules of `attr` that had none.
pub open spec fn paths_recovered(
    before: Seq<Module>,
    after: Seq<Module>,
    attr: Seq<char>,
    sources: Seq<(Seq<char>, Seq<char>)>,
) -> bool {
    &&& after.len() == before.len()
    &&& forall|i: int| 0 <= i < before.len() ==> path_recovered(before[i], #[trigger] after[i], attr, sources)
}

/// `after` is `before` with the children of function modules recovered.
pub open spec fn children_recovered(before: Seq<Module>, after: Seq<Module>, attr: Seq<char>) -> bool {
    &&& same_but_files(before, after)
    &&& forall|i: int|
        0 <= i < before.len() ==> file_views(#[trigger] after[i].files@) == recovered_files(
            before,
            before[i],
            attr,
        )
}

/// `after` is `before` with the added flags cascaded down the module tree.
pub open spec fn flags_cascaded(before: Seq<Module>, after: Seq<Module>) -> bool {
    &&& same_but_added(before, after)
    &&& added_flags(after) == cascade_from(added_flags(before), spec_module_tree(before), 0)
}

/// `result` is what the modules `given` by the evaluation become: entry
/// files recovered first, since children can only be recovered from an
/// entry file, then children, then the added flags cascaded down the final
/// tree.
pub open spec fn modules_settled(
    given: Seq<Module>,
    result: Seq<Module>,
    attr: Seq<char>,
    sources: Seq<(Seq<char>, Seq<char>)>,
) -> bool {
    exists|p: Seq<Module>, c: Seq<Module>|
        #![trigger paths_recovered(given, p, attr, sources), children_recovered(p, c, attr)]
        paths_recovered(given, p, attr, sources) && children_recovered(p, c, attr)
            && flags_cascaded(c, result)
}

impl Flake {
    /// Installs the modules the evaluation found, `nixos` and `home` (each
    /// already marked added as the configuration asks), and completes them
    /// from the `(path, content)` pairs of the source tree's `.nix` files.
    pub fn extract_modules(&mut self, nixos: Vec<Module>, home: Vec<Module>, sources: &Vec<(String, String)>)
        ensures
            modules_settled(nixos@, final(self).nixos_modules@, "nixosModules"@, sources_view(sources@)),
            modules_settled(home@, final(self).home_modules@, "homeModules"@, sources_view(sources@)),
            final(self).source == old(self).source,
    {
        let ghost given_nixos = nixos@;
        let ghost given_home = home@;
        self.nixos_modules = nixos;
        self.home_modules = home;
        self.recover_missing_module_paths(sources);
        let ghost p_nixos = self.nixos_modules@;
        let ghost p_home = self.home_modules@;
        self.recover_function_module_children();
        let ghost c_nixos = self.nixos_modules@;
        let ghost c_home = self.home_modules@;
        self.cascade_added_modules();
        assert(paths_recovered(given_nixos, p_nixos, "nixosModules"@, sources_view(sources@)));
        assert(children_recovered(p_nixos, c_nixos, "nixosModules"@));
        assert(flags_cascaded(c_nixos, self.nixos_modules@));
        assert(paths_recovered(given_home, p_home, "homeModules"@, sources_view(sources@)));
        assert(children_recovered(p_home, c_home, "homeModules"@));
        assert(flags_cascaded(c_home, self.home_modules@));
    }
}

/// Whether the walk for `.nix` sources enters a directory of this name:
/// not `.git`, and not `hosts`, whose host configs reference most modules.
pub open spec fn spec_walks_into(name: Seq<char>) -> bool {
    name != ".git"@ && name != "hosts"@
}

/// Whether the walk for `.nix` sources enters a directory of this name.
pub fn walks_into(name: &str) -> (r: bool)
    ensures
        r == spec_walks_into(name@),
{
    let v = chars_of(name);
    !(crate::text::is_word(v.as_slice(), ".git") || crate::text::is_word(v.as_slice(), "hosts"))
}

} // verus!
