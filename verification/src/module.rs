//! A `nixosModules` (or `homeModules`) entry of the source config.

use vstd::prelude::*;

use crate::text::{chars_of, find_from, find_from_exec, string_of_range};

verus! {

/// A `nixosModules` entry of the source config.
#[derive(Debug, PartialEq, Eq)]
pub struct Module {
    /// Module name (attribute in `nixosModules`).
    pub name: String,
    /// Path of the module's entry file.
    pub path: Option<String>,
    /// Source content of the entry file.
    pub content: Option<String>,
    /// Transitive source files collected through the module's imports.
    pub files: Vec<String>,
    /// Whether the module is selected for export.
    pub added: bool,
}

/// The marker the Nix module system appends to the file that defines an
/// option-declared module: `/repo/desktop.nix, via option flake.nixosModules.desktop`.
pub open spec fn via_marker() -> Seq<char> {
    ", via option"@
}

/// A raw eval file entry with its `, via option …` suffix removed.
pub open spec fn normalized_file(raw: Seq<char>) -> Seq<char> {
    match find_from(raw, via_marker(), 0) {
        Some(k) => raw.take(k),
        None => raw,
    }
}

/// The entry file: the first raw entry carrying the `, via option` marker,
/// without its suffix.
pub open spec fn entry_path_of(raw: Seq<Seq<char>>) -> Option<Seq<char>>
    decreases raw.len(),
{
    if raw.len() == 0 {
        None
    } else if find_from(raw[0], via_marker(), 0) is Some {
        Some(normalized_file(raw[0]))
    } else {
        entry_path_of(raw.drop_first())
    }
}

/// The views of a list of strings.
pub open spec fn views(list: Seq<String>) -> Seq<Seq<char>> {
    list.map_values(|s: String| s@)
}

/// An optional string, seen by its characters.
pub open spec fn opt_view(o: Option<String>) -> Option<Seq<char>> {
    match o {
        Some(s) => Some(s@),
        None => None,
    }
}

/// Removes the `, via option …` suffix of one raw entry, if present.
pub fn normalize_file(raw: &String) -> (r: String)
    ensures
        r@ == normalized_file(raw@),
{
    let v = chars_of(raw.as_str());
    let marker = chars_of(", via option");
    match find_from_exec(&v, &marker, 0) {
        Some(k) => {
            proof {
                crate::trim::generate::lemma_find_from_bounds(v@, marker@, 0);
            }
            let r = string_of_range(&v, 0, k);
            assert(v@.subrange(0, k as int) =~= v@.take(k as int));
            r
        },
        None => raw.clone(),
    }
}

impl Module {
    /// The entry file of a module: the first raw entry carrying the
    /// `, via option` marker, without its suffix.
    pub fn entry_path(files: &Vec<String>) -> (r: Option<String>)
        ensures
            opt_view(r) == entry_path_of(views(files@)),
    {
        let marker = chars_of(", via option");
        let mut i: usize = 0;
        assert(views(files@).skip(0) =~= views(files@));
        while i < files.len()
            invariant
                i <= files@.len(),
                marker@ == via_marker(),
                entry_path_of(views(files@)) == entry_path_of(views(files@).skip(i as int)),
            decreases files@.len() - i,
        {
            let v = chars_of(files[i].as_str());
            let ghost rest = views(files@).skip(i as int);
            assert(rest[0] == files@[i as int]@);
            assert(rest.drop_first() =~= views(files@).skip(i + 1));
            if find_from_exec(&v, &marker, 0).is_some() {
                return Some(normalize_file(&files[i]));
            }
            i = i + 1;
        }
        assert(views(files@).skip(i as int) =~= Seq::<Seq<char>>::empty());
        None
    }

    /// Every raw entry with its `, via option …` suffix removed.
    pub fn normalize_files(files: &Vec<String>) -> (r: Vec<String>)
        ensures
            views(r@) == views(files@).map_values(|f: Seq<char>| normalized_file(f)),
    {
        let mut r: Vec<String> = Vec::new();
        let mut i: usize = 0;
        while i < files.len()
            invariant
                i <= files@.len(),
                views(r@) =~= views(files@).take(i as int).map_values(
                    |f: Seq<char>| normalized_file(f),
                ),
            decreases files@.len() - i,
        {
            let n = normalize_file(&files[i]);
            let ghost prev = views(r@);
            r.push(n);
            assert(views(r@) =~= prev.push(normalized_file(files@[i as int]@)));
            assert(views(files@).take(i + 1) =~= views(files@).take(i as int).push(
                files@[i as int]@,
            ));
            i = i + 1;
            assert(views(r@) =~= views(files@).take(i as int).map_values(
                |f: Seq<char>| normalized_file(f),
            ));
        }
        assert(views(files@).take(files@.len() as int) =~= views(files@));
        r
    }

    /// Builds a module from the file list collected by the Nix eval.
    ///
    /// The entry file is the first entry carrying the `, via option` marker;
    /// every entry is stored without that suffix. `entry_content` is the
    /// content read from the entry file; it is kept only when there is an
    /// entry file.
    pub fn from_files(name: String, files: Vec<String>, added: bool, entry_content: Option<
        String,
    >) -> (m: Module)
        ensures
            m.name == name,
            opt_view(m.path) == entry_path_of(views(files@)),
            m.content == (if m.path is Some { entry_content } else { None }),
            views(m.files@) == views(files@).map_values(|f: Seq<char>| normalized_file(f)),
            m.added == added,
    {
        let path = Module::entry_path(&files);
        let content = match path {
            Some(_) => entry_content,
            None => None,
        };
        let files = Module::normalize_files(&files);
        Module { name, path, content, files, added }
    }
}

} // verus!
