//! Trimming a source config into a fresh standalone host config.

pub mod deps;
pub mod generate;
pub mod standalone;

use vstd::prelude::*;

use crate::config::module::{contains_name, names_contain};
use crate::module::opt_view;
use crate::path::{join_path, relative_to, sort_paths, sorted_paths, spec_join_path, spec_relative_to};
use crate::trim::deps::{ScanResult, Warning};
use crate::trim::generate::{
    extract_inputs, hardware_placeholder, spec_extract_inputs, spec_hardware_placeholder,
};
use crate::trim::standalone::{flake_nix, host_default_nix, spec_flake_nix, spec_host_default_nix};

verus! {

/// A module chosen for export.
#[derive(Debug, Clone)]
pub struct ExportModule {
    /// Module name (attribute in `nixosModules`).
    pub name: String,
    /// Absolute path of the module's entry file, if resolved.
    pub path: Option<String>,
    /// Whether no other exported module reaches the module: it is a root of
    /// the selection rather than one that arrives through another.
    pub top_level: bool,
}

/// Everything needed to generate a new host config.
#[derive(Debug, Clone)]
pub struct ExportRequest {
    /// Source flake reference (path or URL form).
    pub source: String,
    /// Name of the new host.
    pub hostname: String,
    /// Directory to create the new config in.
    pub output_dir: String,
    /// Modules to export.
    pub modules: Vec<ExportModule>,
}

/// Outcome of a successful export.
#[derive(Debug, Clone)]
pub struct ExportReport {
    /// Where the new config was written.
    pub output_dir: String,
    /// Repo-relative files that were written, sorted.
    pub files_written: Vec<String>,
    /// Non-fatal problems encountered.
    pub warnings: Vec<Warning>,
}


/// The entry file found on disk for the `i`-th exported module, if any.
pub open spec fn canonical_at(canonical: Seq<Option<String>>, i: int) -> Option<Seq<char>> {
    if 0 <= i < canonical.len() {
        match canonical[i] {
            Some(p) => Some(p@),
            None => None,
        }
    } else {
        None
    }
}

/// The `i`-th exported module has an entry file inside the source tree.
pub open spec fn exportable(root: Seq<char>, canonical: Seq<Option<String>>, i: int) -> bool {
    canonical_at(canonical, i) matches Some(p) && spec_relative_to(root, p) is Some
}

/// Entry files of the first `k` modules that are exportable, in order.
pub open spec fn selected_seeds(root: Seq<char>, canonical: Seq<Option<String>>, k: int) -> Seq<
    Seq<char>,
>
    decreases k,
{
    if k <= 0 {
        Seq::empty()
    } else if exportable(root, canonical, k - 1) {
        selected_seeds(root, canonical, k - 1).push(canonical_at(canonical, k - 1)->0)
    } else {
        selected_seeds(root, canonical, k - 1)
    }
}

/// Entry files of the first `k` exportable modules, relative to `root`, in
/// order: the paths by which the new flake wires them.
pub open spec fn selected_wired(root: Seq<char>, canonical: Seq<Option<String>>, k: int) -> Seq<
    Seq<char>,
>
    decreases k,
{
    if k <= 0 {
        Seq::empty()
    } else if exportable(root, canonical, k - 1) {
        selected_wired(root, canonical, k - 1).push(
            spec_relative_to(root, canonical_at(canonical, k - 1)->0)->0,
        )
    } else {
        selected_wired(root, canonical, k - 1)
    }
}

/// A warning for each of the first `k` modules that is not exportable.
pub open spec fn skipped_warnings(
    root: Seq<char>,
    modules: Seq<ExportModule>,
    canonical: Seq<Option<String>>,
    k: int,
) -> Seq<Warning>
    decreases k,
{
    if k <= 0 {
        Seq::empty()
    } else if exportable(root, canonical, k - 1) {
        skipped_warnings(root, modules, canonical, k - 1)
    } else {
        skipped_warnings(root, modules, canonical, k - 1).push(
            Warning::UnresolvedModule { name: modules[k - 1].name },
        )
    }
}

/// The views of a list of strings.
pub open spec fn string_views(v: Seq<String>) -> Seq<Seq<char>> {
    v.map_values(|s: String| s@)
}

/// The modules of an export that can be exported.
#[derive(Debug)]
pub struct Selection {
    /// Canonical entry files of the exportable modules: where the scan starts.
    pub seeds: Vec<String>,
    /// Entry files of the exportable modules relative to the source tree,
    /// by which the new flake wires them.
    pub wired: Vec<String>,
    /// One warning per module without an entry file inside the source tree.
    pub warnings: Vec<Warning>,
}

/// The message of an export with nothing to export.
pub open spec fn nothing_to_export() -> Seq<char> {
    "no exportable modules selected"@
}

/// Splits the modules of an export into those whose entry file lies inside
/// the source tree `root` and those skipped with a warning. `canonical[i]`
/// is the canonical entry file of `modules[i]`, when it was found on disk.
/// Fails when no module can be exported.
pub fn select_modules(root: &str, modules: &Vec<ExportModule>, canonical: &Vec<Option<String>>) -> (r:
    Result<Selection, String>)
    ensures
        match r {
            Ok(sel) => {
                &&& selected_seeds(root@, canonical@, modules@.len() as int).len() > 0
                &&& string_views(sel.seeds@) == selected_seeds(
                    root@,
                    canonical@,
                    modules@.len() as int,
                )
                &&& string_views(sel.wired@) == selected_wired(
                    root@,
                    canonical@,
                    modules@.len() as int,
                )
                &&& sel.warnings@ == skipped_warnings(
                    root@,
                    modules@,
                    canonical@,
                    modules@.len() as int,
                )
            },
            Err(msg) => {
                &&& selected_seeds(root@, canonical@, modules@.len() as int).len() == 0
                &&& msg@ == nothing_to_export()
            },
        },
{
    let mut seeds: Vec<String> = Vec::new();
    let mut wired: Vec<String> = Vec::new();
    let mut warnings: Vec<Warning> = Vec::new();
    let mut i: usize = 0;
    while i < modules.len()
        invariant
            i <= modules@.len(),
            string_views(seeds@) == selected_seeds(root@, canonical@, i as int),
            string_views(wired@) == selected_wired(root@, canonical@, i as int),
            warnings@ == skipped_warnings(root@, modules@, canonical@, i as int),
        decreases modules@.len() - i,
    {
        let found: Option<String> = if i < canonical.len() {
            canonical[i].clone()
        } else {
            None
        };
        assert(match found {
            Some(p) => canonical_at(canonical@, i as int) == Some(p@),
            None => canonical_at(canonical@, i as int) is None,
        });
        let module = &modules[i];
        let mut taken = false;
        if let Some(path) = found {
            if let Some(rel) = relative_to(root, path.as_str()) {
                taken = true;
                assert(string_views(seeds@.push(path)) =~= string_views(seeds@).push(path@));
                seeds.push(path);
                assert(string_views(wired@.push(rel)) =~= string_views(wired@).push(rel@));
                wired.push(rel);
            }
        }
        if !taken {
            warnings.push(Warning::UnresolvedModule { name: module.name.clone() });
        }
        i = i + 1;
    }
    if seeds.len() == 0 {
        proof {
            reveal_strlit("no exportable modules selected");
        }
        return Err("no exportable modules selected".to_owned());
    }
    Ok(Selection { seeds, wired, warnings })
}

/// What a staged file holds.
#[derive(Debug)]
pub enum FileSource {
    /// A copy of a file of the source tree.
    Copy {
        /// Absolute path of the file copied.
        from: String,
    },
    /// Generated text.
    Text {
        /// The text.
        text: String,
    },
}

/// A file of the new config.
#[derive(Debug)]
pub struct PlannedFile {
    /// Path relative to the output directory.
    pub path: String,
    /// What the file holds.
    pub source: FileSource,
}

/// A planned file as `(relative path, copied?, source path or text)`.
pub open spec fn file_view(f: PlannedFile) -> (Seq<char>, bool, Seq<char>) {
    match f.source {
        FileSource::Copy { from } => (f.path@, true, from@),
        FileSource::Text { text } => (f.path@, false, text@),
    }
}

/// The files of the new config and the report the export returns.
#[derive(Debug)]
pub struct ExportPlan {
    /// Files to stage, in order.
    pub files: Vec<PlannedFile>,
    /// The outcome to report once the files are in place.
    pub report: ExportReport,
}

/// The first `k` scanned files that lie in the source tree, each copied to
/// its path relative to `root`.
pub open spec fn copied_files(root: Seq<char>, scanned: Seq<String>, k: int) -> Seq<
    (Seq<char>, bool, Seq<char>),
>
    decreases k,
{
    if k <= 0 {
        Seq::empty()
    } else {
        match spec_relative_to(root, scanned[k - 1]@) {
            Some(rel) => copied_files(root, scanned, k - 1).push((rel, true, scanned[k - 1]@)),
            None => copied_files(root, scanned, k - 1),
        }
    }
}

/// The inputs written when the source flake declares none.
pub open spec fn default_inputs() -> Seq<char> {
    "inputs.nixpkgs.url = \"github:NixOS/nixpkgs/nixos-unstable\";"@
}

/// The inputs of the new flake: those lifted from the source flake, or the
/// default nixpkgs input.
pub open spec fn lifted_inputs(flake_src: Seq<char>) -> Seq<char> {
    match spec_extract_inputs(flake_src) {
        Some(inputs) => inputs,
        None => default_inputs(),
    }
}

/// Directory of the new host's scaffold: `hosts/<hostname>`.
pub open spec fn host_dir(hostname: Seq<char>) -> Seq<char> {
    spec_join_path("hosts"@, hostname)
}

/// Every file of the new config, in staging order: the scanned files of
/// the source tree at their paths relative to `root`, `flake.nix` wiring
/// the host and the `wired` module paths, the source's `flake.lock` when it
/// exists, then the host's `default.nix` and the hardware placeholder
/// `hardware-configuration.nix` under `hosts/<hostname>`.
pub open spec fn spec_plan_files(
    root: Seq<char>,
    request: ExportRequest,
    wired: Seq<Seq<char>>,
    scanned: Seq<String>,
    flake_src: Seq<char>,
    lock_exists: bool,
    state_version: Option<Seq<char>>,
) -> Seq<(Seq<char>, bool, Seq<char>)> {
    let host = host_dir(request.hostname@);
    copied_files(root, scanned, scanned.len() as int) + seq![
        (
            "flake.nix"@,
            false,
            spec_flake_nix(lifted_inputs(flake_src), request.hostname@, request.source@, wired),
        ),
    ] + if lock_exists {
        seq![("flake.lock"@, true, spec_join_path(root, "flake.lock"@))]
    } else {
        Seq::empty()
    } + seq![
        (
            spec_join_path(host, "default.nix"@),
            false,
            spec_host_default_nix(request.hostname@, state_version),
        ),
        (spec_join_path(host, "hardware-configuration.nix"@), false, spec_hardware_placeholder()),
    ]
}

/// The warnings of an export, in the order they arise: skipped modules,
/// scan problems, missing inputs, unknown release, then a hostname that the
/// source config already defines.
pub open spec fn spec_plan_warnings(
    skipped: Seq<Warning>,
    scanned: Seq<Warning>,
    flake_src: Seq<char>,
    state_version_known: bool,
    hosts: Option<Seq<String>>,
    hostname: String,
) -> Seq<Warning> {
    skipped + scanned + if spec_extract_inputs(flake_src) is None {
        seq![Warning::NoInputs]
    } else {
        Seq::empty()
    } + if state_version_known {
        Seq::empty()
    } else {
        seq![Warning::NoStateVersion]
    } + match hosts {
        Some(h) => if names_contain(h, hostname@) {
            seq![Warning::HostnameExists { hostname }]
        } else {
            Seq::empty()
        },
        None => Seq::empty(),
    }
}

/// Plans the new config for `request` once the source has been examined:
/// `root` is the source tree, `selection` the exportable modules, `scan`
/// the files they depend on, `flake_src` the source `flake.nix` (empty when
/// unreadable), `lock_exists` whether the source has a `flake.lock`,
/// `state_version` the nixpkgs release and `hosts` the source's host names,
/// when they could be evaluated.
///
/// The report lists every planned file, sorted by path.
pub fn plan_export(
    request: &ExportRequest,
    root: &str,
    selection: Selection,
    scan: ScanResult,
    flake_src: &str,
    lock_exists: bool,
    state_version: Option<String>,
    hosts: Option<Vec<String>>,
) -> (plan: ExportPlan)
    ensures
        plan.files@.map_values(|f: PlannedFile| file_view(f)) == spec_plan_files(
            root@,
            *request,
            string_views(selection.wired@),
            scan.files@,
            flake_src@,
            lock_exists,
            match state_version {
                Some(v) => Some(v@),
                None => None,
            },
        ),
        plan.report.output_dir == request.output_dir,
        sorted_paths(plan.report.files_written@),
        plan.report.files_written@.to_multiset() == plan.files@.map_values(
            |f: PlannedFile| f.path,
        ).to_multiset(),
        plan.report.warnings@ == spec_plan_warnings(
            selection.warnings@,
            scan.warnings@,
            flake_src@,
            state_version is Some,
            match hosts {
                Some(h) => Some(h@),
                None => None,
            },
            request.hostname,
        ),
{
    let ghost spec_files = spec_plan_files(
        root@,
        *request,
        string_views(selection.wired@),
        scan.files@,
        flake_src@,
        lock_exists,
        opt_view(state_version),
    );
    let mut files: Vec<PlannedFile> = Vec::new();
    let mut paths: Vec<String> = Vec::new();
    let mut i: usize = 0;
    while i < scan.files.len()
        invariant
            i <= scan.files@.len(),
            files@.map_values(|f: PlannedFile| file_view(f)) == copied_files(
                root@,
                scan.files@,
                i as int,
            ),
            paths@ == files@.map_values(|f: PlannedFile| f.path),
        decreases scan.files@.len() - i,
    {
        let file = &scan.files[i];
        match relative_to(root, file.as_str()) {
            Some(rel) => {
                let planned = PlannedFile {
                    path: rel.clone(),
                    source: FileSource::Copy { from: file.clone() },
                };
                let ghost fv = file_view(planned);
                files.push(planned);
                paths.push(rel);
                assert(files@.map_values(|f: PlannedFile| file_view(f)) =~= copied_files(
                    root@,
                    scan.files@,
                    i as int,
                ).push(fv));
                assert(paths@ =~= files@.map_values(|f: PlannedFile| f.path));
            },
            None => {},
        }
        i = i + 1;
    }
    let mut warnings = selection.warnings;
    let mut scan_warnings = scan.warnings;
    warnings.append(&mut scan_warnings);
    let inputs = match extract_inputs(flake_src) {
        Some(inputs) => inputs,
        None => {
            warnings.push(Warning::NoInputs);
            "inputs.nixpkgs.url = \"github:NixOS/nixpkgs/nixos-unstable\";".to_owned()
        },
    };
    let ghost copies = files@;
    push_planned(
        &mut files,
        &mut paths,
        "flake.nix".to_owned(),
        FileSource::Text {
            text: flake_nix(
                inputs.as_str(),
                request.hostname.as_str(),
                request.source.as_str(),
                selection.wired.as_slice(),
            ),
        },
    );
    if lock_exists {
        push_planned(
            &mut files,
            &mut paths,
            "flake.lock".to_owned(),
            FileSource::Copy { from: join_path(root, "flake.lock") },
        );
    }
    let ghost before_host = files@;
    let host = join_path("hosts", request.hostname.as_str());
    let version: Option<&str> = match &state_version {
        Some(v) => Some(v.as_str()),
        None => None,
    };
    if state_version.is_none() {
        warnings.push(Warning::NoStateVersion);
    }
    push_planned(
        &mut files,
        &mut paths,
        join_path(host.as_str(), "default.nix"),
        FileSource::Text {
            text: host_default_nix(request.hostname.as_str(), version),
        },
    );
    push_planned(
        &mut files,
        &mut paths,
        join_path(host.as_str(), "hardware-configuration.nix"),
        FileSource::Text { text: hardware_placeholder() },
    );
    match &hosts {
        Some(h) => {
            if contains_name(h, &request.hostname) {
                warnings.push(Warning::HostnameExists { hostname: request.hostname.clone() });
            }
        },
        None => {},
    }
    proof {
        reveal_strlit("inputs.nixpkgs.url = \"github:NixOS/nixpkgs/nixos-unstable\";");
        assert(files@.map_values(|f: PlannedFile| file_view(f)) =~= spec_files);
        assert(warnings@ =~= spec_plan_warnings(
            selection.warnings@,
            scan.warnings@,
            flake_src@,
            state_version is Some,
            match hosts {
                Some(h) => Some(h@),
                None => None,
            },
            request.hostname,
        ));
    }
    let files_written = sort_paths(paths);
    ExportPlan {
        files,
        report: ExportReport { output_dir: request.output_dir.clone(), files_written, warnings },
    }
}

/// Appends a planned file, keeping the list of paths in step.
fn push_planned(
    files: &mut Vec<PlannedFile>,
    paths: &mut Vec<String>,
    path: String,
    source: FileSource,
)
    requires
        old(paths)@ == old(files)@.map_values(|f: PlannedFile| f.path),
    ensures
        final(files)@ == old(files)@.push(PlannedFile { path, source }),
        final(paths)@ == final(files)@.map_values(|f: PlannedFile| f.path),
{
    paths.push(path.clone());
    files.push(PlannedFile { path, source });
    assert(paths@ =~= files@.map_values(|f: PlannedFile| f.path));
}

} // verus!

verus! {

/// Every scanned file copied into the new config keeps its place: its path
/// in the new config, joined to the source root, is the file it copies
/// (for a non-empty root, and a relative path that is neither empty nor
/// absolute).
pub proof fn lemma_copies_mirror_the_tree(root: Seq<char>, scanned: Seq<String>, k: int, i: int)
    requires
        root.len() > 0,
        0 <= i < copied_files(root, scanned, k).len(),
        copied_files(root, scanned, k)[i].0.len() > 0,
        copied_files(root, scanned, k)[i].0[0] != '/',
    ensures
        copied_files(root, scanned, k)[i].1,
        spec_join_path(root, copied_files(root, scanned, k)[i].0) == copied_files(
            root,
            scanned,
            k,
        )[i].2,
    decreases k,
{
    if k > 0 {
        let prev = copied_files(root, scanned, k - 1);
        match spec_relative_to(root, scanned[k - 1]@) {
            Some(rel) => {
                if i < prev.len() {
                    lemma_copies_mirror_the_tree(root, scanned, k - 1, i);
                } else {
                    crate::path::lemma_join_relative(root, scanned[k - 1]@);
                }
            },
            None => {
                lemma_copies_mirror_the_tree(root, scanned, k - 1, i);
            },
        }
    }
}

} // verus!
