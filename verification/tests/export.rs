use flamingo::trim::deps::{ScanResult, Warning};
use flamingo::trim::{
    plan_export, select_modules, ExportModule, ExportRequest, FileSource, Selection,
};

fn module(name: &str, path: Option<&str>, top_level: bool) -> ExportModule {
    ExportModule { name: name.into(), path: path.map(str::to_string), top_level }
}

fn request(modules: Vec<ExportModule>) -> ExportRequest {
    ExportRequest {
        source: "/src".into(),
        hostname: "myhost".into(),
        output_dir: "/out/new-config".into(),
        modules,
    }
}

const FLAKE: &str = r#"{
  description = "fixture";
  inputs = {
    nixpkgs.url = "github:NixOS/nixpkgs/nixos-unstable";
  };
  outputs = { self, nixpkgs, ... }@inputs: {
    nixosModules.foo = ./modules/foo.nix;
  };
}"#;

#[test]
fn select_modules_keeps_modules_inside_the_tree() {
    let modules = vec![
        module("foo", Some("/src/modules/foo.nix"), true),
        module("bar", None, true),
        module("baz", Some("/elsewhere/baz.nix"), true),
        module("child", Some("/src/modules/child.nix"), false),
    ];
    let canonical = vec![
        Some("/src/modules/foo.nix".to_string()),
        None,
        Some("/elsewhere/baz.nix".to_string()),
        Some("/src/modules/child.nix".to_string()),
    ];
    let selection = select_modules("/src", &modules, &canonical).unwrap();
    assert_eq!(
        selection.seeds,
        vec!["/src/modules/foo.nix".to_string(), "/src/modules/child.nix".to_string()]
    );
    assert_eq!(
        selection.wired,
        vec!["modules/foo.nix".to_string(), "modules/child.nix".to_string()]
    );
    assert_eq!(
        selection.warnings,
        vec![
            Warning::UnresolvedModule { name: "bar".into() },
            Warning::UnresolvedModule { name: "baz".into() },
        ]
    );
}

#[test]
fn select_modules_refuses_an_empty_export() {
    let modules = vec![module("bar", None, true)];
    assert_eq!(
        select_modules("/src", &modules, &vec![None]).unwrap_err(),
        "no exportable modules selected"
    );
    // A module without a canonical path given counts as unresolved.
    let modules = vec![module("foo", Some("/src/foo.nix"), true)];
    assert!(select_modules("/src", &modules, &vec![]).is_err());
}

fn scanned() -> ScanResult {
    ScanResult {
        files: vec![
            "/src/modules/foo.nix".to_string(),
            "/src/common/default.nix".to_string(),
            "/src/common/base.nix".to_string(),
            "/src/scripts/hello.sh".to_string(),
        ],
        warnings: vec![Warning::Dynamic { file: "/src/modules/foo.nix".into(), literal: "./x/".into() }],
    }
}

fn selection() -> Selection {
    Selection {
        seeds: vec!["/src/modules/foo.nix".to_string()],
        wired: vec!["modules/foo.nix".to_string()],
        warnings: vec![],
    }
}

#[test]
fn plan_export_creates_standalone_config() {
    let req = request(vec![module("foo", Some("/src/modules/foo.nix"), true)]);
    let plan = plan_export(
        &req,
        "/src",
        selection(),
        scanned(),
        FLAKE,
        true,
        Some("25.05".to_string()),
        Some(vec!["laptop".to_string()]),
    );
    let paths: Vec<&str> = plan.files.iter().map(|f| f.path.as_str()).collect();
    assert_eq!(
        paths,
        vec![
            "modules/foo.nix",
            "common/default.nix",
            "common/base.nix",
            "scripts/hello.sh",
            "flake.nix",
            "flake.lock",
            "hosts/myhost/default.nix",
            "hosts/myhost/hardware-configuration.nix",
        ]
    );
    match &plan.files[0].source {
        FileSource::Copy { from } => assert_eq!(from, "/src/modules/foo.nix"),
        FileSource::Text { .. } => panic!("scanned files are copied"),
    }
    match &plan.files[5].source {
        FileSource::Copy { from } => assert_eq!(from, "/src/flake.lock"),
        FileSource::Text { .. } => panic!("the lock is copied"),
    }
    match &plan.files[4].source {
        FileSource::Text { text } => {
            assert!(text.contains("github:NixOS/nixpkgs/nixos-unstable"));
            assert!(text.contains("myhost — trimmed from /src by flamingo"));
            assert!(text.contains("nixosConfigurations.myhost"));
            assert!(text.contains("./hosts/myhost"));
            assert!(text.contains("./modules/foo.nix"));
        }
        FileSource::Copy { .. } => panic!("flake.nix is generated"),
    }
    match &plan.files[6].source {
        FileSource::Text { text } => {
            assert!(text.contains("networking.hostName = \"myhost\";"));
            assert!(text.contains("./hardware-configuration.nix"));
            assert!(text.contains("system.stateVersion = \"25.05\";"));
        }
        FileSource::Copy { .. } => panic!("the host scaffold is generated"),
    }
    match &plan.files[7].source {
        FileSource::Text { text } => assert!(text.contains("nixos-generate-config")),
        FileSource::Copy { .. } => panic!("the hardware placeholder is generated"),
    }
    assert_eq!(plan.report.output_dir, "/out/new-config");
    assert_eq!(
        plan.report.files_written,
        vec![
            "common/base.nix".to_string(),
            "common/default.nix".to_string(),
            "flake.lock".to_string(),
            "flake.nix".to_string(),
            "hosts/myhost/default.nix".to_string(),
            "hosts/myhost/hardware-configuration.nix".to_string(),
            "modules/foo.nix".to_string(),
            "scripts/hello.sh".to_string(),
        ]
    );
    assert_eq!(
        plan.report.warnings,
        vec![Warning::Dynamic { file: "/src/modules/foo.nix".into(), literal: "./x/".into() }]
    );
}

#[test]
fn plan_export_reports_missing_facts() {
    let req = request(vec![module("foo", Some("/src/modules/foo.nix"), true)]);
    let mut sel = selection();
    sel.warnings.push(Warning::UnresolvedModule { name: "bar".into() });
    let plan = plan_export(
        &req,
        "/src",
        sel,
        ScanResult { files: vec!["/src/modules/foo.nix".into(), "/other/x.nix".into()], warnings: vec![] },
        "",
        false,
        None,
        Some(vec!["myhost".to_string()]),
    );
    // Files outside the tree are not copied; no lock is copied.
    assert_eq!(plan.files.len(), 4);
    assert!(!plan.report.files_written.contains(&"flake.lock".to_string()));
    match &plan.files[1].source {
        FileSource::Text { text } => {
            assert!(text.contains("inputs.nixpkgs.url = \"github:NixOS/nixpkgs/nixos-unstable\";"))
        }
        FileSource::Copy { .. } => panic!("flake.nix is generated"),
    }
    assert_eq!(
        plan.report.warnings,
        vec![
            Warning::UnresolvedModule { name: "bar".into() },
            Warning::NoInputs,
            Warning::NoStateVersion,
            Warning::HostnameExists { hostname: "myhost".into() },
        ]
    );
}
