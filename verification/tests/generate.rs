use flamingo::trim::generate::{
    capitalize, extract_inputs, flake_nix, hardware_placeholder, host_default_nix,
    host_hardware_nix,
};

#[test]
fn test_extract_inputs_block() {
    let src = r#"{
  description = "cfg";
  inputs = {
    nixpkgs.url = "github:NixOS/nixpkgs/nixos-unstable";
    home-manager = {
      url = "github:nix-community/home-manager";
      inputs.nixpkgs.follows = "nixpkgs";
    };
  };
  outputs = { self, nixpkgs, ... }@inputs: { };
}"#;
    let inputs = extract_inputs(src).unwrap();
    assert!(inputs.starts_with("inputs = {"));
    assert!(inputs.contains("home-manager"));
    assert!(inputs.trim_end().ends_with("};"));
    // The nested `inputs.nixpkgs.follows` must not be extracted twice.
    assert_eq!(inputs.matches("follows").count(), 1);
}

#[test]
fn test_extract_inputs_dotted_and_none() {
    let src = "{\n  inputs.nixpkgs.url = \"github:NixOS/nixpkgs\";\n  outputs = { nixpkgs, ... }@inputs: { };\n}";
    assert_eq!(
        extract_inputs(src).unwrap(),
        "inputs.nixpkgs.url = \"github:NixOS/nixpkgs\";"
    );
    assert_eq!(extract_inputs("{ outputs = _: { }; }"), None);
}

#[test]
fn test_extract_inputs_ignores_usages() {
    let src = r#"{
  inputs = {
    nixpkgs.url = "github:NixOS/nixpkgs";
  };
  outputs = inputs: inputs.flake-parts.lib.mkFlake { inherit inputs; } (inputs.import-tree ./modules);
}"#;
    let inputs = extract_inputs(src).unwrap();
    assert!(inputs.contains("nixpkgs.url"));
    assert!(!inputs.contains("mkFlake"));
    assert!(!inputs.contains("import-tree"));
}

#[test]
fn test_flake_nix() {
    let out = flake_nix(
        "inputs.nixpkgs.url = \"github:NixOS/nixpkgs\";",
        "myhost",
        "github:wallago/nix-config",
    );
    assert!(out.contains("trimmed from github:wallago/nix-config"));
    // flake-parts shape: modules are auto-imported, never listed.
    assert!(
        out.contains(
            "outputs = inputs: \
             inputs.flake-parts.lib.mkFlake { inherit inputs; } \
             (inputs.import-tree ./modules);"
        )
    );
    // The machinery inputs are appended when the source lacks them.
    assert!(out.contains("flake-parts.url"));
    assert!(out.contains("import-tree.url"));
}

#[test]
fn test_flake_nix_keeps_existing_machinery_inputs() {
    let out = flake_nix(
        "inputs = {\n    nixpkgs.url = \"github:NixOS/nixpkgs\";\n    \
         flake-parts.url = \"github:hercules-ci/flake-parts\";\n    \
         import-tree.url = \"github:vic/import-tree\";\n  };",
        "myhost",
        "src",
    );
    assert_eq!(out.matches("flake-parts.url").count(), 1);
    assert_eq!(out.matches("import-tree.url").count(), 1);
}

#[test]
fn test_host_default_nix() {
    let with = host_default_nix(
        "myhost",
        Some("25.05"),
        &["networking".to_string(), "ssh".to_string()],
    );
    // Host wiring mirrors the source config's flake-parts idiom.
    assert!(with.contains("{ inputs, self, ... }:"));
    assert!(with.contains("flake.nixosConfigurations.myhost = inputs.nixpkgs.lib.nixosSystem"));
    assert!(with.contains("hostName = \"myhost\";"));
    assert!(with.contains("self.nixosModules.configMyhost"));
    assert!(with.contains("self.nixosModules.hardwareMyhost"));
    assert!(with.contains("flake.nixosModules.configMyhost"));
    // Selected modules are wired by name, one per line.
    assert!(with.contains("self.nixosModules.networking"));
    assert!(with.contains("self.nixosModules.ssh"));
    assert!(with.contains("networking.hostName = \"myhost\";"));
    assert!(with.contains("system.stateVersion = \"25.05\";"));
    let without = host_default_nix("myhost", None, &[]);
    assert!(without.contains("# system.stateVersion"));
}

#[test]
fn test_host_hardware_nix() {
    let out = host_hardware_nix("myhost");
    assert!(out.contains("flake.nixosModules.hardwareMyhost"));
    // The raw hardware file is underscore-prefixed so import-tree
    // ignores it; only the wrapper is auto-imported.
    assert!(out.contains("./_hardware-configuration.nix"));
}

#[test]
fn extract_inputs_joins_several_declarations() {
    let src = "{ inputs.a.url = \"x\"; inputs.b.url = \"y\"; outputs = _: { }; }";
    assert_eq!(
        extract_inputs(src).unwrap(),
        "inputs.a.url = \"x\";\n  inputs.b.url = \"y\";"
    );
}

#[test]
fn extract_inputs_unclosed_declaration_is_none() {
    assert_eq!(extract_inputs("{ inputs = { a = 1; }"), None);
}

#[test]
fn extract_inputs_keeps_complete_before_unclosed() {
    assert_eq!(
        extract_inputs("{ inputs.a.url = \"x\"; inputs = {"),
        Some("inputs.a.url = \"x\";".to_string())
    );
}

#[test]
fn extract_inputs_ignores_glued_words() {
    assert_eq!(extract_inputs("{ my_inputs = 1; self.inputs = 2; @inputs = 3; }"), None);
}

#[test]
fn capitalize_uppercases_first_char_only() {
    assert_eq!(capitalize("myhost"), "Myhost");
    assert_eq!(capitalize(""), "");
    assert_eq!(capitalize("éa"), "Éa");
    assert_eq!(capitalize("1abc"), "1abc");
}

#[test]
fn flake_nix_exact_text() {
    let out = flake_nix("inputs.flake-parts.url = \"a\"; inputs.import-tree.url = \"b\";", "h", "s");
    assert_eq!(
        out,
        "{\n  description = \"h — trimmed from s by flamingo\";\n\n  inputs.flake-parts.url = \"a\"; inputs.import-tree.url = \"b\";\n\n  outputs = inputs: inputs.flake-parts.lib.mkFlake { inherit inputs; } (inputs.import-tree ./modules);\n}\n"
    );
}

#[test]
fn host_hardware_nix_exact_text() {
    assert_eq!(
        host_hardware_nix("box"),
        "{\n  flake.nixosModules.hardwareBox = ./_hardware-configuration.nix;\n}\n"
    );
}

#[test]
fn host_default_nix_lists_modules_one_per_line() {
    let out = host_default_nix("h", Some("1"), &["a".to_string(), "b".to_string()]);
    assert!(out.contains("    imports = [\n      self.nixosModules.a\n      self.nixosModules.b\n    ];"));
}

#[test]
fn hardware_placeholder_points_at_generator() {
    let out = hardware_placeholder();
    assert!(out.contains("nixos-generate-config --show-hw-config"));
    assert!(out.ends_with("}\n"));
}
