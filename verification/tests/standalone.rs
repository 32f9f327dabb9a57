use flamingo::trim::standalone::{flake_nix, host_default_nix};

#[test]
fn standalone_flake_wires_host_and_modules() {
    let out = flake_nix(
        "inputs.nixpkgs.url = \"github:NixOS/nixpkgs\";",
        "myhost",
        "github:wallago/nix-config",
        &["modules/foo.nix".to_string(), "modules/ssh".to_string()],
    );
    assert!(out.contains("nixosConfigurations.myhost"));
    assert!(out.contains("./hosts/myhost"));
    assert!(out.contains("./modules/foo.nix"));
    assert!(out.contains("./modules/ssh"));
    assert!(out.contains("trimmed from github:wallago/nix-config"));
    assert!(out.contains("inputs.nixpkgs.url = \"github:NixOS/nixpkgs\";"));
}

#[test]
fn standalone_flake_exact_text() {
    assert_eq!(
        flake_nix("inputs.a.url = \"x\";", "h", "s", &["m.nix".to_string()]),
        "{\n  description = \"h — trimmed from s by flamingo\";\n\n  inputs.a.url = \"x\";\n\n  outputs = { self, nixpkgs, ... }@inputs: {\n    nixosConfigurations.h = nixpkgs.lib.nixosSystem {\n      system = \"x86_64-linux\";\n      specialArgs = { inherit inputs; };\n      modules = [\n        ./hosts/h\n        ./m.nix\n      ];\n    };\n  };\n}\n"
    );
}

#[test]
fn standalone_host_scaffold() {
    let with = host_default_nix("myhost", Some("25.05"));
    assert!(with.contains("networking.hostName = \"myhost\";"));
    assert!(with.contains("system.stateVersion = \"25.05\";"));
    assert!(with.contains("./hardware-configuration.nix"));
    let without = host_default_nix("myhost", None);
    assert!(without.contains("# system.stateVersion"));
    assert_eq!(
        without,
        "{ ... }:\n{\n  imports = [ ./hardware-configuration.nix ];\n\n  networking.hostName = \"myhost\";\n\n  # system.stateVersion = \"CHANGE-ME\"; # flamingo could not detect the nixpkgs release\n}\n"
    );
}
