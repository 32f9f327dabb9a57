//! Text of the standalone config an export writes: a `flake.nix` that wires
//! the new host and the exported modules by their mirrored paths, and the
//! host scaffold under `hosts/<hostname>/`.

use vstd::prelude::*;

use crate::text::{contains, join, join_strings};
use crate::trim::generate::lemma_occurrence_found;

verus! {

/// The line of the host's module list that wires the file at `path`,
/// relative to the new config's root.
pub open spec fn module_line(path: Seq<char>) -> Seq<char> {
    "        ./"@ + path
}

/// What `flake_nix` generates.
pub open spec fn spec_flake_nix(
    inputs: Seq<char>,
    hostname: Seq<char>,
    source: Seq<char>,
    module_paths: Seq<Seq<char>>,
) -> Seq<char> {
    "{\n  description = \""@ + hostname + " — trimmed from "@ + source + " by flamingo\";\n\n  "@
        + inputs
        + "\n\n  outputs = { self, nixpkgs, ... }@inputs: {\n    nixosConfigurations."@
        + hostname
        + " = nixpkgs.lib.nixosSystem {\n      system = \"x86_64-linux\";\n      specialArgs = { inherit inputs; };\n      modules = [\n        ./hosts/"@
        + hostname + "\n"@ + join(module_paths.map_values(|p: Seq<char>| module_line(p)), "\n"@)
        + "\n      ];\n    };\n  };\n}\n"@
}

/// Generates the new config's `flake.nix`: the lifted `inputs`, and a
/// `nixosConfigurations.<hostname>` made of `./hosts/<hostname>` and one
/// entry per exported module, by its path relative to the config's root.
pub fn flake_nix(inputs: &str, hostname: &str, source: &str, module_paths: &[String]) -> (r: String)
    ensures
        r@ == spec_flake_nix(inputs@, hostname@, source@, module_paths@.map_values(|p: String| p@)),
{
    let mut lines: Vec<String> = Vec::new();
    let mut i: usize = 0;
    while i < module_paths.len()
        invariant
            i <= module_paths@.len(),
            lines@.map_values(|l: String| l@) =~= module_paths@.take(i as int).map_values(
                |p: String| module_line(p@),
            ),
        decreases module_paths@.len() - i,
    {
        let mut line = String::new();
        line.append("        ./");
        line.append(module_paths[i].as_str());
        let ghost prev = lines@.map_values(|l: String| l@);
        lines.push(line);
        assert(lines@.map_values(|l: String| l@) =~= prev.push(module_line(module_paths@[i as int]@)));
        assert(module_paths@.take(i + 1) =~= module_paths@.take(i as int).push(module_paths@[i as int]));
        i = i + 1;
    }
    assert(module_paths@.take(module_paths@.len() as int) =~= module_paths@);
    assert(lines@.map_values(|l: String| l@) =~= module_paths@.map_values(|p: String| p@).map_values(
        |p: Seq<char>| module_line(p),
    ));
    let modules = join_strings(&lines, "\n");
    let mut r = String::new();
    r.append("{\n  description = \"");
    r.append(hostname);
    r.append(" — trimmed from ");
    r.append(source);
    r.append(" by flamingo\";\n\n  ");
    r.append(inputs);
    r.append("\n\n  outputs = { self, nixpkgs, ... }@inputs: {\n    nixosConfigurations.");
    r.append(hostname);
    r.append(
        " = nixpkgs.lib.nixosSystem {\n      system = \"x86_64-linux\";\n      specialArgs = { inherit inputs; };\n      modules = [\n        ./hosts/",
    );
    r.append(hostname);
    r.append("\n");
    r.append(modules.as_str());
    r.append("\n      ];\n    };\n  };\n}\n");
    r
}

/// The `system.stateVersion` line of the host scaffold: set when the
/// nixpkgs release is known, else left as a comment to fill in.
pub open spec fn state_version_line(state_version: Option<Seq<char>>) -> Seq<char> {
    match state_version {
        Some(version) => "  system.stateVersion = \""@ + version + "\";"@,
        None => "  # system.stateVersion = \"CHANGE-ME\"; # flamingo could not detect the nixpkgs release"@,
    }
}

/// What `host_default_nix` generates.
pub open spec fn spec_host_default_nix(hostname: Seq<char>, state_version: Option<Seq<char>>) -> Seq<
    char,
> {
    "{ ... }:\n{\n  imports = [ ./hardware-configuration.nix ];\n\n  networking.hostName = \""@
        + hostname + "\";\n\n"@ + state_version_line(state_version) + "\n}\n"@
}

/// `s` begins with `p`.
pub open spec fn starts_with_text(s: Seq<char>, p: Seq<char>) -> bool {
    p.len() <= s.len() && s.take(p.len() as int) == p
}

/// The host scaffold opens by importing the hardware configuration beside
/// it and setting the host name; with a known release it then pins it on a
/// line of its own, `system.stateVersion = "<release>";`, and only without
/// one does it carry the commented-out line to fill in.
pub proof fn lemma_host_pins_state_version(hostname: Seq<char>, state_version: Option<Seq<char>>)
    ensures
        starts_with_text(
            spec_host_default_nix(hostname, state_version),
            "{ ... }:\n{\n  imports = [ ./hardware-configuration.nix ];\n\n  networking.hostName = \""@
                + hostname + "\";\n"@,
        ),
        state_version matches Some(v) ==> contains(
            spec_host_default_nix(hostname, state_version),
            "\n  system.stateVersion = \""@ + v + "\";\n}\n"@,
        ),
        state_version is None ==> contains(
            spec_host_default_nix(hostname, state_version),
            "\n  # system.stateVersion = \"CHANGE-ME\";"@,
        ),
{
    let head = "{ ... }:\n{\n  imports = [ ./hardware-configuration.nix ];\n\n  networking.hostName = \""@
        + hostname + "\";\n\n"@;
    let text = spec_host_default_nix(hostname, state_version);
    reveal_strlit("\";\n\n");
    reveal_strlit("\n}\n");
    reveal_strlit("  system.stateVersion = \"");
    reveal_strlit("\";");
    reveal_strlit("\n  system.stateVersion = \"");
    reveal_strlit("\";\n}\n");
    reveal_strlit("  # system.stateVersion = \"CHANGE-ME\"; # flamingo could not detect the nixpkgs release");
    reveal_strlit("\n  # system.stateVersion = \"CHANGE-ME\";");
    assert(text == head + state_version_line(state_version) + "\n}\n"@);
    let opening = "{ ... }:\n{\n  imports = [ ./hardware-configuration.nix ];\n\n  networking.hostName = \""@
        + hostname + "\";\n"@;
    reveal_strlit("\";\n");
    assert(text.take(opening.len() as int) =~= opening);
    let i = head.len() - 1;
    assert(head[i] == '\n');
    match state_version {
        Some(v) => {
            let pat = "\n  system.stateVersion = \""@ + v + "\";\n}\n"@;
            assert(text.subrange(i, i + pat.len()) =~= pat);
            lemma_occurrence_found(text, pat, 0, i);
        },
        None => {
            let pat = "\n  # system.stateVersion = \"CHANGE-ME\";"@;
            assert(text.subrange(i, i + pat.len()) =~= pat);
            lemma_occurrence_found(text, pat, 0, i);
        },
    }
}

/// Generates `hosts/<hostname>/default.nix`: imports the hardware
/// configuration beside it, sets the host name and pins the state version.
pub fn host_default_nix(hostname: &str, state_version: Option<&str>) -> (r: String)
    ensures
        r@ == spec_host_default_nix(
            hostname@,
            match state_version {
                Some(v) => Some(v@),
                None => None,
            },
        ),
{
    let mut r = String::new();
    r.append("{ ... }:\n{\n  imports = [ ./hardware-configuration.nix ];\n\n  networking.hostName = \"");
    r.append(hostname);
    r.append("\";\n\n");
    match state_version {
        Some(version) => {
            r.append("  system.stateVersion = \"");
            r.append(version);
            r.append("\";");
        },
        None => {
            r.append(
                "  # system.stateVersion = \"CHANGE-ME\"; # flamingo could not detect the nixpkgs release",
            );
        },
    }
    r.append("\n}\n");
    r
}

} // verus!
