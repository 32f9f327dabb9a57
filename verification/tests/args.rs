use flamingo::args::{flake_ref, to_flake_ref, UrlParts};

fn parts(scheme: &str, host: Option<&str>, path: &str, serialization: &str) -> UrlParts {
    UrlParts {
        scheme: scheme.into(),
        host: host.map(str::to_string),
        path: path.into(),
        serialization: serialization.into(),
    }
}

#[test]
fn github_url_becomes_github_reference() {
    assert_eq!(flake_ref("https://github.com/wallago/nix-config"), "github:wallago/nix-config");
    assert_eq!(flake_ref("https://gitlab.com/owner/repo.git"), "gitlab:owner/repo");
}

#[test]
fn other_remotes_become_git_references() {
    assert_eq!(flake_ref("https://example.org/x/y"), "git+https://example.org/x/y");
    assert_eq!(flake_ref("https://github.com/owner"), "git+https://github.com/owner");
}

#[test]
fn flake_references_and_paths_pass_through() {
    assert_eq!(flake_ref("github:owner/repo"), "github:owner/repo");
    assert_eq!(flake_ref("git+ssh://host/x"), "git+ssh://host/x");
    assert_eq!(flake_ref("/home/me/cfg"), "/home/me/cfg");
    assert_eq!(flake_ref("./cfg"), "./cfg");
}

#[test]
fn to_flake_ref_on_parts() {
    assert_eq!(
        to_flake_ref(&parts("https", Some("github.com"), "/o/r.git.git", "https://github.com/o/r.git.git")),
        "github:o/r"
    );
    assert_eq!(
        to_flake_ref(&parts("ssh", Some("gitlab.com"), "/o/r", "ssh://gitlab.com/o/r")),
        "gitlab:o/r"
    );
    assert_eq!(
        to_flake_ref(&parts("tarball+https", Some("x.org"), "/a", "tarball+https://x.org/a")),
        "tarball+https://x.org/a"
    );
    assert_eq!(to_flake_ref(&parts("file", None, "/a", "file:///a")), "file:///a");
    assert_eq!(
        to_flake_ref(&parts("http", None, "/a/b", "http:/a/b")),
        "git+http:/a/b"
    );
}
