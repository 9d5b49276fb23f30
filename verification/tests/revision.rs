use libsnow::metadata::revision::{
    commit_url, get_latest_nixpkgs_revision, get_profile_revision, get_revision, release, settles,
    RevisionError, RevisionSource,
};

const REGISTRY: &str = "\
global flake:agda github:agda/agda
global flake:nixpkgs github:NixOS/nixpkgs/nixpkgs-unstable
global flake:nur github:nix-community/NUR
";

const SYSTEM_REGISTRY: &str = "\
system flake:nixpkgs path:/nix/store/abc-source?lastModified=1700000000&narHash=sha256-xyz&rev=0123456789abcdef
global flake:nixpkgs github:NixOS/nixpkgs/nixos-23.11
";

fn branch(r: Result<RevisionSource, RevisionError>) -> String {
    match r {
        Ok(RevisionSource::Branch(b)) => b,
        other => panic!("unexpected {:?}", other),
    }
}

fn rev(r: Result<RevisionSource, RevisionError>) -> String {
    match r {
        Ok(RevisionSource::Revision(b)) => b,
        other => panic!("unexpected {:?}", other),
    }
}

#[test]
fn global_entry_leads_to_a_branch() {
    assert_eq!(branch(get_revision(REGISTRY)), "nixpkgs-unstable");
    assert_eq!(branch(get_profile_revision(REGISTRY)), "nixpkgs-unstable");
}

#[test]
fn system_entry_counts_only_for_profiles() {
    assert_eq!(branch(get_revision(SYSTEM_REGISTRY)), "nixos-23.11");
    assert_eq!(rev(get_profile_revision(SYSTEM_REGISTRY)), "0123456789abcdef");
}

#[test]
fn registry_without_nixpkgs() {
    assert_eq!(get_revision("").unwrap_err(), RevisionError::NoNixpkgsFlake);
    assert_eq!(
        get_revision("global flake:nur github:nix-community/NUR\n").unwrap_err(),
        RevisionError::NoNixpkgsFlake
    );
    assert_eq!(
        get_revision("system flake:nixpkgs path:/nix/store/x?rev=1").unwrap_err(),
        RevisionError::NoNixpkgsFlake
    );
}

#[test]
fn registry_entry_without_a_path() {
    assert_eq!(get_revision("global flake:nixpkgs").unwrap_err(), RevisionError::InvalidRegistryEntry);
    assert_eq!(
        get_revision("global flake:nixpkgs  github:NixOS/nixpkgs/x").unwrap_err(),
        RevisionError::InvalidFlakePath
    );
}

#[test]
fn registry_paths_of_unknown_kind() {
    assert_eq!(
        get_revision("global flake:nixpkgs gitlab:NixOS/nixpkgs/x").unwrap_err(),
        RevisionError::InvalidFlakePath
    );
    assert_eq!(
        get_revision("global flake:nixpkgs path:/nix/store/x?rev=1").unwrap_err(),
        RevisionError::InvalidFlakePath
    );
    assert_eq!(
        get_profile_revision("global flake:nixpkgs path:/etc/x?rev=1").unwrap_err(),
        RevisionError::InvalidFlakePath
    );
}

#[test]
fn store_paths_and_their_revision() {
    assert_eq!(rev(get_profile_revision("global flake:nixpkgs path:/nix/store/x?a=1&rev=abc&b=2")), "abc");
    assert_eq!(rev(get_profile_revision("global flake:nixpkgs path:/nix/store/x?a=1&rev=abc=def")), "abc");
    assert_eq!(rev(get_profile_revision("global flake:nixpkgs path:/nix/store/x?a=1&rev=")), "");
    assert_eq!(
        get_profile_revision("global flake:nixpkgs path:/nix/store/x?rev=abc").unwrap_err(),
        RevisionError::NoRev
    );
    assert_eq!(
        get_profile_revision("global flake:nixpkgs path:/nix/store/x?a=1&narHash=2").unwrap_err(),
        RevisionError::NoRev
    );
}

#[test]
fn branch_is_what_follows_the_last_slash() {
    assert_eq!(branch(get_revision("global flake:nixpkgs github:NixOS/nixpkgs/a/b")), "b");
    assert_eq!(branch(get_revision("global flake:nixpkgs github:NixOS/nixpkgs/")), "");
}

#[test]
fn url_of_a_commit() {
    assert_eq!(
        commit_url("nixos-unstable"),
        "https://api.github.com/repos/NixOS/nixpkgs/commits/nixos-unstable"
    );
}

#[test]
fn release_of_a_version() {
    assert_eq!(release("24.11.12345678.abcdefg"), "24.11");
    assert_eq!(release("23.11"), "23.11");
    assert_eq!(release("24.05.20240101.abc"), "unstable");
    assert_eq!(release("24.05"), "unstable");
    assert_eq!(release("24"), "24");
    assert_eq!(release(""), "");
    assert_eq!(release("24.051.1"), "24.051");
}

#[test]
fn branches_to_ask_for_the_latest_revision() {
    assert_eq!(
        get_latest_nixpkgs_revision(Some("24.11.12345678.abcdefg")),
        vec!["nixos-24.11", "nixos-unstable"]
    );
    assert_eq!(
        get_latest_nixpkgs_revision(Some("24.05.1.a")),
        vec!["nixos-unstable", "nixos-unstable"]
    );
    assert_eq!(get_latest_nixpkgs_revision(None), vec!["nixpkgs-unstable"]);
}

#[test]
fn answer_of_the_last_branch_settles_whatever_it_is() {
    assert!(settles(0, 2, true));
    assert!(!settles(0, 2, false));
    assert!(settles(1, 2, false));
    assert!(settles(0, 1, false));
    assert!(settles(0, 0, false));
    assert!(settles(usize::MAX, 3, false));
    assert!(!settles(0, usize::MAX, false));
}
