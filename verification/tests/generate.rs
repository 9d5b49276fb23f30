use libsnow::generate::{
    bool_to_int, db_path, extract_program_options, git_revision, git_revision_url, hm_branch,
    hm_docs_flake, hm_options_path, listing_url, next_marker, options_url, packages_url,
    resolve_latest_release, text_or_default, S3Content,
};
use libsnow::helper::{home_profile, rebuild, rebuild_home, update, write_file, AfterRebuild};

fn v(list: &[&str]) -> Vec<String> {
    list.iter().map(|s| s.to_string()).collect()
}

fn object(key: &str, modified: &str) -> S3Content {
    S3Content { key: key.to_string(), last_modified: modified.to_string() }
}

#[test]
fn latest_release_is_the_one_modified_last() {
    let objects = vec![
        object("nixos/unstable/nixos-24.11pre1.aaa/", "2024-05-01T10:00:00.000Z"),
        object("nixos/unstable/nixos-24.11pre3.ccc/", "2024-07-01T10:00:00.000Z"),
        object("nixos/unstable/nixos-24.11pre2.bbb/", "2024-06-01T10:00:00.000Z"),
    ];
    assert_eq!(resolve_latest_release(&objects).as_deref(), Some("nixos-24.11pre3.ccc"));
    assert_eq!(resolve_latest_release(&vec![]), None);
}

#[test]
fn later_object_wins_a_tie() {
    let objects = vec![object("a/first", "2024"), object("a/second", "2024"), object("a/old", "2023")];
    assert_eq!(resolve_latest_release(&objects).as_deref(), Some("second"));
}

#[test]
fn release_name_is_the_last_component_of_the_key() {
    assert_eq!(resolve_latest_release(&vec![object("//a/b//", "1")]).as_deref(), Some("b"));
    assert_eq!(resolve_latest_release(&vec![object("plain", "1")]).as_deref(), Some("plain"));
    assert_eq!(resolve_latest_release(&vec![object("///", "1")]).as_deref(), Some(""));
    assert_eq!(resolve_latest_release(&vec![object("", "1")]).as_deref(), Some(""));
    assert_eq!(resolve_latest_release(&vec![object("a//b", "1")]).as_deref(), Some("b"));
}

#[test]
fn marker_of_the_next_page() {
    let s = |t: &str| Some(t.to_string());
    assert_eq!(next_marker("m".to_string(), s("k"), true), s("k"));
    assert_eq!(next_marker("m".to_string(), None, true), s("m"));
    assert_eq!(next_marker("m".to_string(), s("k"), false), None);
    assert_eq!(next_marker("m".to_string(), None, false), None);
}

#[test]
fn addresses_of_a_release() {
    assert_eq!(
        packages_url("nixos/unstable", "nixos-24.11pre1.a"),
        "https://releases.nixos.org/nixos/unstable/nixos-24.11pre1.a/packages.json.br"
    );
    assert_eq!(
        options_url("nixos/unstable", "r"),
        "https://releases.nixos.org/nixos/unstable/r/options.json.br"
    );
    assert_eq!(git_revision_url("nixpkgs", "r"), "https://releases.nixos.org/nixpkgs/r/git-revision");
    assert_eq!(
        listing_url("nixos/unstable", ""),
        "https://nix-releases.s3.amazonaws.com/?delimiter=/&prefix=nixos/unstable/&marker="
    );
    assert_eq!(
        listing_url("nixpkgs", "nixpkgs/x/"),
        "https://nix-releases.s3.amazonaws.com/?delimiter=/&prefix=nixpkgs/&marker=nixpkgs/x/"
    );
    assert_eq!(db_path(".", "abc"), "./abc.db");
    assert_eq!(db_path("/out", "abc"), "/out/abc.db");
}

#[test]
fn branch_of_home_manager() {
    assert_eq!(hm_branch("nixos/unstable"), "master");
    assert_eq!(hm_branch("nixpkgs"), "master");
    assert_eq!(hm_branch("nixpkgs/25.05"), "master");
    assert_eq!(hm_branch("nixos/25.05"), "release-25.05");
    assert_eq!(hm_branch("nixos-25.05"), "release-nixos-25.05");
    assert_eq!(hm_branch("nixos/unstable-small"), "master");
    assert_eq!(hm_branch(""), "release-");
    assert_eq!(
        hm_docs_flake("nixos/24.11"),
        "github:nix-community/home-manager/release-24.11#docs-json"
    );
    assert_eq!(hm_docs_flake("nixpkgs"), "github:nix-community/home-manager/master#docs-json");
}

#[test]
fn options_are_kept_under_programs_that_can_be_enabled() {
    let keys = v(&[
        "programs.git.enable",
        "programs.git.package",
        "programs.zsh.shellInit",
        "services.openssh.enable",
        "programs.fish",
        "programs.git.config.user.name",
        "programs..enable",
        "programs.",
        "xprograms.git.enable",
    ]);
    let s = |t: &str| Some(t.to_string());
    assert_eq!(
        extract_program_options(&keys),
        vec![s("git"), s("git"), None, None, None, s("git"), s(""), s(""), None]
    );
    assert!(extract_program_options(&vec![]).is_empty());
}

#[test]
fn values_as_they_are_written_into_a_row() {
    assert_eq!(bool_to_int(Some(true)), 1);
    assert_eq!(bool_to_int(Some(false)), 0);
    assert_eq!(bool_to_int(None), 0);
    assert_eq!(text_or_default(Some("x".to_string())), "x");
    assert_eq!(text_or_default(None), "");
}

#[test]
fn commands_of_a_rebuild() {
    let out = rebuild(&v(&["switch", "--flake", "/etc/nixos#host"]), Some(5));
    assert_eq!(out.len(), 2);
    assert_eq!(out[0].program, "nixos-rebuild");
    assert_eq!(out[0].args, v(&["switch", "--flake", "/etc/nixos#host"]));
    assert_eq!(out[1].program, "nix-env");
    assert_eq!(
        out[1].args,
        v(&["--delete-generations", "-p", "/nix/var/nix/profiles/system", "+5"])
    );
    assert_eq!(rebuild(&v(&["switch"]), Some(0)).len(), 1);
    assert_eq!(rebuild(&v(&["switch"]), None).len(), 1);
    assert_eq!(rebuild(&v(&[]), Some(120))[1].args[3], "+120");
}

#[test]
fn commands_of_a_home_rebuild() {
    let out = rebuild_home(&v(&["switch"]), Some(3), "/home/u");
    assert_eq!(out.len(), 2);
    assert_eq!(out[0].program, "home-manager");
    assert_eq!(out[0].args, v(&["switch"]));
    assert_eq!(
        out[1].args,
        v(&["--delete-generations", "-p", "/home/u/.local/state/nix/profiles/home-manager", "+3"])
    );
    assert_eq!(rebuild_home(&v(&["switch"]), None, "/home/u").len(), 1);
    assert_eq!(home_profile("/root"), "/root/.local/state/nix/profiles/home-manager");
}

#[test]
fn command_of_a_flake_update() {
    let c = update("/etc/nixos");
    assert_eq!(c.program, "nix");
    assert_eq!(c.args, v(&["flake", "update", "--flake", "/etc/nixos"]));
}

#[test]
fn configuration_is_restored_after_a_failed_rebuild() {
    assert_eq!(write_file(true), AfterRebuild::Keep);
    assert_eq!(write_file(false), AfterRebuild::Restore);
}

#[test]
fn answers_are_read_without_white_space_at_their_ends() {
    assert_eq!(git_revision("0123abcd\n"), "0123abcd");
    assert_eq!(git_revision("  a b \t"), "a b");
    assert_eq!(git_revision(""), "");
    assert_eq!(
        hm_options_path("/nix/store/abc-home-manager-docs\n"),
        "/nix/store/abc-home-manager-docs/share/doc/home-manager/options.json"
    );
}
