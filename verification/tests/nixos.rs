use libsnow::command::{number, push_all, push_arg, push_flake, push_generations};
use libsnow::config::configfile::{ConfigError, LibSnowConfig};
use libsnow::nixos::install::{
    flake_with_host, install, qualify, to_install, write_command, PlanError, HELPER_EXEC,
};
use libsnow::nixos::list::{attributes, list_systempackages, reference_names};
use libsnow::nixos::rebuild::rebuild;
use libsnow::nixos::remove::{remove, to_remove};
use libsnow::nixos::update::update;
use libsnow::nixos::AuthMethod;

fn v(list: &[&str]) -> Vec<String> {
    list.iter().map(|s| s.to_string()).collect()
}

fn s(t: &str) -> Option<String> {
    Some(t.to_string())
}

fn config() -> LibSnowConfig {
    LibSnowConfig {
        systemconfig: s("/etc/nixos/configuration.nix"),
        homeconfig: s("/home/u/home.nix"),
        flake: s("/etc/nixos/flake.nix"),
        host: s("laptop"),
        generations: Some(5),
        packages_file: None,
    }
}

#[test]
fn numbers_in_decimal() {
    assert_eq!(number(0), "0");
    assert_eq!(number(7), "7");
    assert_eq!(number(10), "10");
    assert_eq!(number(1234567890), "1234567890");
    assert_eq!(number(u32::MAX), "4294967295");
    for n in [1u32, 9, 11, 99, 100, 101, 4096, 65535, 1000000] {
        assert_eq!(number(n), n.to_string());
    }
}

#[test]
fn arguments_are_appended() {
    let mut args = v(&["a"]);
    push_arg(&mut args, "b");
    push_generations(&mut args, Some(3));
    push_generations(&mut args, None);
    push_flake(&mut args, &s("/etc/nixos"));
    push_flake(&mut args, &None);
    push_all(&mut args, &v(&["x", "y"]));
    push_all(&mut args, &v(&[]));
    assert_eq!(args, v(&["a", "b", "--generations", "3", "--flake", "/etc/nixos", "x", "y"]));
}

#[test]
fn programs_that_raise_privileges() {
    assert_eq!(AuthMethod::Pkexec.program(), "pkexec");
    assert_eq!(AuthMethod::Sudo.program(), "sudo");
    assert_eq!(AuthMethod::Custom("doas").program(), "doas");
}

#[test]
fn packages_to_install_are_known_and_new() {
    let out = to_install(
        &v(&["hello", "unknown", "git", "vim"]),
        &vec![s("hello"), None, s("git"), s("vim-full")],
        &v(&["git", "vim"]),
    );
    assert_eq!(out, v(&["hello", "vim"]));
    assert!(to_install(&v(&["a"]), &vec![], &v(&[])).is_empty());
    assert!(to_install(&v(&[]), &vec![s("a")], &v(&[])).is_empty());
}

#[test]
fn packages_to_remove_are_known_and_installed() {
    let out = to_remove(
        &v(&["hello", "unknown", "git", "vim"]),
        &vec![s("hello"), None, s("git"), s("vim")],
        &v(&["git", "vim", "unknown"]),
    );
    assert_eq!(out, v(&["git", "vim"]));
    assert!(to_remove(&v(&["git"]), &vec![], &v(&["git"])).is_empty());
}

#[test]
fn names_are_qualified_unless_the_list_is_under_with_pkgs() {
    assert_eq!(qualify(v(&["a", "b"]), &Some(v(&["pkgs"]))), v(&["a", "b"]));
    assert_eq!(qualify(v(&["a", "b"]), &Some(v(&["lib", "pkgs"]))), v(&["a", "b"]));
    assert_eq!(qualify(v(&["a", "b"]), &Some(v(&[]))), v(&["pkgs.a", "pkgs.b"]));
    assert_eq!(qualify(v(&["a", "b"]), &Some(v(&["lib"]))), v(&["pkgs.a", "pkgs.b"]));
    assert_eq!(qualify(v(&["a", "b"]), &None), v(&["a", "b"]));
    assert_eq!(qualify(v(&[]), &Some(v(&[]))), v(&[]));
}

#[test]
fn install_plan() {
    let names =
        install(&v(&["hello", "git"]), &vec![s("hello"), s("git")], &v(&["git"]), &Some(v(&[])));
    assert_eq!(names, Ok(v(&["pkgs.hello"])));
    let names = install(&v(&["git"]), &vec![s("git")], &v(&["git"]), &None);
    assert_eq!(names, Err(PlanError::NothingToInstall));
    assert_eq!(install(&v(&[]), &vec![], &v(&[]), &None), Err(PlanError::NothingToInstall));
}

#[test]
fn remove_plan() {
    let names =
        remove(&v(&["hello", "git"]), &vec![s("hello"), s("git")], &v(&["git"]), &Some(v(&["pkgs"])));
    assert_eq!(names, Ok(v(&["git"])));
    let names = remove(&v(&["hello"]), &vec![s("hello")], &v(&["git"]), &None);
    assert_eq!(names, Err(PlanError::NothingToRemove));
}

#[test]
fn flake_with_and_without_host() {
    assert_eq!(flake_with_host(&s("/etc/nixos"), &s("laptop")), s("/etc/nixos#laptop"));
    assert_eq!(flake_with_host(&s("/etc/nixos"), &None), s("/etc/nixos"));
    assert_eq!(flake_with_host(&None, &s("laptop")), None);
    assert_eq!(flake_with_host(&None, &None), None);
}

#[test]
fn command_that_writes_the_system_configuration() {
    let c = write_command(AuthMethod::Pkexec, &config()).unwrap();
    assert_eq!(c.program, "pkexec");
    assert_eq!(
        c.args,
        v(&[
            "libsnow-helper",
            "config",
            "--output",
            "/etc/nixos/configuration.nix",
            "--generations",
            "5",
            "--",
            "switch",
            "--flake",
            "/etc/nixos/flake.nix#laptop",
        ])
    );
    assert_eq!(HELPER_EXEC, "libsnow-helper");
    let bare = LibSnowConfig { systemconfig: s("/c.nix"), ..LibSnowConfig::default() };
    let c = write_command(AuthMethod::Custom("doas"), &bare).unwrap();
    assert_eq!(c.program, "doas");
    assert_eq!(c.args, v(&["libsnow-helper", "config", "--output", "/c.nix", "--", "switch"]));
    assert_eq!(
        write_command(AuthMethod::Sudo, &LibSnowConfig::default()).unwrap_err(),
        ConfigError::NoSystemConfig
    );
}

#[test]
fn command_that_rebuilds_the_system() {
    let c = rebuild(AuthMethod::Sudo, &config(), &s("/etc/nixos"));
    assert_eq!(c.program, "sudo");
    assert_eq!(
        c.args,
        v(&["libsnow-helper", "rebuild", "--generations", "5", "--", "switch", "--flake", "/etc/nixos"])
    );
    let c = rebuild(AuthMethod::Sudo, &LibSnowConfig::default(), &None);
    assert_eq!(c.args, v(&["libsnow-helper", "rebuild", "--", "switch"]));
}

#[test]
fn command_that_updates_the_system() {
    let c = update(AuthMethod::Sudo, &config(), &s("/etc/nixos"), true, s("/etc/nixos")).unwrap();
    assert_eq!(c.program, "sudo");
    assert_eq!(
        c.args,
        v(&[
            "libsnow-helper",
            "update",
            "--generations",
            "5",
            "--flake",
            "/etc/nixos",
            "--",
            "switch",
            "--flake",
            "/etc/nixos#laptop",
        ])
    );
    let c = update(AuthMethod::Sudo, &config(), &None, false, None).unwrap();
    assert_eq!(
        c.args,
        v(&[
            "libsnow-helper",
            "update",
            "--generations",
            "5",
            "--",
            "switch",
            "--flake",
            "/etc/nixos/flake.nix#laptop",
        ])
    );
    assert_eq!(
        update(AuthMethod::Sudo, &config(), &None, true, None).unwrap_err(),
        ConfigError::NoParent
    );
    let c = update(AuthMethod::Sudo, &LibSnowConfig::default(), &None, true, None).unwrap();
    assert_eq!(c.args, v(&["libsnow-helper", "update", "--", "switch"]));
}

#[test]
fn names_of_references_are_base_names_sorted() {
    let out = reference_names(
        "/nix/store/zzz-hello-2.12\n\n/nix/store/aaa-git-2.44\n/nix/store/mmm-vim-9.1\nplain\n",
    );
    assert_eq!(out, v(&["aaa-git-2.44", "mmm-vim-9.1", "plain", "zzz-hello-2.12"]));
    assert!(reference_names("").is_empty());
    assert!(reference_names("\n\n").is_empty());
    assert_eq!(reference_names("/a/"), v(&[""]));
}

#[test]
fn entries_of_a_package_list_as_attributes() {
    assert_eq!(
        attributes(&v(&["pkgs.hello", "git", "pkgs.python3Packages.numpy", "pkgs.", "xpkgs.a"])),
        v(&["hello", "git", "python3Packages.numpy", "", "xpkgs.a"])
    );
}

#[test]
fn packages_of_a_package_list() {
    let row = |p: &str, ver: &str| (p.to_string(), ver.to_string());
    let out = list_systempackages(
        &v(&["hello", "missing", "multi", "bare"]),
        &vec![vec![row("hello", "2.12")], vec![], vec![row("m1", "1"), row("m2", "")]],
    );
    assert_eq!(out.len(), 3);
    assert_eq!(out[0].attr.to_string(), "hello");
    assert_eq!(out[0].pname.as_deref(), Some("hello"));
    assert_eq!(out[0].version.as_deref(), Some("2.12"));
    assert_eq!(out[1].attr.to_string(), "multi");
    assert_eq!(out[1].pname.as_deref(), Some("m1"));
    assert_eq!(out[2].attr.to_string(), "multi");
    assert_eq!(out[2].pname.as_deref(), Some("m2"));
    assert_eq!(out[2].version, None);
    assert_eq!(out[2].profile_name, None);
}
