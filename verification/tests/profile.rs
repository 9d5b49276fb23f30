use libsnow::nixos::install::PlanError;
use libsnow::profile::{
    attributes, flake_ref, install, installed_names, list, list_command, name_from_attr,
    not_installed, remove, run, updatable_all, update, update_all, version_query, ProfileElement,
    ProfileError,
};
use libsnow::utils::misc::StorePathError;
use libsnow::{Package, PackageAttr};

fn v(list: &[&str]) -> Vec<String> {
    list.iter().map(|s| s.to_string()).collect()
}

fn element(name: &str, path: Option<&str>, url: Option<&str>, stores: &[&str]) -> ProfileElement {
    ProfileElement {
        name: name.to_string(),
        attr_path: path.map(|p| p.to_string()),
        original_url: url.map(|u| u.to_string()),
        store_paths: v(stores),
    }
}

fn nixpkgs(attr: &str, name: Option<&str>, version: Option<&str>) -> Package {
    Package {
        attr: PackageAttr::NixPkgs { attr: attr.to_string() },
        pname: Some(attr.to_string()),
        version: version.map(|x| x.to_string()),
        profile_name: name.map(|n| n.to_string()),
    }
}

fn external(url: &str, attr: &str, name: Option<&str>) -> Package {
    Package {
        attr: PackageAttr::External { url: url.to_string(), attr: attr.to_string() },
        pname: None,
        version: Some("1".to_string()),
        profile_name: name.map(|n| n.to_string()),
    }
}

fn installed() -> Vec<Package> {
    vec![
        nixpkgs("hello", Some("hello"), Some("2.12")),
        external("github:a/b", "packages.x86_64-linux.default", Some("b")),
        external("github:c/d", "packages.x86_64-linux.tool", Some("tool")),
        nixpkgs("nameless", None, None),
        nixpkgs("hello", Some("hello-1"), None),
    ]
}

#[test]
fn profile_elements_as_packages() {
    let out = list(
        &vec![
            element(
                "hello",
                Some("legacyPackages.x86_64-linux.hello"),
                Some("flake:nixpkgs"),
                &["/nix/store/abc-hello-2.12.1", "/nix/store/def-hello-2.12.1-man"],
            ),
            element("skipped", None, Some("flake:nixpkgs"), &["/nix/store/abc-x-1"]),
            element("skipped2", Some("legacyPackages.x86_64-linux.y"), None, &[]),
            element(
                "nsc",
                Some("packages.x86_64-linux.default"),
                Some("github:snowfallorg/nix-software-center"),
                &["/nix/store/abc-nix-software-center-0.1.2"],
            ),
            element(
                "other-arch",
                Some("legacyPackages.aarch64-linux.git"),
                Some("flake:nixpkgs"),
                &["/nix/store/abc-git"],
            ),
        ],
        "x86_64-linux",
    )
    .unwrap();
    assert_eq!(out.len(), 3);
    assert!(matches!(&out[0].attr, PackageAttr::NixPkgs { attr } if attr == "hello"));
    assert_eq!(out[0].pname.as_deref(), Some("hello"));
    assert_eq!(out[0].version.as_deref(), Some("2.12.1"));
    assert_eq!(out[0].profile_name.as_deref(), Some("hello"));
    assert!(matches!(
        &out[1].attr,
        PackageAttr::External { url, attr }
            if url == "github:snowfallorg/nix-software-center" && attr == "packages.x86_64-linux.default"
    ));
    assert_eq!(out[1].pname.as_deref(), Some("nix-software-center"));
    assert_eq!(out[1].version.as_deref(), Some("0.1.2"));
    assert!(matches!(
        &out[2].attr,
        PackageAttr::External { url, attr }
            if url == "flake:nixpkgs" && attr == "legacyPackages.aarch64-linux.git"
    ));
    assert_eq!(out[2].version, None);
    assert!(list(&vec![], "x86_64-linux").unwrap().is_empty());
}

#[test]
fn profile_element_that_cannot_be_read() {
    let good = element("a", Some("p"), Some("u"), &["/nix/store/abc-a-1"]);
    let no_path = element("b", Some("p"), Some("u"), &[]);
    let bad_name = element("c", Some("p"), Some("u"), &["/nix/store/abc"]);
    assert_eq!(list(&vec![good, no_path], "x").unwrap_err(), ProfileError::NoStorePath);
    let good = element("a", Some("p"), Some("u"), &["/nix/store/abc-a-1"]);
    let no_path = element("b", Some("p"), Some("u"), &[]);
    assert_eq!(
        list(&vec![good, bad_name, no_path], "x").unwrap_err(),
        ProfileError::BadStorePath(StorePathError::EmptySegment)
    );
}

#[test]
fn profile_name_of_an_attribute() {
    let l = installed();
    assert_eq!(name_from_attr("hello", &l).unwrap(), "hello");
    assert_eq!(name_from_attr("github:a/b#packages.x86_64-linux.default", &l).unwrap(), "b");
    assert_eq!(name_from_attr("github:a/b", &l).unwrap(), "b");
    assert_eq!(name_from_attr("github:c/d#packages.x86_64-linux.tool", &l).unwrap(), "tool");
    assert_eq!(name_from_attr("github:c/d", &l), Err(ProfileError::NotFound));
    assert_eq!(name_from_attr("nameless", &l), Err(ProfileError::NoProfileName));
    assert_eq!(name_from_attr("git", &l), Err(ProfileError::NotFound));
    assert_eq!(name_from_attr("", &vec![]), Err(ProfileError::NotFound));
}

#[test]
fn attribute_texts_of_the_installed() {
    assert_eq!(
        attributes(&installed()),
        v(&[
            "hello",
            "github:a/b#packages.x86_64-linux.default",
            "github:c/d#packages.x86_64-linux.tool",
            "nameless",
            "hello",
        ])
    );
}

#[test]
fn names_of_installed_packages_asked_for() {
    let l = installed();
    assert_eq!(
        installed_names(
            &v(&["git", "hello", "github:a/b", "nameless", "github:c/d#packages.x86_64-linux.tool"]),
            &l
        ),
        v(&["hello", "tool"])
    );
    assert_eq!(not_installed(&v(&["git", "hello", "github:a/b", "github:c/d"]), &l), v(&["git", "github:c/d"]));
}

#[test]
fn flake_reference_of_a_package() {
    assert_eq!(flake_ref("hello"), "nixpkgs#hello");
    assert_eq!(flake_ref("github:a/b#x"), "github:a/b#x");
    assert_eq!(flake_ref("nixpkgs#hello"), "nixpkgs#hello");
    assert_eq!(flake_ref("path:/x"), "path:/x");
    assert_eq!(flake_ref(""), "nixpkgs#");
}

#[test]
fn profile_install_command() {
    let c = install(&v(&["hello", "git", "github:x/y#z"]), &installed()).unwrap();
    assert_eq!(c.program, "nix");
    assert_eq!(
        c.args,
        v(&[
            "--extra-experimental-features",
            "nix-command flakes",
            "profile",
            "install",
            "nixpkgs#git",
            "github:x/y#z",
            "--impure",
        ])
    );
    assert_eq!(install(&v(&["hello", "github:a/b"]), &installed()).unwrap_err(), PlanError::NothingToInstall);
}

#[test]
fn profile_remove_and_update_commands() {
    let c = remove(&v(&["hello", "git"]), &installed()).unwrap();
    assert_eq!(c.program, "nix");
    assert_eq!(c.args, v(&["profile", "remove", "hello"]));
    assert_eq!(remove(&v(&["git", "nameless"]), &installed()).unwrap_err(), PlanError::NothingToRemove);
    let c = update(&v(&["github:c/d#packages.x86_64-linux.tool", "hello"]), &installed()).unwrap();
    assert_eq!(c.args, v(&["profile", "upgrade", "tool", "hello"]));
    assert_eq!(update(&v(&[]), &installed()).unwrap_err(), PlanError::NothingToUpdate);
    assert_eq!(update_all().args, v(&["profile", "upgrade", "--all"]));
    assert_eq!(update_all().program, "nix");
    assert_eq!(list_command().args, v(&["profile", "list", "--json"]));
}

#[test]
fn run_command() {
    let c = run("hello", &v(&["--greeting", "hi"]));
    assert_eq!(c.program, "nix");
    assert_eq!(
        c.args,
        v(&[
            "--extra-experimental-features",
            "nix-command flakes",
            "run",
            "nixpkgs#hello",
            "--impure",
            "--",
            "--greeting",
            "hi",
        ])
    );
    assert_eq!(run("github:a/b", &v(&[])).args[3], "github:a/b");
}

#[test]
fn version_query_of_a_package() {
    let c = version_query(&PackageAttr::NixPkgs { attr: "hello".to_string() });
    assert_eq!(c.program, "nix");
    assert_eq!(c.args, v(&["eval", "nixpkgs#hello.version", "--raw"]));
    let c = version_query(&PackageAttr::External { url: "github:a/b".to_string(), attr: "x".to_string() });
    assert_eq!(c.args, v(&["eval", "github:a/b#x.version", "--raw"]));
}

#[test]
fn updates_from_evaluated_versions() {
    let out = updatable_all(
        vec![
            nixpkgs("hello", None, Some("2.12")),
            nixpkgs("git", None, Some("2.44")),
            nixpkgs("vim", None, None),
            external("github:a/b", "x", None),
            nixpkgs("failed", None, Some("1")),
            nixpkgs("blank", None, Some("1")),
            nixpkgs("short", None, Some("1")),
        ],
        &vec![
            Some(" 2.12.1\n".to_string()),
            Some("2.44".to_string()),
            Some("9.1".to_string()),
            Some("2".to_string()),
            None,
            Some(" \n".to_string()),
        ],
    );
    assert_eq!(out.len(), 3);
    assert_eq!(out[0].attr.to_string(), "hello");
    assert_eq!((out[0].new_version.as_str(), out[0].old_version.as_str()), ("2.12.1", "2.12"));
    assert_eq!(out[1].attr.to_string(), "vim");
    assert_eq!((out[1].new_version.as_str(), out[1].old_version.as_str()), ("9.1", ""));
    assert_eq!(out[2].attr.to_string(), "github:a/b#x");
    assert_eq!((out[2].new_version.as_str(), out[2].old_version.as_str()), ("2", "1"));
}
