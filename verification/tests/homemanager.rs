use libsnow::config::configfile::{ConfigError, LibSnowConfig};
use libsnow::homemanager::{install, list, list_references, rebuild, remove, update, write_command};
use libsnow::nixos::install::PlanError;

fn v(list: &[&str]) -> Vec<String> {
    list.iter().map(|s| s.to_string()).collect()
}

fn s(t: &str) -> Option<String> {
    Some(t.to_string())
}

fn config() -> LibSnowConfig {
    LibSnowConfig {
        homeconfig: s("/home/u/.config/home-manager/home.nix"),
        generations: Some(3),
        ..LibSnowConfig::default()
    }
}

#[test]
fn home_install_plan() {
    assert_eq!(
        install(&v(&["hello", "git"]), &vec![s("hello"), s("git")], &v(&["git"]), &Some(v(&[]))),
        Ok(v(&["pkgs.hello"]))
    );
    assert_eq!(
        install(&v(&["nothere"]), &vec![None], &v(&[]), &None),
        Err(PlanError::NothingToInstall)
    );
}

#[test]
fn home_remove_plan() {
    assert_eq!(
        remove(&v(&["hello", "git"]), &vec![s("hello"), s("git")], &v(&["git"]), &Some(v(&["pkgs"]))),
        Ok(v(&["git"]))
    );
    assert_eq!(
        remove(&v(&["hello"]), &vec![s("hello")], &v(&[]), &None),
        Err(PlanError::NothingToRemove)
    );
}

#[test]
fn command_that_writes_the_home_configuration() {
    let c = write_command(&config(), &s("/home/u/flake")).unwrap();
    assert_eq!(c.program, "libsnow-helper");
    assert_eq!(
        c.args,
        v(&[
            "config-home",
            "--output",
            "/home/u/.config/home-manager/home.nix",
            "--generations",
            "3",
            "--",
            "switch",
            "--flake",
            "/home/u/flake",
        ])
    );
    assert_eq!(
        write_command(&LibSnowConfig::default(), &None).unwrap_err(),
        ConfigError::NoHomeConfig
    );
}

#[test]
fn commands_that_rebuild_and_update_the_home() {
    let c = rebuild(&config(), &None);
    assert_eq!(c.program, "libsnow-helper");
    assert_eq!(c.args, v(&["rebuild-home", "--generations", "3", "--", "switch"]));
    let c = update(&config(), &s("/f"));
    assert_eq!(
        c.args,
        v(&["update-home", "--generations", "3", "--flake", "/f", "--", "switch", "--flake", "/f"])
    );
    let c = update(&LibSnowConfig::default(), &None);
    assert_eq!(c.args, v(&["update-home", "--", "switch"]));
}

#[test]
fn home_lists() {
    let out = list(&v(&["hello"]), &vec![vec![("hello".to_string(), "".to_string())]]);
    assert_eq!(out.len(), 1);
    assert_eq!(out[0].version, None);
    assert_eq!(list_references("/nix/store/b-x\n/nix/store/a-y\n"), v(&["a-y", "b-x"]));
}
