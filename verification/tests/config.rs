use libsnow::config::configfile::{
    flake_dir, get_config, get_user_pkg_type, ConfigError, ConfigFile, LibSnowConfig, UserPkgType,
};
use libsnow::toml::{packages_file, packages_file_path, PackagesFile, Section};
use std::collections::BTreeMap;

fn s(t: &str) -> Option<String> {
    Some(t.to_string())
}

fn with_flake(flake: Option<&str>) -> LibSnowConfig {
    LibSnowConfig { flake: flake.map(|f| f.to_string()), ..LibSnowConfig::default() }
}

#[test]
fn default_config_names_nothing() {
    let c = LibSnowConfig::default();
    assert_eq!(c.systemconfig, None);
    assert_eq!(c.homeconfig, None);
    assert_eq!(c.flake, None);
    assert_eq!(c.host, None);
    assert_eq!(c.generations, None);
    assert_eq!(c.packages_file, None);
    assert_eq!(c.get_generation_count(), None);
}

#[test]
fn generation_count_is_what_is_configured() {
    let c = LibSnowConfig { generations: Some(5), ..LibSnowConfig::default() };
    assert_eq!(c.get_generation_count(), Some(5));
    let c = LibSnowConfig { generations: Some(0), ..LibSnowConfig::default() };
    assert_eq!(c.get_generation_count(), Some(0));
}

#[test]
fn flake_dir_of_a_directory_is_the_path() {
    assert_eq!(with_flake(Some("/etc/nixos")).get_flake_dir(true).unwrap(), "/etc/nixos");
}

#[test]
fn flake_dir_of_a_file_is_its_parent() {
    assert_eq!(with_flake(Some("/etc/nixos/flake.nix")).get_flake_dir(false).unwrap(), "/etc/nixos");
    assert_eq!(with_flake(Some("flake.nix")).get_flake_dir(false).unwrap(), "");
}

#[test]
fn flake_dir_errors() {
    assert_eq!(with_flake(None).get_flake_dir(true), Err(ConfigError::NoFlake));
    assert_eq!(with_flake(None).get_flake_dir(false), Err(ConfigError::NoFlake));
    assert_eq!(with_flake(Some("/")).get_flake_dir(false), Err(ConfigError::NoParent));
    assert_eq!(with_flake(Some("")).get_flake_dir(false), Err(ConfigError::NoParent));
}

#[test]
fn flake_dir_from_a_given_parent() {
    assert_eq!(flake_dir(&s("/a/flake.nix"), false, s("/a")).unwrap(), "/a");
    assert_eq!(flake_dir(&s("/a/flake.nix"), true, s("/a")).unwrap(), "/a/flake.nix");
    assert_eq!(flake_dir(&s("/a/flake.nix"), false, None), Err(ConfigError::NoParent));
    assert_eq!(flake_dir(&None, false, s("/a")), Err(ConfigError::NoFlake));
}

#[test]
fn paths_of_the_configuration_files() {
    let c = LibSnowConfig {
        systemconfig: s("/etc/nixos/configuration.nix"),
        homeconfig: s("/home/u/home.nix"),
        flake: s("/etc/nixos/flake.nix"),
        ..LibSnowConfig::default()
    };
    assert_eq!(c.system_config_path().unwrap(), "/etc/nixos/configuration.nix");
    assert_eq!(c.home_config_path().unwrap(), "/home/u/home.nix");
    assert_eq!(c.flake_path().unwrap(), "/etc/nixos/flake.nix");
    let c = LibSnowConfig::default();
    assert_eq!(c.system_config_path(), Err(ConfigError::NoSystemConfig));
    assert_eq!(c.home_config_path(), Err(ConfigError::NoHomeConfig));
    assert_eq!(c.flake_path(), Err(ConfigError::NoFlake));
}

#[test]
fn user_config_wins_over_system_config() {
    assert_eq!(get_config(true, true), Ok(ConfigFile::User));
    assert_eq!(get_config(true, false), Ok(ConfigFile::User));
    assert_eq!(get_config(false, true), Ok(ConfigFile::System));
    assert_eq!(get_config(false, false), Err(ConfigError::NoConfigFile));
}

#[test]
fn user_package_type() {
    assert_eq!(get_user_pkg_type(true, true, true, &s("[ x ]")), UserPkgType::Profile);
    assert_eq!(get_user_pkg_type(false, false, true, &s("[ x ]")), UserPkgType::Profile);
    assert_eq!(get_user_pkg_type(false, true, false, &None), UserPkgType::Profile);
    assert_eq!(get_user_pkg_type(false, true, true, &s("[ ]")), UserPkgType::Profile);
    assert_eq!(get_user_pkg_type(false, true, true, &s("[ x ]")), UserPkgType::Env);
    assert_eq!(get_user_pkg_type(false, true, true, &s("[ ]\n")), UserPkgType::Env);
    assert_eq!(get_user_pkg_type(false, true, true, &None), UserPkgType::Env);
}

#[test]
fn packages_file_where_the_config_says() {
    let c = LibSnowConfig {
        packages_file: s("/srv/packages.toml"),
        systemconfig: s("/etc/nixos/configuration.nix"),
        ..LibSnowConfig::default()
    };
    assert_eq!(packages_file_path(&c).unwrap(), "/srv/packages.toml");
}

#[test]
fn packages_file_beside_a_configuration_file() {
    let c = LibSnowConfig {
        systemconfig: s("/etc/nixos/configuration.nix"),
        homeconfig: s("/home/u/.config/home.nix"),
        ..LibSnowConfig::default()
    };
    assert_eq!(packages_file_path(&c).unwrap(), "/etc/nixos/packages.toml");
    let c = LibSnowConfig { homeconfig: s("/home/u/.config/home.nix"), ..LibSnowConfig::default() };
    assert_eq!(packages_file_path(&c).unwrap(), "/home/u/.config/packages.toml");
    let c = LibSnowConfig { systemconfig: s("configuration.nix"), ..LibSnowConfig::default() };
    assert_eq!(packages_file_path(&c).unwrap(), "packages.toml");
    let c = LibSnowConfig {
        systemconfig: s("/"),
        homeconfig: s("/h/home.nix"),
        ..LibSnowConfig::default()
    };
    assert_eq!(packages_file_path(&c).unwrap(), "/h/packages.toml");
    let c = LibSnowConfig { systemconfig: s("/configuration.nix"), ..LibSnowConfig::default() };
    assert_eq!(packages_file_path(&c).unwrap(), "/packages.toml");
}

#[test]
fn packages_file_unknown() {
    assert_eq!(packages_file_path(&LibSnowConfig::default()), Err(ConfigError::NoPackagesFile));
    let c = LibSnowConfig { systemconfig: s("/"), ..LibSnowConfig::default() };
    assert_eq!(packages_file_path(&c), Err(ConfigError::NoPackagesFile));
}

#[test]
fn packages_file_from_given_directories() {
    assert_eq!(packages_file(&s("p"), s("a"), s("b")).unwrap(), "p");
    assert_eq!(packages_file(&None, s("a"), s("b")).unwrap(), "a/packages.toml");
    assert_eq!(packages_file(&None, s("a/"), s("b")).unwrap(), "a/packages.toml");
    assert_eq!(packages_file(&None, s(""), s("b")).unwrap(), "packages.toml");
    assert_eq!(packages_file(&None, None, s("b")).unwrap(), "b/packages.toml");
    assert_eq!(packages_file(&None, None, None), Err(ConfigError::NoPackagesFile));
}

#[test]
fn packages_file_holds_sections() {
    let mut home = BTreeMap::new();
    home.insert("alice".to_string(), Section { packages: vec!["git".to_string()] });
    let f = PackagesFile { system: Section::default(), home };
    assert!(f.system.packages.is_empty());
    assert_eq!(f.home["alice"].packages, vec!["git"]);
}
