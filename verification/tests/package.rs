use libsnow::{get_arch, nix_arch, Package, PackageAttr, PackageUpdate};

#[test]
fn attribute_text_of_a_nixpkgs_package() {
    let a = PackageAttr::NixPkgs { attr: "python3Packages.numpy".to_string() };
    assert_eq!(a.to_string(), "python3Packages.numpy");
}

#[test]
fn attribute_text_of_an_external_package() {
    let a = PackageAttr::External {
        url: "github:snowfallorg/nix-software-center".to_string(),
        attr: "packages.x86_64-linux.default".to_string(),
    };
    assert_eq!(a.to_string(), "github:snowfallorg/nix-software-center#packages.x86_64-linux.default");
    let a = PackageAttr::External { url: "".to_string(), attr: "".to_string() };
    assert_eq!(a.to_string(), "#");
}

#[test]
fn duplicate_holds_the_same_texts() {
    let a = PackageAttr::External { url: "u".to_string(), attr: "a".to_string() };
    assert_eq!(a.duplicate().to_string(), "u#a");
}

#[test]
fn defaults_are_empty() {
    assert_eq!(PackageAttr::default().to_string(), "");
    assert!(matches!(PackageAttr::default(), PackageAttr::NixPkgs { .. }));
    let p = Package::default();
    assert_eq!(p.attr.to_string(), "");
    assert_eq!((p.pname, p.version, p.profile_name), (None, None, None));
    let u = PackageUpdate::default();
    assert_eq!(u.attr.to_string(), "");
    assert_eq!(u.new_version, "");
    assert_eq!(u.old_version, "");
}

#[test]
fn arch_is_taken_from_the_first_place_that_knows() {
    let s = |t: &str| Some(t.to_string());
    assert_eq!(get_arch(s("a"), s("b"), s("c")), s("a"));
    assert_eq!(get_arch(None, s("b"), s("c")), s("b"));
    assert_eq!(get_arch(None, None, s("c")), s("c"));
    assert_eq!(get_arch(None, None, None), None);
    assert_eq!(get_arch(s("a"), None, None), s("a"));
}

#[test]
fn arch_in_the_configuration_of_nix() {
    let out = "allowed-users = *\nextra-platforms = i686-linux\nsystem = x86_64-linux\nsystem-features = kvm\n";
    assert_eq!(nix_arch(out).as_deref(), Some("x86_64-linux"));
    assert_eq!(nix_arch("system =   aarch64-darwin  ").as_deref(), Some("aarch64-darwin"));
    assert_eq!(nix_arch("build-system = a = b\nsystem = c").as_deref(), Some("a"));
    assert_eq!(nix_arch("system = ").as_deref(), Some(""));
    assert_eq!(nix_arch("system=x86_64-linux"), None);
    assert_eq!(nix_arch(""), None);
    assert_eq!(nix_arch("cores = 8\n"), None);
}
