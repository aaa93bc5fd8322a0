use uefi_run::path::component_ok_exec;
use uefi_run::path::join_prefix;
use uefi_run::path::split_components;
use uefi_run::path::split_image_path;

#[test]
fn components_skip_root_and_repeated_separators() {
    assert_eq!(split_components("/a//b/c.bin/"), vec!["a", "b", "c.bin"]);
    assert_eq!(split_components("boot/a.bin"), vec!["boot", "a.bin"]);
    assert_eq!(split_components("run.efi"), vec!["run.efi"]);
    assert_eq!(split_components("///"), Vec::<String>::new());
    assert_eq!(split_components(""), Vec::<String>::new());
}

#[test]
fn prefixes_rejoin_with_single_separators() {
    let comps = split_components("/a//b/c.bin");
    assert_eq!(join_prefix(&comps, 3), "a/b/c.bin");
    assert_eq!(join_prefix(&comps, 2), "a/b");
    assert_eq!(join_prefix(&comps, 1), "a");
    assert_eq!(join_prefix(&comps, 0), "");
}

#[test]
fn acceptable_destination_paths() {
    assert!(split_image_path("EFI/Boot/BootX64.efi").is_some());
    assert!(split_image_path("run.efi").is_some());
    assert!(split_image_path("/rooted/name.bin").is_some());
    assert!(split_image_path("").is_none());
    assert!(split_image_path("..").is_none());
    assert!(split_image_path("a/../b").is_none());
    assert!(split_image_path("til~de").is_none());
    assert!(split_image_path("sp ace").is_none());
    assert!(split_image_path("dot.").is_none());
}

#[test]
fn component_rules() {
    assert!(component_ok_exec("BootX64.efi"));
    assert!(component_ok_exec("a-b_c'd!e"));
    assert!(!component_ok_exec(""));
    assert!(!component_ok_exec("."));
    assert!(!component_ok_exec(".."));
    assert!(!component_ok_exec("trailing."));
    assert!(!component_ok_exec("has/sep"));
    assert!(!component_ok_exec("co:lon"));
    assert!(!component_ok_exec("star*"));
}
