use uefi_run::parse_file_arg;
use uefi_run::Args;
use uefi_run::ParseError;
use uefi_run::PathSpec;

#[test]
fn test_parse_add_file_args() {
    let mut args = Args::default();
    args.add_file = vec![
        "/full/path/to/outer:/full/path/to/inner".to_string(),
        "/full/path/to/outer:inner".to_string(),
        "outer:inner".to_string(),
        "/full/path/to/outer".to_string(),
        "outer".to_string(),
    ];
    let expected = vec![
        ("/full/path/to/outer", "/full/path/to/inner"),
        ("/full/path/to/outer", "inner"),
        ("outer", "inner"),
        ("/full/path/to/outer", "outer"),
        ("outer", "outer"),
    ];
    let actual: Vec<PathSpec> = args
        .parse_add_file_args()
        .into_iter()
        .map(|x| x.unwrap())
        .collect();
    assert_eq!(actual.len(), expected.len());
    for (got, (host, image)) in actual.iter().zip(expected.iter()) {
        assert_eq!(got.host_path, *host);
        assert_eq!(got.image_path, *image);
    }
}

#[test]
fn no_colon_token_takes_final_component() {
    let spec = parse_file_arg("/full/path/to/outer").unwrap();
    assert_eq!(spec.host_path, "/full/path/to/outer");
    assert_eq!(spec.image_path, "outer");

    let spec = parse_file_arg("outer").unwrap();
    assert_eq!(spec.host_path, "outer");
    assert_eq!(spec.image_path, "outer");

    let spec = parse_file_arg("dir/sub/app.efi").unwrap();
    assert_eq!(spec.image_path, "app.efi");

    let spec = parse_file_arg("trailing/slash/").unwrap();
    assert_eq!(spec.image_path, "slash");
}

#[test]
fn multi_colon_token_is_malformed() {
    assert_eq!(parse_file_arg("a:b:c").unwrap_err(), ParseError::Malformed);
    assert_eq!(
        parse_file_arg("/full/path:inner:extra").unwrap_err(),
        ParseError::Malformed
    );
}

#[test]
fn empty_host_is_rejected() {
    assert_eq!(parse_file_arg("").unwrap_err(), ParseError::EmptyHost);
    assert_eq!(parse_file_arg(":inner").unwrap_err(), ParseError::EmptyHost);
}

#[test]
fn trailing_dot_components_are_skipped() {
    // `.` names the directory itself, so the implicit leaf is the component
    // before it, exactly as the platform's final-component rule has it.
    let spec = parse_file_arg("foo.txt/.").unwrap();
    assert_eq!(spec.host_path, "foo.txt/.");
    assert_eq!(spec.image_path, "foo.txt");

    let spec = parse_file_arg("a/b/./.").unwrap();
    assert_eq!(spec.host_path, "a/b/./.");
    assert_eq!(spec.image_path, "b");

    assert_eq!(parse_file_arg(".").unwrap_err(), ParseError::EmptyImage);
    assert_eq!(parse_file_arg("./.").unwrap_err(), ParseError::EmptyImage);
    assert_eq!(parse_file_arg("../.").unwrap_err(), ParseError::EmptyImage);
}

#[test]
fn empty_image_is_rejected() {
    assert_eq!(parse_file_arg("outer:").unwrap_err(), ParseError::EmptyImage);
    assert_eq!(parse_file_arg("///").unwrap_err(), ParseError::EmptyImage);
    assert_eq!(parse_file_arg("..").unwrap_err(), ParseError::EmptyImage);
    assert_eq!(parse_file_arg("a/..").unwrap_err(), ParseError::EmptyImage);
}

#[test]
fn default_args_are_empty() {
    let args = Args::default();
    assert_eq!(args.bios_path, "");
    assert_eq!(args.qemu_path, "");
    assert_eq!(args.size, 0);
    assert!(args.add_file.is_empty());
    assert_eq!(args.efi_exe, "");
    assert!(args.qemu_args.is_empty());
    assert!(!args.boot);
    assert!(args.parse_add_file_args().is_empty());
}
