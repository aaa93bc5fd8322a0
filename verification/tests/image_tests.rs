use std::io::Read;

use uefi_run::build_startup_script;
use uefi_run::mib_to_bytes;
use uefi_run::parse_file_arg;
use uefi_run::EfiImage;
use uefi_run::ImageError;

const MIB: usize = 1024 * 1024;

/// Opens the finished volume the way its next consumer would and reads one
/// file back, or `None` if no file exists at `path`.
fn read_back(bytes: &[u8], path: &str) -> Option<Vec<u8>> {
    let cursor = std::io::Cursor::new(bytes.to_vec());
    let fs = fatfs::FileSystem::new(cursor, fatfs::FsOptions::new()).unwrap();
    let root = fs.root_dir();
    let mut file = match root.open_file(path) {
        Ok(file) => file,
        Err(_) => return None,
    };
    let mut out = Vec::new();
    file.read_to_end(&mut out).unwrap();
    Some(out)
}

/// How many entries of the volume's root directory carry the given name.
fn root_entries_named(bytes: &[u8], name: &str) -> usize {
    let cursor = std::io::Cursor::new(bytes.to_vec());
    let fs = fatfs::FileSystem::new(cursor, fatfs::FsOptions::new()).unwrap();
    let root = fs.root_dir();
    let mut count = 0;
    for entry in root.iter() {
        let entry = entry.unwrap();
        if entry.file_name().eq_ignore_ascii_case(name) {
            count += 1;
        }
    }
    count
}

#[test]
fn mib_conversion_is_exact() {
    assert_eq!(mib_to_bytes(10), Some(10 * 1024 * 1024));
    assert_eq!(mib_to_bytes(0), Some(0));
    assert_eq!(mib_to_bytes(1), Some(1_048_576));
    assert_eq!(mib_to_bytes(u64::MAX / 1_048_576), Some((u64::MAX / 1_048_576) * 1_048_576));
    assert_eq!(mib_to_bytes(u64::MAX / 1_048_576 + 1), None);
}

#[test]
fn backing_length_is_exactly_the_requested_size() {
    let size = mib_to_bytes(10).unwrap() as usize;
    let image = EfiImage::new(size).unwrap();
    let bytes = image.into_bytes();
    assert_eq!(bytes.len(), 10 * 1_048_576);
}

#[test]
fn fresh_image_holds_no_files() {
    let image = EfiImage::new(10 * MIB).unwrap();
    let bytes = image.into_bytes();
    assert_eq!(read_back(&bytes, "run.efi"), None);
    assert_eq!(read_back(&bytes, "startup.nsh"), None);
}

#[test]
fn mandatory_entries_default_mode() {
    // Scenario: size 10 MiB, no add-file arguments, only the executable.
    let efi = b"example executable payload".to_vec();
    let mut image = EfiImage::new(10 * MIB).unwrap();
    image.write_mandatory_entries(&efi, false).unwrap();
    let bytes = image.into_bytes();
    assert_eq!(bytes.len(), 10 * MIB);
    assert_eq!(read_back(&bytes, "run.efi").unwrap(), efi);
    assert_eq!(read_back(&bytes, "startup.nsh").unwrap(), b"run.efi\n".to_vec());
    assert_eq!(build_startup_script(), b"run.efi\n".to_vec());
}

#[test]
fn mandatory_entries_direct_boot_mode() {
    let efi = b"direct boot payload".to_vec();
    let mut image = EfiImage::new(10 * MIB).unwrap();
    image.write_mandatory_entries(&efi, true).unwrap();
    let bytes = image.into_bytes();
    assert_eq!(read_back(&bytes, "EFI/Boot/BootX64.efi").unwrap(), efi);
    assert_eq!(read_back(&bytes, "startup.nsh").unwrap(), b"run.efi\n".to_vec());
    assert_eq!(read_back(&bytes, "run.efi"), None);
}

#[test]
fn placement_token_lands_in_nested_directory() {
    // Scenario: the token `/tmp/a.bin:boot/a.bin` places the host bytes at
    // `boot/a.bin`, creating the directory `boot` on the way.
    let spec = parse_file_arg("/tmp/a.bin:boot/a.bin").unwrap();
    assert_eq!(spec.host_path, "/tmp/a.bin");
    assert_eq!(spec.image_path, "boot/a.bin");

    let payload = b"nested payload".to_vec();
    let mut image = EfiImage::new(10 * MIB).unwrap();
    image.write_mandatory_entries(b"exe", false).unwrap();
    image.set_file_contents(&spec.image_path, &payload).unwrap();
    let bytes = image.into_bytes();
    assert_eq!(read_back(&bytes, "boot/a.bin").unwrap(), payload);
}

#[test]
fn deep_directories_are_created_on_demand() {
    let payload = b"deep".to_vec();
    let mut image = EfiImage::new(10 * MIB).unwrap();
    image.set_file_contents("a/b/c/d.bin", &payload).unwrap();
    // Skipped root separators and repeated writes through existing
    // directories are no-ops, not errors.
    image.set_file_contents("/a/b/e.bin", b"sibling").unwrap();
    let bytes = image.into_bytes();
    assert_eq!(read_back(&bytes, "a/b/c/d.bin").unwrap(), payload);
    assert_eq!(read_back(&bytes, "a/b/e.bin").unwrap(), b"sibling".to_vec());
}

#[test]
fn writing_twice_overwrites_without_duplicating() {
    let mut image = EfiImage::new(10 * MIB).unwrap();
    image.set_file_contents("data.txt", b"first contents, rather long").unwrap();
    image.set_file_contents("data.txt", b"second").unwrap();
    let bytes = image.into_bytes();
    assert_eq!(read_back(&bytes, "data.txt").unwrap(), b"second".to_vec());
    assert_eq!(root_entries_named(&bytes, "data.txt"), 1);
}

#[test]
fn overwrite_matches_names_case_insensitively() {
    let mut image = EfiImage::new(10 * MIB).unwrap();
    image.set_file_contents("Boot/Data.txt", b"first").unwrap();
    image.set_file_contents("boot/data.txt", b"second").unwrap();
    let bytes = image.into_bytes();
    assert_eq!(read_back(&bytes, "boot/data.txt").unwrap(), b"second".to_vec());
}

#[test]
fn mandatory_entries_survive_user_placements() {
    let efi = b"the executable".to_vec();
    let mut image = EfiImage::new(10 * MIB).unwrap();
    image.write_mandatory_entries(&efi, false).unwrap();
    image.set_file_contents("one.bin", b"1").unwrap();
    image.set_file_contents("two/two.bin", b"22").unwrap();
    image.set_file_contents("three.bin", b"333").unwrap();
    let bytes = image.into_bytes();
    assert!(read_back(&bytes, "run.efi").is_some());
    assert!(read_back(&bytes, "startup.nsh").is_some());
    assert_eq!(read_back(&bytes, "run.efi").unwrap(), efi);
}

#[test]
fn invalid_destination_paths_are_rejected() {
    let mut image = EfiImage::new(1 * MIB).unwrap();
    assert_eq!(image.set_file_contents("", b"x").unwrap_err(), ImageError::InvalidPath);
    assert_eq!(image.set_file_contents("///", b"x").unwrap_err(), ImageError::InvalidPath);
    assert_eq!(image.set_file_contents("a/../b", b"x").unwrap_err(), ImageError::InvalidPath);
    assert_eq!(image.set_file_contents("./a", b"x").unwrap_err(), ImageError::InvalidPath);
    assert_eq!(image.set_file_contents("sp ace", b"x").unwrap_err(), ImageError::InvalidPath);
    assert_eq!(image.set_file_contents("til~de", b"x").unwrap_err(), ImageError::InvalidPath);
    assert_eq!(image.set_file_contents("dot.", b"x").unwrap_err(), ImageError::InvalidPath);
    assert_eq!(image.set_file_contents("co:lon", b"x").unwrap_err(), ImageError::InvalidPath);
    // The image is untouched by rejected placements.
    let bytes = image.into_bytes();
    assert_eq!(read_back(&bytes, "b"), None);
}

#[test]
fn volume_refusals_are_io_errors() {
    let mut image = EfiImage::new(1 * MIB).unwrap();
    image.set_file_contents("boot/a.bin", b"x").unwrap();
    // `boot` already exists as a directory, so it cannot become a file.
    assert_eq!(image.set_file_contents("boot", b"x").unwrap_err(), ImageError::Io);
    // `boot/a.bin` is a file, so nothing can be placed beneath it.
    assert_eq!(image.set_file_contents("boot/a.bin/sub.txt", b"x").unwrap_err(), ImageError::Io);
}

#[test]
fn unformattable_sizes_fail_with_format_error() {
    assert_eq!(EfiImage::new(512).unwrap_err(), ImageError::Format);
}
