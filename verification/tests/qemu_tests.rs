use uefi_run::QemuConfig;
use uefi_run::QemuDriveConfig;

#[test]
fn drive_config_holds_its_fields() {
    let drive = QemuDriveConfig::new("/tmp/image.fat", "disk", "raw");
    assert_eq!(drive.file, "/tmp/image.fat");
    assert_eq!(drive.media, "disk");
    assert_eq!(drive.format, "raw");
}

#[test]
fn default_config_disables_networking() {
    let config = QemuConfig::default();
    assert_eq!(config.qemu_path, "qemu-system-x86_64");
    assert_eq!(config.bios_path, "OVMF.fd");
    assert!(config.drives.is_empty());
    assert_eq!(config.additional_args, vec!["-net".to_string(), "none".to_string()]);
    assert_eq!(config.build_args(), vec!["-bios", "OVMF.fd", "-net", "none"]);
}

#[test]
fn invocation_matches_the_firmware_boot_shape() {
    let mut config = QemuConfig::default();
    config.bios_path = "/firmware/OVMF.fd".to_string();
    config.drives.push(QemuDriveConfig::new("/tmp/image.fat", "disk", "raw"));
    config.additional_args.push("-serial".to_string());
    config.additional_args.push("stdio".to_string());
    let args = config.build_args();
    assert_eq!(
        args,
        vec![
            "-bios",
            "/firmware/OVMF.fd",
            "-drive",
            "file=/tmp/image.fat,index=0,media=disk,format=raw",
            "-net",
            "none",
            "-serial",
            "stdio",
        ]
    );
}

#[test]
fn drive_indexes_count_up_in_order() {
    let mut config = QemuConfig::default();
    config.additional_args.clear();
    config.drives.push(QemuDriveConfig::new("a.img", "disk", "raw"));
    config.drives.push(QemuDriveConfig::new("b.img", "cdrom", "raw"));
    let args = config.build_args();
    assert_eq!(
        args,
        vec![
            "-bios",
            "OVMF.fd",
            "-drive",
            "file=a.img,index=0,media=disk,format=raw",
            "-drive",
            "file=b.img,index=1,media=cdrom,format=raw",
        ]
    );
}

#[test]
fn large_drive_indexes_print_in_decimal() {
    let mut config = QemuConfig::default();
    config.additional_args.clear();
    for i in 0..12 {
        config.drives.push(QemuDriveConfig::new(&format!("d{}.img", i), "disk", "raw"));
    }
    let args = config.build_args();
    assert_eq!(args[2 + 2 * 10 + 1], "file=d10.img,index=10,media=disk,format=raw");
    assert_eq!(args[2 + 2 * 11 + 1], "file=d11.img,index=11,media=disk,format=raw");
}
