use imageconf::build_config::descriptor_path;
use imageconf::{BuildConfig, ConfigError};

fn descriptor(image_type: &str, extra: &str) -> String {
    format!(
        "image-type = \"{}\"\nchannel = \"dev\"\nversion = 3\ntimestamp = \"20240101-001\"\nsource = \"source.tar\"\n{}",
        image_type, extra
    )
}

#[test]
fn load_minimal_rootfs() {
    let content = descriptor("rootfs", "");
    let c = BuildConfig::load("/build/mkimage.conf", false, &content).unwrap();
    assert_eq!(c.image_type(), "rootfs");
    assert_eq!(c.channel(), "dev");
    assert_eq!(c.version(), 3);
    assert_eq!(c.timestamp(), "20240101-001");
    assert_eq!(c.source(), "source.tar");
    assert!(!c.compress());
    assert!(c.kernel_version().is_none());
    assert!(c.kernel_id().is_none());
    assert!(c.realmfs_name().is_none());
    assert_eq!(c.img_name(), "rootfs");
}

#[test]
fn load_all_fields() {
    let content = descriptor(
        "kernel",
        "compress = true\nkernel-version = \"5.10.0\"\nkernel-id = \"k1\"\nrealmfs-name = \"base\"\n",
    );
    let c = BuildConfig::load("/build/mkimage.conf", false, &content).unwrap();
    assert!(c.compress());
    assert_eq!(c.kernel_version(), Some("5.10.0"));
    assert_eq!(c.kernel_id(), Some("k1"));
    assert_eq!(c.realmfs_name(), Some("base"));
}

#[test]
fn validate_accepts_all_four_image_types() {
    for itype in ["extra", "rootfs", "kernel", "realmfs"] {
        let content = descriptor(itype, "kernel-version = \"5.10.0\"\n");
        let c = BuildConfig::load("/build/mkimage.conf", false, &content).unwrap();
        assert!(c.validate(true).is_ok(), "image type {} should validate", itype);
    }
}

#[test]
fn load_rejects_unknown_image_type() {
    let content = descriptor("bogus", "");
    match BuildConfig::load("/build/mkimage.conf", false, &content) {
        Err(ConfigError::InvalidImageType(s)) => assert_eq!(s, "bogus"),
        other => panic!("expected InvalidImageType, got {:?}", other),
    }
}

#[test]
fn validate_rejects_missing_source() {
    let content = descriptor("rootfs", "");
    let c = BuildConfig::load("/build/mkimage.conf", false, &content).unwrap();
    match c.validate(false) {
        Err(ConfigError::SourceNotFound(s)) => assert_eq!(s, "source.tar"),
        other => panic!("expected SourceNotFound, got {:?}", other),
    }
}

#[test]
fn load_rejects_kernel_without_kernel_version() {
    let content = descriptor("kernel", "");
    assert!(matches!(
        BuildConfig::load("/build/mkimage.conf", false, &content),
        Err(ConfigError::MissingKernelVersion)
    ));
}

#[test]
fn validate_accepts_kernel_with_kernel_version() {
    let content = descriptor("kernel", "kernel-version = \"5.10.0\"\n");
    let c = BuildConfig::load("/build/mkimage.conf", false, &content).unwrap();
    assert!(c.validate(true).is_ok());
}

#[test]
fn validate_accepts_non_kernel_without_kernel_version() {
    let content = descriptor("extra", "");
    let c = BuildConfig::load("/build/mkimage.conf", false, &content).unwrap();
    assert!(c.validate(true).is_ok());
}

#[test]
fn img_name_joins_kernel_version() {
    let content = descriptor("kernel", "kernel-version = \"5.10.0\"\n");
    let c = BuildConfig::load("/build/mkimage.conf", false, &content).unwrap();
    assert_eq!(c.img_name(), "kernel-5.10.0");
}

#[test]
fn img_name_is_image_type_without_kernel_version() {
    let content = descriptor("realmfs", "");
    let c = BuildConfig::load("/build/mkimage.conf", false, &content).unwrap();
    assert_eq!(c.img_name(), "realmfs");
}

#[test]
fn load_rejects_malformed_document() {
    let r = BuildConfig::load("/build/mkimage.conf", false, "image-type = ");
    match r {
        Err(ConfigError::ConfigParseError { path, .. }) => {
            assert_eq!(path, "/build/mkimage.conf");
        },
        other => panic!("expected ConfigParseError, got {:?}", other),
    }
}

#[test]
fn load_rejects_missing_required_field() {
    let content = "image-type = \"rootfs\"\nchannel = \"dev\"\nversion = 3\nsource = \"s\"\n";
    assert!(matches!(
        BuildConfig::load("/build/mkimage.conf", false, content),
        Err(ConfigError::ConfigParseError { .. })
    ));
}

#[test]
fn load_rejects_wrong_field_type() {
    let content =
        "image-type = \"rootfs\"\nchannel = \"dev\"\nversion = \"x\"\ntimestamp = \"t\"\nsource = \"s\"\n";
    assert!(matches!(
        BuildConfig::load("/build/mkimage.conf", false, content),
        Err(ConfigError::ConfigParseError { .. })
    ));
}

#[test]
fn load_rejects_negative_version() {
    let content =
        "image-type = \"rootfs\"\nchannel = \"dev\"\nversion = -1\ntimestamp = \"t\"\nsource = \"s\"\n";
    assert!(matches!(
        BuildConfig::load("/build/mkimage.conf", false, content),
        Err(ConfigError::ConfigParseError { .. })
    ));
}

#[test]
fn load_rejects_non_boolean_compress() {
    let content = descriptor("rootfs", "compress = \"yes\"\n");
    assert!(matches!(
        BuildConfig::load("/build/mkimage.conf", false, &content),
        Err(ConfigError::ConfigParseError { .. })
    ));
}

#[test]
fn basedir_is_parent_of_descriptor_file() {
    let content = descriptor("rootfs", "");
    let c = BuildConfig::load("/build/area/mkimage.conf", false, &content).unwrap();
    assert_eq!(c.workdir_path("out.img"), "/build/area/out.img");
}

#[test]
fn basedir_is_directory_path_when_given_a_directory() {
    let content = descriptor("rootfs", "");
    let c = BuildConfig::load("/build/area", true, &content).unwrap();
    assert_eq!(c.workdir_path("out.img"), "/build/area/out.img");
}

#[test]
fn workdir_path_keeps_absolute_names() {
    let content = descriptor("rootfs", "");
    let c = BuildConfig::load("/build/mkimage.conf", false, &content).unwrap();
    assert_eq!(c.workdir_path("/abs/name"), "/abs/name");
}

#[test]
fn descriptor_path_appends_conventional_name_for_directories() {
    assert_eq!(descriptor_path("/build/area", true), "/build/area/mkimage.conf");
    assert_eq!(descriptor_path("/build/area/mkimage.conf", false), "/build/area/mkimage.conf");
}

#[test]
fn from_table_reads_a_parsed_document() {
    let content = descriptor("extra", "");
    let table: toml::Table = content.parse().unwrap();
    let c = BuildConfig::from_table("/d", true, &table).unwrap();
    assert_eq!(c.image_type(), "extra");
    assert_eq!(c.img_name(), "extra");
    assert_eq!(c.workdir_path("f"), "/d/f");
}

#[test]
fn io_error_carries_its_message() {
    let e = ConfigError::IoError(String::from("no such file"));
    assert!(matches!(e, ConfigError::IoError(_)));
}
