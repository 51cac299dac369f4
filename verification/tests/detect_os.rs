use polyws::vm::detect_os::{detect, OsType};

#[test]
fn detects_ubuntu() {
    assert_eq!(detect("Linux\nNAME=\"Ubuntu 22.04\""), OsType::Ubuntu);
}

#[test]
fn detects_macos() {
    assert_eq!(detect("Darwin"), OsType::MacOs);
}

#[test]
fn detects_arch() {
    assert_eq!(detect("Linux\nNAME=\"Arch Linux\""), OsType::Arch);
}

#[test]
fn detects_debian_and_unknown() {
    assert_eq!(detect("Linux\nNAME=\"Debian GNU/Linux\""), OsType::Debian);
    assert_eq!(detect("  Plan9  \nmore"), OsType::Unknown("Plan9".to_string()));
    assert_eq!(detect(""), OsType::Unknown("unknown".to_string()));
}

#[test]
fn detection_ignores_case() {
    assert_eq!(detect("UBUNTU"), OsType::Ubuntu);
    assert_eq!(detect("MacOS 14"), OsType::MacOs);
}

#[test]
fn os_display_names() {
    assert_eq!(OsType::Arch.display_name(), "Arch Linux");
    assert_eq!(OsType::MacOs.display_name(), "macOS");
    assert_eq!(OsType::Unknown("Plan9".to_string()).display_name(), "Unknown (Plan9)");
}
