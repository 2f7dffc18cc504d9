use traybridge::config::{Config, DistroInfo};
use traybridge::notifications::ServerInformation;
use traybridge::watcher::{
    is_status_notifier_host_registered, is_valid_bus_name, is_valid_object_path,
    parse_registration, protocol_version, register_status_notifier_host, WatcherError,
};

#[test]
fn bus_name_validation() {
    assert!(is_valid_bus_name(":1.42"));
    assert!(is_valid_bus_name("org.kde.StatusNotifierItem"));
    assert!(is_valid_bus_name("a.b-c_d"));
    assert!(!is_valid_bus_name(""));
    assert!(!is_valid_bus_name("nodots"));
    assert!(!is_valid_bus_name("9abc.def"));
    assert!(!is_valid_bus_name("a..b"));
    assert!(!is_valid_bus_name(".a.b"));
    assert!(!is_valid_bus_name("a.b."));
    assert!(!is_valid_bus_name("a.b!c"));
    assert!(!is_valid_bus_name(":nodots"));
}

#[test]
fn object_path_validation() {
    assert!(is_valid_object_path("/"));
    assert!(is_valid_object_path("/StatusNotifierItem"));
    assert!(is_valid_object_path("/a/b_c/d9"));
    assert!(!is_valid_object_path(""));
    assert!(!is_valid_object_path("a/b"));
    assert!(!is_valid_object_path("/a/"));
    assert!(!is_valid_object_path("/a//b"));
    assert!(!is_valid_object_path("/a-b"));
}

#[test]
fn registration_with_a_bus_name_uses_the_default_path() {
    let addr = parse_registration("org.kde.App", None).unwrap();
    assert_eq!(addr.destination, "org.kde.App");
    assert_eq!(addr.path, "/StatusNotifierItem");
}

#[test]
fn anonymous_registration_takes_the_sender_and_path_override() {
    let addr = parse_registration("/my/Item", Some(":1.42")).unwrap();
    assert_eq!(addr.destination, ":1.42");
    assert_eq!(addr.path, "/my/Item");
    let addr2 = parse_registration("not a path", Some(":1.42")).unwrap();
    assert_eq!(addr2.destination, ":1.42");
    assert_eq!(addr2.path, "/StatusNotifierItem");
}

#[test]
fn registration_without_any_identity_is_refused() {
    assert_eq!(
        parse_registration("not a name", None).unwrap_err(),
        WatcherError::NoBusName
    );
}

#[test]
fn registrar_fixed_properties() {
    assert_eq!(protocol_version(), 0);
    assert!(is_status_notifier_host_registered());
    assert_eq!(
        register_status_notifier_host("org.kde.Host").unwrap_err(),
        WatcherError::NotSupported
    );
}

#[test]
fn server_information_values() {
    let info = ServerInformation::get();
    assert_eq!(info.name, "master");
    assert_eq!(info.vendor, "John Ingve Olsen");
    assert_eq!(info.version, "0.1");
    assert_eq!(info.spec_version, "1.2");
}

#[test]
fn config_and_distro_info() {
    let config = Config { distro_name: String::from("Ubuntu") };
    assert_eq!(config.distro_name(), "Ubuntu");
    let info = DistroInfo::new(
        String::from("Ubuntu"),
        String::from("admin"),
        String::from("/home/admin"),
    );
    assert_eq!(info.distro_name, "Ubuntu");
    assert_eq!(info.user_name, "admin");
    assert_eq!(info.home_folder, "/home/admin");
}
