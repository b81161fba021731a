use picam::api_handlers::{AuthError, Error};
use picam::config::Config;
use picam::frontend::{Frontend, HttpMethod, Page};
use picam::models::FileSinkConfig;
use picam::storage::{MemoryDeviceStorage, MemoryStorage, ObservableStorage, SimpleStorage};
use picam::sys::Device;

#[test]
fn frontend_shows_init_until_an_account_exists() {
    let mut frontend = Frontend::new(false);
    assert_eq!(frontend.call(HttpMethod::Get, false), Page::Init);
    // The first POST creates the administrator and enters the application.
    assert_eq!(frontend.call(HttpMethod::Post, false), Page::Index);
    // From then on credentials decide.
    assert_eq!(frontend.call(HttpMethod::Get, false), Page::Login);
    assert_eq!(frontend.call(HttpMethod::Get, true), Page::Index);
    assert_eq!(frontend.call(HttpMethod::Post, false), Page::Login);
    assert_eq!(frontend.call(HttpMethod::Post, true), Page::Index);
    assert_eq!(frontend.call(HttpMethod::Other, false), Page::Index);
}

#[test]
fn api_error_constructors_carry_their_messages() {
    match Error::not_found("missing".to_string()) {
        Error::NotFound(m) => assert_eq!(m.error, "missing"),
        _ => panic!("expected NotFound"),
    }
    match Error::server_error("boom".to_string()) {
        Error::ServerError(m) => assert_eq!(m.error, "boom"),
        _ => panic!("expected ServerError"),
    }
}

#[test]
fn auth_errors_map_to_bad_requests() {
    match Error::from(AuthError::UserMissing) {
        Error::BadRequest(m) => assert_eq!(m.error, "Invalid username"),
        _ => panic!("expected BadRequest"),
    }
    match Error::from(AuthError::InccorectPassword) {
        Error::BadRequest(m) => assert_eq!(m.error, "Invalid password"),
        _ => panic!("expected BadRequest"),
    }
}

#[test]
fn memory_storage_bumps_its_version_on_every_write() {
    let mut store: MemoryStorage<FileSinkConfig> = MemoryStorage::new(FileSinkConfig::default());
    assert_eq!(store.version(), 0);
    assert_eq!(store.get().max_file_duration, Some(600));
    let tighter = FileSinkConfig { max_file_duration: Some(60), ..FileSinkConfig::default() };
    store.set(&tighter);
    assert_eq!(store.version(), 1);
    assert_eq!(store.get().max_file_duration, Some(60));
    store.set(&FileSinkConfig::default());
    assert_eq!(store.version(), 2);
}

#[test]
fn file_sink_defaults_match_the_documented_policy() {
    let config = FileSinkConfig::default();
    assert_eq!(config.max_file_duration, Some(600));
    assert_eq!(config.max_number_of_file, None);
    assert_eq!(config.max_system_usage, 900);
}

#[test]
fn device_storage_hands_back_the_snapshot() {
    let devices = vec![Device { path: "/dev/video0".to_string(), capabilities: Vec::new() }];
    let storage = MemoryDeviceStorage::new(devices);
    assert_eq!(storage.devices().len(), 1);
    assert_eq!(storage.devices()[0].path, "/dev/video0");
}

#[test]
fn service_defaults_name_the_usual_paths() {
    let config = Config::defaults();
    assert_eq!(config.db, "./picam.db");
    assert_eq!(config.app_data, "./app_data");
    assert_eq!(config.bind, "0.0.0.0:8080");
}
