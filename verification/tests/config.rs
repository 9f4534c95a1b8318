use onvif_proxy::camera::manager::CameraManager;
use onvif_proxy::config::{
    default_log_level, default_model, resolve_base_url, AppConfig, CameraConfig, ProxyConfig,
};

fn camera(id: &str, address: &str) -> CameraConfig {
    CameraConfig {
        id: id.to_string(),
        name: format!("Camera {}", id),
        address: address.to_string(),
        username: "admin".to_string(),
        password: "pw".to_string(),
        model: default_model(),
        enable_smart_detection: false,
        quirks: vec![],
    }
}

#[test]
fn defaults() {
    assert_eq!(default_log_level(), "info");
    assert_eq!(default_model(), "reolink");
}

#[test]
fn get_camera_finds_the_first_with_the_id() {
    let config = AppConfig {
        proxy: ProxyConfig {
            listen_address: "0.0.0.0:8000".to_string(),
            base_path: "/onvif".to_string(),
            log_level: default_log_level(),
            base_url: None,
        },
        cameras: vec![camera("a", "1.1.1.1:80"), camera("b", "2.2.2.2:80"), camera("a", "3.3.3.3:80")],
    };
    assert_eq!(config.get_camera("a").unwrap().address, "1.1.1.1:80");
    assert_eq!(config.get_camera("b").unwrap().address, "2.2.2.2:80");
    assert!(config.get_camera("c").is_none());
    assert!(config.get_camera("").is_none());
}

#[test]
fn base_url_and_host() {
    let c = camera("a", "192.168.1.10:8000");
    assert_eq!(c.base_url(), "http://192.168.1.10:8000");
    assert_eq!(c.host(), "192.168.1.10");
    assert_eq!(camera("a", "camera.local").host(), "camera.local");
    assert_eq!(camera("a", ":80").host(), "");
    assert_eq!(camera("a", "a:b:c").host(), "a");
}

#[test]
fn resolve_base_url_by_priority() {
    assert_eq!(
        resolve_base_url(Some("http://gw:1"), Some("http://env:2"), "0.0.0.0:8000", Some("10.0.0.5")),
        "http://gw:1"
    );
    assert_eq!(
        resolve_base_url(Some("  \t"), Some("http://env:2"), "0.0.0.0:8000", Some("10.0.0.5")),
        "http://env:2"
    );
    assert_eq!(resolve_base_url(Some(""), None, "0.0.0.0:8123", Some("10.0.0.5")), "http://10.0.0.5:8123");
    assert_eq!(resolve_base_url(None, None, "0.0.0.0:8123", None), "http://127.0.0.1:8123");
    assert_eq!(resolve_base_url(None, None, "localhost", None), "http://127.0.0.1:8000");
    assert_eq!(resolve_base_url(None, None, "a:b:c", None), "http://127.0.0.1:b");
    assert_eq!(resolve_base_url(Some(" http://gw "), None, "x", None), " http://gw ");
}

#[test]
fn manager_registers_and_removes() {
    let mut manager = CameraManager::new();
    assert!(manager.list_camera_ids().is_empty());
    manager.add_camera(camera("a", "1.1.1.1:80"));
    manager.add_camera(camera("b", "2.2.2.2:80"));
    manager.add_camera(camera("a", "3.3.3.3:80"));
    assert_eq!(manager.list_camera_ids(), vec!["a".to_string(), "b".to_string()]);
    assert_eq!(manager.get_camera("a").unwrap().config().address, "3.3.3.3:80");
    assert!(manager.get_camera("zzz").is_none());
    assert!(manager.remove_camera("a").is_ok());
    assert_eq!(manager.list_camera_ids(), vec!["b".to_string()]);
    let err = manager.remove_camera("a").unwrap_err();
    assert_eq!(err.message(), "Camera a not found");
    assert_eq!(manager.list_camera_ids(), vec!["b".to_string()]);
    assert!(CameraManager::default().list_camera_ids().is_empty());
}
