use eltor_backend::static_files::{env_config, env_script, get_content_type, index_path, inject_env_script, static_target, EnvConfig, StaticTarget};

#[test]
fn content_types_by_extension() {
    assert_eq!(get_content_type("frontend/dist/index.html"), "text/html");
    assert_eq!(get_content_type("a/b/app.JS"), "application/octet-stream");
    assert_eq!(get_content_type("a/b/app.js"), "application/javascript");
    assert_eq!(get_content_type("photo.jpeg"), "image/jpeg");
    assert_eq!(get_content_type("font.woff2"), "font/woff2");
    assert_eq!(get_content_type(".hidden"), "application/octet-stream");
    assert_eq!(get_content_type("archive.tar.svg"), "image/svg+xml");
    assert_eq!(get_content_type("noext"), "application/octet-stream");
}

#[test]
fn request_paths() {
    assert!(matches!(static_target("/", false), StaticTarget::Index));
    assert!(matches!(static_target("//index.html", true), StaticTarget::Index));
    match static_target("/assets/app.js", true) {
        StaticTarget::File(p) => assert_eq!(p, "../frontend/dist/assets/app.js"),
        StaticTarget::Index => panic!("expected a file"),
    }
    match static_target("assets/app.js", false) {
        StaticTarget::File(p) => assert_eq!(p, "frontend/dist/assets/app.js"),
        StaticTarget::Index => panic!("expected a file"),
    }
    assert_eq!(index_path(true), "../frontend/dist/index.html");
}

#[test]
fn backend_addresses() {
    let c = env_config(&None, &None, &None);
    assert_eq!((c.backend_port.as_str(), c.backend_url.as_str(), c.api_base_url.as_str()), ("5174", "http://localhost:5174", "http://localhost:5174"));
    let c = env_config(&None, &Some("443".to_string()), &None);
    assert_eq!(c.backend_url, "https://localhost");
    assert_eq!(c.api_base_url, "https://localhost");
    let c = env_config(&Some("8080".to_string()), &Some("1".to_string()), &Some("https://eltor.app".to_string()));
    assert_eq!(c.api_base_url, "https://eltor.app:8080");
    let c = env_config(&Some("80".to_string()), &None, &Some(String::new()));
    assert_eq!(c.backend_url, "http://localhost");
    assert_eq!(c.api_base_url, "http://localhost");
    let c = env_config(&Some("9".to_string()), &None, &Some("backend".to_string()));
    assert_eq!(c.api_base_url, "backend:9");
}

#[test]
fn script_is_injected() {
    let c = EnvConfig {
        backend_port: "5174".to_string(),
        backend_url: "http://localhost:5174".to_string(),
        api_base_url: "http://a\"b".to_string(),
    };
    let s = env_script(&c);
    assert_eq!(
        s,
        "<script>window.__ENV_CONFIG__ = {\"API_BASE_URL\":\"http://a\\\"b\",\"BACKEND_PORT\":\"5174\",\"BACKEND_URL\":\"http://localhost:5174\"};</script>"
    );
    assert_eq!(inject_env_script("<head><script src=x></script></head>", "S"), "<head>S<script src=x></script></head>");
    assert_eq!(inject_env_script("<head></head><body></body>", "S"), "<head>S</head><body></body>");
    assert_eq!(inject_env_script("<p>", "S"), "<p>");
}
