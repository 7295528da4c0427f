use schluessel::config::{
    bind_address, host_or_default, port_or_default, shared_secret_or_default,
};
use schluessel::gate::{authenticate, Decision};
use schluessel::registry::Registry;
use schluessel::render::{render_dashboard, sign_in_page};

#[test]
fn sign_in_page_posts_the_password_to_the_gate() {
    let page = sign_in_page();
    assert!(page.contains("<form action=\"/authenticate\" method=\"post\""));
    assert!(page.contains("name=\"password\""));
}

#[test]
fn empty_snapshot_renders_an_empty_dashboard() {
    let r = Registry::new();
    let secret = shared_secret_or_default(None);
    let html = render_dashboard(&r.snapshot(), &secret);
    assert!(html.contains("<h1>Services</h1>"));
    assert!(!html.contains("<form action=\""));
    assert!(html.ends_with("</body></html>"));
}

#[test]
fn end_to_end_register_authenticate_render() {
    // Register one domain with two services, authenticate with the default
    // password, and render: the dashboard holds two delegation forms, each
    // targeting <url>/generate_auth_cookie and embedding the default shared
    // secret.
    let mut r = Registry::new();
    let services = vec![
        ("Mail".to_string(), "https://mail.svc.example.com".to_string()),
        ("Files".to_string(), "https://files.svc.example.com".to_string()),
    ];
    r.register("svc.example.com".to_string(), services.clone());
    assert_eq!(*r.get(&"svc.example.com".to_string()).unwrap(), services);

    let expected = "password".to_string();
    assert_eq!(authenticate(&"password".to_string(), &expected), Decision::Granted);

    let secret = shared_secret_or_default(None);
    assert_eq!(secret, "shared_secret");
    let html = render_dashboard(&r.snapshot(), &secret);

    assert!(html.contains("<h2>svc.example.com</h2>"));
    assert!(html.contains(
        "<form action=\"https://mail.svc.example.com/generate_auth_cookie\" method=\"post\" target=\"_blank\""
    ));
    assert!(html.contains(
        "<form action=\"https://files.svc.example.com/generate_auth_cookie\" method=\"post\" target=\"_blank\""
    ));
    assert_eq!(html.matches("<form action=\"").count(), 2);
    assert_eq!(
        html.matches("<input type=\"hidden\" name=\"shared_secret\" value=\"shared_secret\">").count(),
        2
    );
    assert!(html.contains(
        "<input type=\"hidden\" name=\"service_url\" value=\"https://mail.svc.example.com\">"
    ));
    assert!(html.contains("<h3>Mail</h3>"));
    assert!(html.contains("<h3>Files</h3>"));
}

#[test]
fn wrong_password_renders_nothing_and_touches_nothing() {
    // The unauthorized path: access is denied, no dashboard is built, and
    // the registry is exactly as it was.
    let mut r = Registry::new();
    let services = vec![("Mail".to_string(), "https://mail.svc.example.com".to_string())];
    r.register("svc.example.com".to_string(), services.clone());

    let expected = "password".to_string();
    let decision = authenticate(&"wrong".to_string(), &expected);
    assert_eq!(decision, Decision::Denied);

    let mut rendered: Option<String> = None;
    if decision == Decision::Granted {
        rendered = Some(render_dashboard(&r.snapshot(), &"shared_secret".to_string()));
    }
    assert!(rendered.is_none());
    assert_eq!(*r.get(&"svc.example.com".to_string()).unwrap(), services);
    assert_eq!(r.snapshot().len(), 1);
}

#[test]
fn forms_embed_a_configured_secret_verbatim() {
    let mut r = Registry::new();
    r.register(
        "svc.example.com".to_string(),
        vec![("Mail".to_string(), "https://mail.svc.example.com".to_string())],
    );
    let secret = shared_secret_or_default(Some("top-secret".to_string()));
    let html = render_dashboard(&r.snapshot(), &secret);
    assert!(html.contains("<input type=\"hidden\" name=\"shared_secret\" value=\"top-secret\">"));
    assert!(!html.contains("value=\"shared_secret\""));
}

#[test]
fn bind_defaults_give_the_documented_address() {
    let host = host_or_default(None);
    let port = port_or_default(None);
    assert_eq!(bind_address(&host, &port), "127.0.0.1:8080");
    let addr = bind_address(
        &host_or_default(Some("0.0.0.0".to_string())),
        &port_or_default(Some("9000".to_string())),
    );
    assert_eq!(addr, "0.0.0.0:9000");
}
