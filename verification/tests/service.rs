use studio_core::api::{
    choose_engine, key_accepted, reply_for, verify_api_key, EngineChoice, RenderOutcome,
};
use studio_core::assets::resolver::{
    allowed_hosts, check_remote_image, is_public_ip, remote_image_sources, remote_image_target,
    resolve_image_source, sniff_image_format, IpAddress,
};
use studio_core::domain::Node;
use studio_core::engines::graphics::chart::{get_colors, parse_color};
use studio_core::domain::{OutputFormat, SecurityConfig};
use studio_core::engines::typst::security::{apply_security, encryption_plan, permission_bits};
use studio_core::engines::RenderOutput;

#[test]
fn api_key_check() {
    assert!(key_accepted(Some("k1"), "k1"));
    assert!(!key_accepted(Some("k2"), "k1"));
    assert!(!key_accepted(None, "k1"));
    assert!(key_accepted(None, ""));
    assert!(verify_api_key(Some("k1"), "k1").ok().unwrap().authenticated);
    let e = verify_api_key(Some("x"), "k1").err().unwrap();
    assert_eq!((e.status, e.message.as_str()), (401, "Invalid API Key"));
}

#[test]
fn engine_choice() {
    assert!(matches!(choose_engine(&OutputFormat::Pdf), Ok(EngineChoice::Pdf)));
    assert!(matches!(choose_engine(&OutputFormat::Html), Ok(EngineChoice::Html)));
    let e = choose_engine(&OutputFormat::Docx).err().unwrap();
    assert_eq!((e.status, e.message.as_str()), (501, "DOCX format not yet supported"));
}

#[test]
fn replies() {
    let e = reply_for(RenderOutcome::TimedOut).err().unwrap();
    assert_eq!((e.status, e.message.as_str()), (504, "Generation timed out"));
    let e = reply_for(RenderOutcome::Panicked).err().unwrap();
    assert_eq!((e.status, e.message.as_str()), (500, "Internal error"));
    let e = reply_for(RenderOutcome::Failed("bad".to_string())).err().unwrap();
    assert_eq!((e.status, e.message.as_str()), (422, "bad"));
    let d = reply_for(RenderOutcome::Rendered(RenderOutput {
        bytes: vec![1, 2],
        mime_type: "application/pdf".to_string(),
        suggested_filename: "x.pdf".to_string(),
    }))
    .ok()
    .unwrap();
    assert_eq!(d.content_type, "application/pdf");
    assert_eq!(d.disposition, "inline; filename=\"x.pdf\"");
    assert_eq!(d.body, vec![1, 2]);
}

#[test]
fn image_formats_by_magic_bytes() {
    assert_eq!(sniff_image_format(&[0x89, 0x50, 0x4E, 0x47, 0x0D, 0x0A, 0x1A, 0x0A, 0]), "png");
    assert_eq!(sniff_image_format(&[0xFF, 0xD8, 0xFF, 0xE0]), "jpg");
    assert_eq!(sniff_image_format(b"GIF89a...."), "gif");
    assert_eq!(sniff_image_format(b"RIFF\0\0\0\0WEBPVP8 "), "webp");
}

#[test]
fn image_sources() {
    let fetched = vec![
        ("https://a.example/x.png".to_string(), Ok(vec![7u8, 8])),
        ("https://a.example/bad.png".to_string(), Err("HTTP 404".to_string())),
    ];
    assert_eq!(resolve_image_source("data:image/png;base64,AQID", &fetched).unwrap(), vec![1, 2, 3]);
    assert_eq!(resolve_image_source("  AQID  ", &fetched).unwrap(), vec![1, 2, 3]);
    assert_eq!(resolve_image_source("@@@", &fetched).err().unwrap(), "Invalid base64");
    assert_eq!(resolve_image_source("data:nocomma", &fetched).err().unwrap(), "malformed data URI");
    assert_eq!(resolve_image_source("https://a.example/x.png", &fetched).unwrap(), vec![7, 8]);
    assert_eq!(resolve_image_source("https://a.example/bad.png", &fetched).err().unwrap(), "HTTP 404");
    assert_eq!(
        resolve_image_source("http://other/y.png", &fetched).err().unwrap(),
        "Remote image was not fetched"
    );
}

#[test]
fn remote_image_policy() {
    let allowed = allowed_hosts(" cdn.example , ,img.example");
    assert_eq!(allowed, vec!["cdn.example".to_string(), "img.example".to_string()]);
    let url = |s: &str, h: Option<&str>| Ok((s.to_string(), h.map(|x| x.to_string())));
    assert!(check_remote_image(&allowed, &url("https", Some("cdn.example"))).is_ok());
    assert_eq!(check_remote_image(&vec![], &url("https", Some("cdn.example"))).err().unwrap(), "Remote image fetching disabled");
    assert_eq!(check_remote_image(&allowed, &url("http", Some("cdn.example"))).err().unwrap(), "Only HTTPS allowed");
    assert_eq!(check_remote_image(&allowed, &url("https", None)).err().unwrap(), "No host");
    assert_eq!(
        check_remote_image(&allowed, &url("https", Some("evil.example"))).err().unwrap(),
        "Host evil.example not allowlisted"
    );
    assert_eq!(check_remote_image(&allowed, &Err("bad url".to_string())).err().unwrap(), "bad url");
}

#[test]
fn public_addresses() {
    assert!(is_public_ip(&IpAddress::V4([8, 8, 8, 8])));
    assert!(!is_public_ip(&IpAddress::V4([127, 0, 0, 1])));
    assert!(!is_public_ip(&IpAddress::V4([10, 1, 2, 3])));
    assert!(!is_public_ip(&IpAddress::V4([172, 16, 0, 1])));
    assert!(is_public_ip(&IpAddress::V4([172, 32, 0, 1])));
    assert!(!is_public_ip(&IpAddress::V4([192, 168, 1, 1])));
    assert!(!is_public_ip(&IpAddress::V4([169, 254, 1, 1])));
    assert!(!is_public_ip(&IpAddress::V4([255, 255, 255, 255])));
    assert!(!is_public_ip(&IpAddress::V6([0, 0, 0, 0, 0, 0, 0, 1])));
    assert!(is_public_ip(&IpAddress::V6([0x2001, 0x4860, 0, 0, 0, 0, 0, 0x8888])));
}

fn config(user: Option<&str>, owner: Option<&str>) -> SecurityConfig {
    SecurityConfig {
        user_password: user.map(|s| s.to_string()),
        owner_password: owner.map(|s| s.to_string()),
        allow_printing: true,
        allow_copying: false,
        allow_modification: false,
        allow_annotation: true,
    }
}

#[test]
fn encryption_needs_a_password() {
    let e = encryption_plan(&config(None, Some(""))).err().unwrap();
    assert!(e.starts_with("security config requires at least one of user_password or owner_password"));
    let p = encryption_plan(&config(Some("u"), None)).ok().unwrap();
    assert_eq!((p.owner_password.as_str(), p.user_password.as_str()), ("u", "u"));
    let p = encryption_plan(&config(None, Some("o"))).ok().unwrap();
    assert_eq!((p.owner_password.as_str(), p.user_password.as_str()), ("o", ""));
    assert_eq!(permission_bits(&p), 4 + 32);
    assert_eq!(p.permissions, 4 + 32);
}

#[test]
fn apply_security_refuses_before_reading_and_reports_bad_pdfs() {
    let e = apply_security(b"not a pdf".to_vec(), &config(None, None)).err().unwrap();
    assert!(e.starts_with("security config requires"));
    let e = apply_security(b"not a pdf".to_vec(), &config(Some("u"), None)).err().unwrap();
    assert!(e.starts_with("Failed to load PDF: "), "{e}");
}

#[test]
fn remote_targets_from_raw_urls() {
    let setting = "cdn.example, img.example";
    assert_eq!(
        remote_image_target(setting, "https://cdn.example/a.png").ok().unwrap(),
        ("cdn.example".to_string(), 443)
    );
    assert_eq!(
        remote_image_target(setting, "https://img.example:8443/a.png").ok().unwrap(),
        ("img.example".to_string(), 8443)
    );
    assert_eq!(remote_image_target("", "https://cdn.example/a.png").err().unwrap(), "Remote image fetching disabled");
    assert_eq!(remote_image_target(setting, "http://cdn.example/a.png").err().unwrap(), "Only HTTPS allowed");
    assert_eq!(
        remote_image_target(setting, "https://evil.example/a.png").err().unwrap(),
        "Host evil.example not allowlisted"
    );
    assert_eq!(remote_image_target(setting, "not a url").err().unwrap(), "relative URL without a base");
}

fn image(src: &str) -> Node {
    Node::Image { src: src.to_string(), width: None, height: None, alignment: None }
}

#[test]
fn remote_sources_each_once_in_order() {
    let content = vec![
        image("https://a.example/1.png"),
        image("data:image/png;base64,AA=="),
        Node::Placed {
            anchor: None,
            dx: None,
            dy: None,
            content: Box::new(image("http://b.example/2.png")),
        },
        Node::Columns {
            items: vec![vec![image("https://a.example/1.png")], vec![image("https://c.example/3.png")]],
            column_widths: None,
            gutter: None,
        },
    ];
    assert_eq!(
        remote_image_sources(&content, &None),
        vec![
            "https://a.example/1.png".to_string(),
            "http://b.example/2.png".to_string(),
            "https://c.example/3.png".to_string(),
        ]
    );
}

#[test]
fn chart_colours_are_checked_and_cycled() {
    assert_eq!(parse_color("#A1b2C3"), "#A1b2C3");
    assert_eq!(parse_color("##ff0000"), "#ff0000");
    assert_eq!(parse_color("+f+f+f"), "#3b82f6");
    assert_eq!(parse_color("ééé"), "#3b82f6");
    assert_eq!(parse_color("red"), "#3b82f6");
    assert_eq!(
        get_colors(3, &Some(vec!["+f+f+f".to_string(), "00ff00".to_string()])),
        vec!["#3b82f6".to_string(), "#00ff00".to_string(), "#3b82f6".to_string()]
    );
    assert_eq!(
        get_colors(7, &Some(vec![])),
        vec!["#3b82f6", "#10b981", "#f59e0b", "#ef4444", "#8b5cf6", "#ec4899", "#3b82f6"]
    );
    assert_eq!(get_colors(2, &None), vec!["#3b82f6", "#10b981"]);
}
