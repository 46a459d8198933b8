use slide_builder::render::browser::{
    percent_encode_path, validate_capture_path, validate_executable, Browser, BrowserError, Engine,
    ExecutableFile, Sandbox,
};
use slide_builder::render::cache::{
    cleanup_plan, ensure_descendant, CacheError, CacheKey, ProfileEntry, RenderCache, RenderManifest,
    SlideImage, SlideOnDisk,
};
use slide_builder::render::pipeline::{
    css_var_length, finish_capture_html, handler_slide_count, prepare_capture_source, strip_active_content,
    strip_void_tag, validate_offline_html, CaptureHtmlError, CssUnit, OfflineHtmlError,
};
use slide_builder::render::browser::{check_capture_layout, chromium_capture_args, sandbox_path};
use slide_builder::preview::{slide_renders, SlideRender};
use slide_builder::render::cache::sha256_hex;
use slide_builder::render::sandbox::bwrap_arguments;
use slide_builder::render::svg::check_artwork_coverage;
use slide_builder::render::{completion_event, replaces_pending, GenerationGate, RenderEvent, RenderProduct};
use slide_builder::render::svg::{
    check_attribute, check_placement, check_required, check_root, preflight_events, SvgError, ValueCheck, XmlEvent,
};

fn key(deck: &[u8], handler: &str, renderer: &str, width: u32, height: u32, scale: f32) -> CacheKey {
    CacheKey::new(deck, handler, renderer, width, height, scale.to_bits(), &scale.to_string()).unwrap()
}

#[test]
fn key_changes_for_every_render_input() {
    let a = key(b"deck", "handler", "renderer", 10, 10, 1.0);
    assert_ne!(a.digest, key(b"deck2", "handler", "renderer", 10, 10, 1.0).digest);
    assert_ne!(a.digest, key(b"deck", "handler2", "renderer", 10, 10, 1.0).digest);
    assert_ne!(a.digest, key(b"deck", "handler", "renderer", 11, 10, 1.0).digest);
}

#[test]
fn manifest_rejects_path_like_slide_names() {
    let key = key(b"d", "h", "r", 1, 1, 1.0);
    let bad = SlideImage { index: 1, file: "../x.png".into(), width: 1, height: 1, sha256: "0".repeat(64) };
    assert!(RenderManifest::new(1, key, vec![bad]).is_err());
}

#[test]
fn renderer_identity_separates_cache_entries() {
    let key = key(b"deck", "handler", "capture", 1280, 720, 1.0);
    let old = key.clone().with_renderer("obscura-binary-one");
    assert_ne!(old.digest, key.clone().with_renderer("chromium-binary-one").digest);
    assert_ne!(old.digest, key.clone().with_renderer("obscura-binary-two").digest);
    assert_eq!(old, key.with_renderer("obscura-binary-one"));
}

#[test]
fn rejects_network_and_file_urls() {
    for html in [
        "<img src=https://x>",
        "<style>@import url(x)</style>",
        "<img src='//host/x'>",
        "<img src=file:///etc/passwd>",
    ] {
        assert!(validate_offline_html(html).is_err(), "accepted {html}");
    }
    assert!(validate_offline_html("<img src='data:image/png;base64,AA'>").is_ok());
}

#[test]
fn strips_active_content_and_injects_restrictive_csp() {
    let prepared = prepare_capture_source(
        "<html><head><script>alert(1)</script></head><body><div class='slide-container' data-slide='1'></div><iframe src=x></iframe></body></html>",
        1,
        1600,
        900,
    )
    .unwrap();
    // Without slide design variables the scale is 1.
    let html = finish_capture_html(&prepared, 1, "1.000000");
    assert!(!html.contains("alert(1)"));
    assert!(!html.contains("<iframe"));
    assert!(html.contains("default-src 'none'"));
    assert!(html.contains("script-src 'none'"));
    assert!(html.contains("data-slide=\"1\""));
    assert!(html.contains("Unsupported dynamic content"));
    assert!(html.contains("transform:scale("));
    assert!(!html.contains("<script"));
    // Banner must live in the body, not the head.
    let body = html.to_ascii_lowercase().find("<body").unwrap();
    let banner = html.find("Unsupported dynamic content").unwrap();
    assert!(banner > body);
}

#[test]
fn computes_css_scale_from_handler_design_vars() {
    let html = r#":root { --slide-design-w: 960pt; --slide-design-h: 540pt; }"#;
    let to_px = |(number, unit): (String, CssUnit)| -> f64 {
        let n: f64 = number.parse().unwrap();
        match unit {
            CssUnit::Pt => n * 96.0 / 72.0,
            CssUnit::Px => n,
        }
    };
    let w = to_px(css_var_length(html, "--slide-design-w").unwrap());
    let h = to_px(css_var_length(html, "--slide-design-h").unwrap());
    // 960pt = 1280 CSS px, 540pt = 720 CSS px; 1600x900 => scale 1.25.
    let scale = (1600.0 / w).min(900.0 / h);
    assert!((scale - 1.25).abs() < 1e-6, "scale={scale}");
}

#[test]
fn rejects_zero_slide() {
    assert!(prepare_capture_source("<html></html>", 0, 1600, 900).is_err());
}

#[test]
fn capture_page_without_head_or_body_is_wrapped() {
    let prepared = prepare_capture_source("<p>hi</p>", 2, 10, 10).unwrap();
    let html = finish_capture_html(&prepared, 2, "0.500000");
    assert!(html.starts_with("<!doctype html><head><meta"));
    assert!(html.ends_with("<p>hi</p></body>"));
    assert!(html.contains("transform:scale(0.500000)"));
    assert!(html.contains(".main>.slide-container[data-slide=\"2\"] .slide-wrapper"));
    assert_eq!(prepare_capture_source("<p>hi</p>", 2, 0, 10).unwrap_err(), CaptureHtmlError::EmptyViewport);
}

#[test]
fn handler_slide_count_counts_container_markers() {
    let html = "<div class=\"slide-container\" data-slide=\"1\"></div><div class=\"slide-container\" data-slide=\"2\"></div>";
    assert_eq!(handler_slide_count(html), 2);
    assert_eq!(handler_slide_count("<div class='slide-container'>"), 0);
}

#[test]
fn offline_scan_ignores_whitespace_and_case_and_names_the_first_marker() {
    assert_eq!(validate_offline_html("<a href='HT\ntp: x'>"), Err(OfflineHtmlError::ExternalResource(0)));
    assert_eq!(validate_offline_html("<img SrcSet = 'a.png 1x'>"), Err(OfflineHtmlError::ExternalResource(9)));
    assert_eq!(validate_offline_html("<p>wss:</p>"), Err(OfflineHtmlError::ExternalResource(5)));
    assert!(validate_offline_html("<p>plain</p>").is_ok());
}

#[test]
fn active_content_and_void_tags_are_removed() {
    let (html, removed) = strip_active_content("a<SCRIPT>x</script>b<object data=y>c<form");
    assert_eq!(html, "abc");
    assert!(removed);
    let (same, removed) = strip_active_content("<p>ok</p>");
    assert_eq!(same, "<p>ok</p>");
    assert!(!removed);
    assert_eq!(strip_void_tag("<BASE href=x><p>1</p><base", "base"), "<p>1</p>");
}

#[test]
fn cache_key_refuses_bad_geometry() {
    assert_eq!(CacheKey::new(b"d", "h", "r", 0, 1, 1.0f32.to_bits(), "1").unwrap_err(), CacheError::InvalidGeometry);
    assert!(CacheKey::new(b"d", "h", "r", 1, 1, f32::NAN.to_bits(), "NaN").is_err());
    assert!(CacheKey::new(b"d", "h", "r", 1, 1, (-1.0f32).to_bits(), "-1").is_err());
    assert!(CacheKey::new(b"d", "h", "r", 1, 1, 0.0f32.to_bits(), "0").is_err());
    let k = key(b"d", "h", "r", 1, 1, 2.0);
    assert_eq!(k.digest.len(), 64);
    assert_eq!(k.short_digest(), k.digest[..16]);
    assert_eq!(k.scale, "2");
}

#[test]
fn manifest_validation_checks_files_and_checksums() {
    let key = key(b"d", "h", "r", 1, 1, 1.0);
    let slide = SlideImage { index: 1, file: "slide-0001.png".into(), width: 2, height: 3, sha256: "a".repeat(64) };
    let manifest = RenderManifest::new_at(4, key, vec![slide], 1000).unwrap();
    assert_eq!(manifest.version, 1);
    assert_eq!(manifest.created_unix_ms, 1000);
    assert!(manifest.validate(&vec![SlideOnDisk { is_file: true, sha256: None }]).is_ok());
    assert_eq!(manifest.validate(&vec![SlideOnDisk { is_file: false, sha256: None }]), Err(CacheError::MissingSlide(1)));
    assert_eq!(
        manifest.validate(&vec![SlideOnDisk { is_file: true, sha256: Some("b".repeat(64)) }]),
        Err(CacheError::ChecksumMismatch(1))
    );
    let second = SlideImage { index: 3, file: "slide-0003.png".into(), width: 2, height: 3, sha256: "a".repeat(64) };
    let key = self::key(b"d", "h", "r", 1, 1, 1.0);
    assert_eq!(RenderManifest::new_at(1, key, vec![second], 0).unwrap_err(), CacheError::NonContiguousSlides);
}

#[test]
fn cache_paths_stay_under_the_root() {
    let cache = RenderCache::new("/cache", 2).unwrap();
    assert_eq!(cache.root(), "/cache");
    assert_eq!(RenderCache::new("cache", 2).unwrap_err(), CacheError::RelativeRoot);
    assert_eq!(RenderCache::new("/cache", 0).unwrap_err(), CacheError::NoGenerationsKept);
    let k = key(b"deck", "h", "r 1", 640, 360, 1.0);
    let dir = cache.entry_dir(b"identity", &k);
    assert!(dir.starts_with("/cache/"));
    assert!(dir.contains("/r_1-640x360@1/"));
    assert!(dir.ends_with(&k.digest));
    assert!(ensure_descendant("/cache", &dir).is_ok());
    assert_eq!(ensure_descendant("/cache", "/cache"), Err(CacheError::OutsideRoot));
    assert_eq!(ensure_descendant("/cache", "/other/x"), Err(CacheError::OutsideRoot));
    assert_eq!(ensure_descendant("/cache", "/cache/a/../b"), Err(CacheError::Traversal));
}

#[test]
fn cleanup_keeps_newest_complete_entries() {
    let entry = |name: &str, is_dir: bool, has_manifest: bool, secs: u64| ProfileEntry {
        name: name.into(),
        is_dir,
        has_manifest,
        modified_secs: secs,
        modified_nanos: 0,
    };
    let entries = vec![
        entry("old", true, true, 1),
        entry(".tmp-9-1", true, true, 9),
        entry("new", true, true, 5),
        entry("partial", true, false, 7),
        entry("file", false, false, 0),
        entry("newest", true, true, 6),
    ];
    assert_eq!(cleanup_plan(&entries, 2), vec![true, true, false, true, false, false]);
    assert_eq!(cleanup_plan(&entries, 1), vec![true, true, true, true, false, false]);
    let cache = RenderCache::new("/cache", 2).unwrap();
    assert_eq!(cache.cleanup(&entries), cleanup_plan(&entries, 2));
}

fn exe(path: &str, size: u64) -> ExecutableFile {
    ExecutableFile {
        canonical_path: path.into(),
        is_file: true,
        mode: 0o755,
        dev: 1,
        ino: 2,
        size,
        mtime: 3,
        mtime_nsec: 4,
        ctime: 5,
        ctime_nsec: 6,
    }
}

#[test]
fn replaced_executables_get_new_cache_identities() {
    let first = Browser::from_path("/opt/renderer", Some(&exe("/opt/renderer", 5))).unwrap();
    let second = Browser::from_path("/opt/renderer", Some(&exe("/opt/renderer", 6))).unwrap();
    assert_ne!(first.cache_identity(), second.cache_identity());
    assert!(first.cache_identity().starts_with("chromium-v1-"));
    assert_eq!(first.executable(), "/opt/renderer");
    assert_eq!(first.engine, Engine::Chromium);
    assert_eq!(Browser::from_path("renderer", None).unwrap_err(), BrowserError::NotAbsolute);
    assert_eq!(validate_executable("/x", None).unwrap_err(), BrowserError::Uninspectable);
    let mut plain = exe("/x", 1);
    plain.mode = 0o644;
    assert_eq!(validate_executable("/x", Some(&plain)).unwrap_err(), BrowserError::NotExecutable);
    let sandbox = Sandbox { executable: "/usr/bin/bwrap".into() };
    let worker = Browser::with_embedded_worker("/app/sb", Some(&exe("/app/sb", 1)), sandbox, &exe("/usr/bin/bwrap", 2)).unwrap();
    assert!(worker.cache_identity().starts_with("obscura-embedded-a1e09de6-isolated-v3-"));
}

#[test]
fn chromium_probe_prefers_configured_then_first_valid_candidate() {
    let search = vec![
        ("/bin/google-chrome-stable".to_owned(), None),
        ("/usr/bin/google-chrome-stable".to_owned(), Some(exe("/usr/bin/google-chrome-stable", 1))),
    ];
    let found = Browser::probe_chromium(Some("auto"), None, &search).unwrap();
    assert_eq!(found.executable(), "/usr/bin/google-chrome-stable");
    assert_eq!(Browser::probe_chromium(None, None, &Vec::new()).unwrap_err(), BrowserError::NotFound);
    assert_eq!(Browser::probe_chromium(Some("/missing"), None, &search).unwrap_err(), BrowserError::Uninspectable);
}

#[test]
fn chromium_arguments_use_percent_encoded_file_urls() {
    assert_eq!(percent_encode_path("/tmp/a b.html"), "/tmp/a%20b.html");
    assert_eq!(percent_encode_path("/tmp/é~x"), "/tmp/%C3%A9~x");
    assert!(validate_capture_path("/tmp/a.html").is_ok());
    assert_eq!(validate_capture_path("tmp/a.html"), Err(BrowserError::UnsafeCapturePath));
    assert_eq!(validate_capture_path("/tmp/../a.html"), Err(BrowserError::UnsafeCapturePath));
    assert_eq!(validate_capture_path("/tmp/a\0.html"), Err(BrowserError::NulInCapturePath));
}

#[test]
fn bwrap_binds_only_the_output_writable() {
    let present = vec![true, false, true, false, false, false, false, false, false, false];
    let args = bwrap_arguments("/opt/sb", "/tmp/r/in.html", "/tmp/r/out.png", &present, Some("/home/u"), &vec![false, true]);
    for required in ["--unshare-all", "--unshare-user", "--disable-userns", "--clearenv", "--die-with-parent"] {
        assert!(args.iter().any(|a| a == required));
    }
    assert!(!args.iter().any(|a| a == "/tmp/r"));
    let binds: Vec<_> = args.iter().enumerate().filter(|(_, a)| a.as_str() == "--bind").collect();
    assert_eq!(binds.len(), 1);
    assert_eq!(args[binds[0].0 + 1], "/tmp/r/out.png");
    assert!(args.windows(3).any(|w| w == ["--ro-bind", "/lib", "/lib"]));
    assert!(!args.iter().any(|a| a == "/usr/lib64"));
    assert!(args.windows(3).any(|w| w == ["--ro-bind", "/home/u/.local/share/fonts", "/home/renderer/.local/share/fonts"]));
    assert_eq!(args.last().unwrap(), "/app/slide-builder");
}

#[test]
fn svg_dialect_checks_elements_attributes_and_nesting() {
    assert!(check_root("svg", Some("http://www.w3.org/2000/svg")).is_ok());
    assert_eq!(check_root("svg", None), Err(SvgError::RootNamespace));
    assert_eq!(check_root("html", None), Err(SvgError::RootNotSvg));
    assert!(check_placement("rect", false, Some("g")).is_ok());
    assert_eq!(check_placement("image", false, Some("g")), Err(SvgError::UnsupportedElement { tag: "image".into() }));
    assert_eq!(check_placement("svg", false, Some("g")), Err(SvgError::NestedSvg));
    assert_eq!(check_placement("rect", false, Some("rect")), Err(SvgError::BadParent { tag: "rect".into() }));
    assert_eq!(
        check_attribute("rect", "onclick", "x()", false),
        Err(SvgError::UnsupportedAttribute { name: "onclick".into(), tag: "rect".into() })
    );
    assert_eq!(check_attribute("rect", "width", "10", true), Err(SvgError::NamespacedAttribute { name: "width".into() }));
    assert_eq!(check_attribute("rect", "width", "10", false), Ok(ValueCheck::Length { positive: true, nonnegative: false }));
    assert_eq!(check_attribute("rect", "rx", "1", false), Ok(ValueCheck::Length { positive: false, nonnegative: true }));
    assert_eq!(check_attribute("g", "opacity", "0.5", false), Ok(ValueCheck::Opacity { group: true }));
    assert_eq!(check_attribute("polygon", "points", "0 0 1 1 2 2", false), Ok(ValueCheck::Points { minimum: 6 }));
    assert_eq!(check_attribute("path", "fill", " none ", false), Ok(ValueCheck::Done));
    assert_eq!(check_attribute("path", "stroke-linecap", "butt", false), Ok(ValueCheck::Done));
    assert_eq!(
        check_attribute("path", "stroke-linecap", "flat", false),
        Err(SvgError::InvalidKeyword { name: "stroke-linecap".into() })
    );
    assert_eq!(check_attribute("path", "id", "a b", false), Err(SvgError::InvalidId));
    assert_eq!(
        check_required("rect", &vec!["width".into()]),
        Err(SvgError::MissingRequiredAttribute { tag: "rect".into(), name: "height".into() })
    );
    assert!(check_required("rect", &vec!["height".into(), "width".into()]).is_ok());
    let mut deep = vec![XmlEvent::Start; 65];
    assert!(preflight_events(&deep).is_ok());
    deep.push(XmlEvent::Empty);
    assert_eq!(preflight_events(&deep), Err(SvgError::TooDeep { asked: 65 }));
    assert_eq!(preflight_events(&vec![XmlEvent::Doctype]), Err(SvgError::Doctype));
}

#[test]
fn render_service_presents_only_the_newest_generation() {
    let mut gate = GenerationGate::new();
    assert!(gate.request(1));
    assert!(gate.request(2));
    assert!(!gate.request(1));
    assert!(gate.request(2));
    assert_eq!(gate.latest_generation(), 2);
    assert!(!gate.should_render(1));
    assert!(replaces_pending(Some(2), 3));
    assert!(!replaces_pending(Some(3), 2));
    let manifest = RenderManifest::new_at(1, key(b"d", "h", "r", 1, 1, 1.0), vec![], 0).unwrap();
    let product = RenderProduct { directory: "/tmp/render-test".into(), manifest };
    assert!(completion_event(1, 2, Ok(product.clone())).is_none());
    match completion_event(2, 2, Ok(product.clone())) {
        Some(RenderEvent::Failed { error, .. }) => assert_eq!(error, "backend returned manifest generation 1 for request 2"),
        _ => panic!("expected a failure"),
    }
    assert!(matches!(completion_event(1, 1, Ok(product)), Some(RenderEvent::Done { generation: 1, .. })));
}

#[test]
fn rendered_artwork_must_be_visible_and_edges_are_reported() {
    // 4x3 raster, nothing visible.
    assert_eq!(check_artwork_coverage(4, 3, &vec![0; 12]), Err(SvgError::NoVisibleArtwork));
    // Only an interior pixel (x=1, y=1) is visible.
    let mut interior = vec![0u8; 12];
    interior[5] = 255;
    assert_eq!(check_artwork_coverage(4, 3, &interior), Ok(false));
    // A pixel in the last column (x=3, y=1) reaches the boundary.
    let mut edge = vec![0u8; 12];
    edge[7] = 1;
    assert_eq!(check_artwork_coverage(4, 3, &edge), Ok(true));
    // A pixel in the last row (x=2, y=2) reaches the boundary.
    let mut bottom = vec![0u8; 12];
    bottom[10] = 9;
    assert_eq!(check_artwork_coverage(4, 3, &bottom), Ok(true));
}

#[test]
fn chromium_arguments_preserve_sandbox_and_paths() {
    let scale = 1.0f32.to_string();
    let args = chromium_capture_args("/tmp/a b.html", "/tmp/o.png", "/tmp/profile", 1280, 720, &scale, 60_000, false);
    assert!(!args
        .iter()
        .any(|arg| arg.contains("--no-sandbox") || arg.contains("remote-debugging")));
    assert!(args.iter().any(|arg| arg == "file:///tmp/a%20b.html"));
    assert_eq!(args.last().unwrap(), "file:///tmp/a%20b.html");
    assert!(args.iter().any(|arg| arg == "--window-size=1280,720"));
    assert!(args.iter().any(|arg| arg == "--force-device-scale-factor=1"));
    assert!(args.iter().any(|arg| arg == "--virtual-time-budget=60000"));
    assert!(args.iter().any(|arg| arg == "--user-data-dir=/tmp/profile"));
    assert!(args.iter().any(|arg| arg == "--screenshot=/tmp/o.png"));
    assert!(!args.iter().any(|arg| arg == "--disable-gpu"));
    let mac = chromium_capture_args("/tmp/a.html", "/tmp/o.png", "/tmp/p", 640, 360, "2", 1500, true);
    assert_eq!(mac[mac.len() - 2], "--disable-gpu");
    assert_eq!(mac.len(), args.len() + 1);
}

#[test]
fn capture_paths_must_be_distinct_siblings() {
    assert_eq!(check_capture_layout("/r/capture.html", "/r/out.png", "/r/profile"), Ok(()));
    assert_eq!(check_capture_layout("/r/capture.html", "/r//out.png", "/r/./profile"), Ok(()));
    assert_eq!(
        check_capture_layout("/r/capture.html", "/other/out.png", "/r/profile"),
        Err(BrowserError::CapturePathsNotSiblings)
    );
    assert_eq!(
        check_capture_layout("/r/capture.html", "/r/capture.html", "/r/profile"),
        Err(BrowserError::CapturePathsNotSiblings)
    );
    assert_eq!(
        check_capture_layout("/r/capture.html", "/r/out.png", "/r/out.png/"),
        Err(BrowserError::CapturePathsNotSiblings)
    );
    assert_eq!(check_capture_layout("/", "/a", "/b"), Err(BrowserError::NoCaptureDirectory));
    assert_eq!(
        check_capture_layout("relative.html", "/r/out.png", "/r/profile"),
        Err(BrowserError::UnsafeCapturePath)
    );
    assert_eq!(
        check_capture_layout("/r/capture.html", "/r/../out.png", "/r/profile"),
        Err(BrowserError::UnsafeCapturePath)
    );
}

#[test]
fn rendered_slides_are_zero_based_paths_under_the_entry() {
    let slides = vec![
        SlideImage { index: 1, file: "slide-0001.png".into(), width: 2, height: 3, sha256: "a".repeat(64) },
        SlideImage { index: 2, file: "slide-0002.png".into(), width: 2, height: 3, sha256: "b".repeat(64) },
    ];
    let manifest = RenderManifest::new_at(7, key(b"d", "h", "r", 2, 3, 1.0), slides, 0).unwrap();
    assert_eq!(
        slide_renders("/cache/entry", &manifest),
        vec![
            SlideRender { index: 0, image_path: "/cache/entry/slide-0001.png".into() },
            SlideRender { index: 1, image_path: "/cache/entry/slide-0002.png".into() },
        ]
    );
}

#[test]
fn macos_isolation_tool_defaults_to_sandbox_exec() {
    assert_eq!(sandbox_path("auto"), "/usr/bin/sandbox-exec");
    assert_eq!(sandbox_path("/opt/sandbox-exec"), "/opt/sandbox-exec");
    let sandbox = Sandbox::probe("/usr/bin/sandbox-exec", Some(&exe("/usr/bin/sandbox-exec", 10))).unwrap();
    assert_eq!(sandbox.executable, "/usr/bin/sandbox-exec");
    assert_eq!(Sandbox::probe("/usr/bin/sandbox-exec", None), Err(BrowserError::Uninspectable));
    assert_eq!(Sandbox::probe("sandbox-exec", None), Err(BrowserError::NotAbsolute));
}

#[test]
fn slide_checksums_are_lower_hex_sha256() {
    assert_eq!(sha256_hex(b"abc"), "ba7816bf8f01cfea414140de5dae2223b00361a396177a9cb410ff61f20015ad");
    assert_eq!(sha256_hex(b""), "e3b0c44298fc1c149afbf4c8996fb92427ae41e4649b934ca495991b7852b855");
}
