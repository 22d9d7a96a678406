use devserve::classify::{detect_change_kind, is_temp_file, ChangeKind};

#[test]
fn serve_can_recognize_temp_files() {
    let test_cases = vec![
        "hello.swp",
        "hello.swx",
        ".DS_STORE",
        "hello.tmp",
        "hello.html.__jb_old___",
        "hello.html.__jb_tmp___",
        "hello.html.__jb_bak___",
        "hello.html~",
        "#hello.html",
    ];

    for t in test_cases {
        assert!(is_temp_file(t));
    }
}

#[test]
fn serve_can_detect_kind_of_changes() {
    let test_cases = vec![
        (
            (ChangeKind::Templates, String::from("/templates/hello.html")),
            "/home/vincent/site",
            "/home/vincent/site/templates/hello.html",
        ),
        (
            (ChangeKind::StaticFiles, String::from("/static/site.css")),
            "/home/vincent/site",
            "/home/vincent/site/static/site.css",
        ),
        (
            (ChangeKind::Content, String::from("/content/posts/hello.md")),
            "/home/vincent/site",
            "/home/vincent/site/content/posts/hello.md",
        ),
        (
            (ChangeKind::Sass, String::from("/sass/print.scss")),
            "/home/vincent/site",
            "/home/vincent/site/sass/print.scss",
        ),
        (
            (ChangeKind::Config, String::from("/config.toml")),
            "/home/vincent/site",
            "/home/vincent/site/config.toml",
        ),
    ];

    for (expected, pwd, path) in test_cases {
        assert_eq!(expected, detect_change_kind(pwd, path).unwrap());
    }
}

#[test]
fn serve_windows_path_handling() {
    let expected = (ChangeKind::Templates, String::from("/templates/hello.html"));
    let pwd = "C:\\\\Users\\johan\\site";
    let path = "C:\\\\Users\\johan\\site\\templates\\hello.html";
    assert_eq!(expected, detect_change_kind(pwd, path).unwrap());
}

#[test]
fn serve_relative_path() {
    let expected = (ChangeKind::Templates, String::from("/templates/hello.html"));
    let pwd = "/home/johan/site";
    let path = "templates/hello.html";
    assert_eq!(expected, detect_change_kind(pwd, path).unwrap());
}

#[test]
fn watch_can_recognize_temp_files() {
    let test_cases = vec![
        "hello.swp",
        "hello.swx",
        ".DS_STORE",
        "hello.tmp",
        "hello.html.__jb_old___",
        "hello.html.__jb_tmp___",
        "hello.html.__jb_bak___",
        "hello.html~",
        "#hello.html",
    ];

    for t in test_cases {
        assert!(is_temp_file(t));
    }
}

#[test]
fn watch_can_detect_kind_of_changes() {
    let test_cases = vec![
        (
            (ChangeKind::Templates, String::from("/templates/hello.html")),
            "/home/vincent/site",
            "/home/vincent/site/templates/hello.html",
        ),
        (
            (ChangeKind::StaticFiles, String::from("/static/site.css")),
            "/home/vincent/site",
            "/home/vincent/site/static/site.css",
        ),
        (
            (ChangeKind::Content, String::from("/content/posts/hello.md")),
            "/home/vincent/site",
            "/home/vincent/site/content/posts/hello.md",
        ),
        (
            (ChangeKind::Sass, String::from("/sass/print.scss")),
            "/home/vincent/site",
            "/home/vincent/site/sass/print.scss",
        ),
        (
            (ChangeKind::Config, String::from("/config.toml")),
            "/home/vincent/site",
            "/home/vincent/site/config.toml",
        ),
    ];

    for (expected, pwd, path) in test_cases {
        assert_eq!(expected, detect_change_kind(pwd, path).unwrap());
    }
}

#[test]
fn watch_windows_path_handling() {
    let expected = (ChangeKind::Templates, String::from("/templates/hello.html"));
    let pwd = "C:\\\\Users\\johan\\site";
    let path = "C:\\\\Users\\johan\\site\\templates\\hello.html";
    assert_eq!(expected, detect_change_kind(pwd, path).unwrap());
}

#[test]
fn watch_relative_path() {
    let expected = (ChangeKind::Templates, String::from("/templates/hello.html"));
    let pwd = "/home/johan/site";
    let path = "templates/hello.html";
    assert_eq!(expected, detect_change_kind(pwd, path).unwrap());
}

#[test]
fn ordinary_files_are_not_temp_files() {
    let test_cases = vec![
        "hello.html",
        "site.css",
        "posts/hello.md",
        "/home/vincent/site/content/posts/hello.md",
        "print.scss",
        "config.toml",
    ];

    for t in test_cases {
        assert!(!is_temp_file(t));
    }
}

#[test]
fn paths_without_extension_are_noise() {
    assert!(is_temp_file("Makefile"));
    assert!(is_temp_file("/some/dir/LICENSE"));
    assert!(is_temp_file(".gitignore"));
}

#[test]
fn unmatched_path_reports_unclassified() {
    let err = detect_change_kind("/site", "/site/docs/readme.md").unwrap_err();
    assert_eq!(err.path, "/docs/readme.md");
}

#[test]
fn config_matches_exactly_not_by_prefix() {
    let err = detect_change_kind("/site", "/site/config.toml.bak").unwrap_err();
    assert_eq!(err.path, "/config.toml.bak");

    let err = detect_change_kind("/site", "/site/config.toml2/x").unwrap_err();
    assert_eq!(err.path, "/config.toml2/x");
}

#[test]
fn directory_roots_match_whole_components_only() {
    let err = detect_change_kind("/site", "/site/contentious/a.md").unwrap_err();
    assert_eq!(err.path, "/contentious/a.md");

    let ok = detect_change_kind("/site", "/site/content/a.md").unwrap();
    assert_eq!(ok, (ChangeKind::Content, String::from("/content/a.md")));
}

#[test]
fn root_with_trailing_separator_still_strips() {
    let expected = (ChangeKind::Sass, String::from("/sass/print.scss"));
    assert_eq!(
        expected,
        detect_change_kind("/home/vincent/site/", "/home/vincent/site/sass/print.scss").unwrap()
    );
}
