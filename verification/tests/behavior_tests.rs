use devserve::classify::ChangeKind;
use devserve::debounce::dispatch_count;
use devserve::dispatch::{
    forced_refresh_path, operation_for, reload_after, retained_site, triggering_path, watch_roots,
    watch_step, EventAction, RawEvent, RebuildOperation,
};
use devserve::protocol::{
    handshake_reply, is_handshake_frame, reload_message, session_outputs, str_contains, ConnEvent,
};
use devserve::server::{directory_index_path, not_found_override};

#[test]
fn handshake_frame_is_recognized() {
    assert!(is_handshake_frame(
        "{\"command\": \"hello\", \"protocols\": [\"http://livereload.com/protocols/official-7\"]}"
    ));
    assert!(!is_handshake_frame("{\"command\": \"info\", \"url\": \"/\"}"));
    assert!(!is_handshake_frame("hello without quotes"));
}

#[test]
fn handshake_reply_is_the_fixed_frame() {
    assert_eq!(
        handshake_reply(),
        "{\"command\":\"hello\",\"protocols\":[\"http://livereload.com/protocols/official-7\"],\"serverName\":\"devserve\"}"
    );
}

#[test]
fn reload_message_carries_the_path() {
    assert_eq!(
        reload_message("/static/site.css"),
        "{\"command\":\"reload\",\"path\":\"/static/site.css\",\"originalPath\":\"\",\"liveCSS\":true,\"liveImg\":true,\"protocol\":[\"http://livereload.com/protocols/official-7\"]}"
    );
}

#[test]
fn substring_search_finds_token() {
    assert!(str_contains("abc\"hello\"def", "\"hello\""));
    assert!(str_contains("\"hello\"", "\"hello\""));
    assert!(!str_contains("\"hell\"o\"", "\"hello\""));
    assert!(str_contains("anything", ""));
}

#[test]
fn session_answers_handshake_before_later_reloads() {
    let hello = String::from("{\"command\": \"hello\"}");
    let other = String::from("{\"command\": \"info\"}");
    let reload_a = reload_message("/x.js");
    let reload_b = reload_message("/static/site.css");
    let events = vec![
        ConnEvent::Inbound(hello),
        ConnEvent::Broadcast(reload_a.clone()),
        ConnEvent::Inbound(other),
        ConnEvent::Broadcast(reload_b.clone()),
    ];
    let out = session_outputs(&events);
    assert_eq!(out.len(), 3);
    assert_eq!(out[0], handshake_reply());
    assert_eq!(out[1], reload_a);
    assert_eq!(out[2], reload_b);
}

#[test]
fn each_kind_selects_its_rebuild() {
    assert_eq!(
        operation_for(ChangeKind::Content),
        RebuildOperation::RebuildContent
    );
    assert_eq!(
        operation_for(ChangeKind::Templates),
        RebuildOperation::RebuildTemplates
    );
    assert_eq!(
        operation_for(ChangeKind::StaticFiles),
        RebuildOperation::CopyStaticFile
    );
    assert_eq!(
        operation_for(ChangeKind::Sass),
        RebuildOperation::CompileSass
    );
    assert_eq!(
        operation_for(ChangeKind::Config),
        RebuildOperation::RecreateSite
    );
}

#[test]
fn content_change_scenario_forces_full_refresh() {
    let (kind, canon) =
        devserve::classify::detect_change_kind("/site", "/site/content/posts/hello.md").unwrap();
    assert_eq!(kind, ChangeKind::Content);
    assert_eq!(canon, "/content/posts/hello.md");
    assert_eq!(operation_for(kind), RebuildOperation::RebuildContent);
    let msg = reload_after(kind, &canon, true).unwrap();
    assert_eq!(
        msg,
        "{\"command\":\"reload\",\"path\":\"/x.js\",\"originalPath\":\"\",\"liveCSS\":true,\"liveImg\":true,\"protocol\":[\"http://livereload.com/protocols/official-7\"]}"
    );
}

#[test]
fn static_file_scenario_reloads_that_asset() {
    let (kind, canon) =
        devserve::classify::detect_change_kind("/site", "/site/static/site.css").unwrap();
    assert_eq!(kind, ChangeKind::StaticFiles);
    assert_eq!(canon, "/static/site.css");
    assert_eq!(operation_for(kind), RebuildOperation::CopyStaticFile);
    let msg = reload_after(kind, &canon, true).unwrap();
    assert_eq!(
        msg,
        "{\"command\":\"reload\",\"path\":\"/static/site.css\",\"originalPath\":\"\",\"liveCSS\":true,\"liveImg\":true,\"protocol\":[\"http://livereload.com/protocols/official-7\"]}"
    );
}

#[test]
fn template_success_forces_refresh_and_config_stays_silent() {
    let msg = reload_after(ChangeKind::Templates, "/templates/base.html", true).unwrap();
    assert!(str_contains(&msg, "\"path\":\"/x.js\""));
    assert_eq!(forced_refresh_path(), "/x.js");
    assert!(reload_after(ChangeKind::Config, "/config.toml", true).is_none());
}

#[test]
fn failed_rebuild_emits_no_reload() {
    assert!(reload_after(ChangeKind::Content, "/content/a.md", false).is_none());
    assert!(reload_after(ChangeKind::StaticFiles, "/static/a.css", false).is_none());
    assert!(reload_after(ChangeKind::Sass, "/sass/a.scss", false).is_none());
    assert!(reload_after(ChangeKind::Config, "/config.toml", false).is_none());
}

#[test]
fn failed_config_reload_retains_last_good_site() {
    let kept = retained_site(String::from("good"), ChangeKind::Config, None);
    assert_eq!(kept, "good");
    let swapped = retained_site(
        String::from("good"),
        ChangeKind::Config,
        Some(String::from("fresh")),
    );
    assert_eq!(swapped, "fresh");
    let untouched = retained_site(
        String::from("good"),
        ChangeKind::Content,
        Some(String::from("fresh")),
    );
    assert_eq!(untouched, "good");
}

#[test]
fn rename_triggers_on_destination_only() {
    let e = RawEvent::Rename(String::from("/site/content/old.md"), String::from("/site/content/new.md"));
    assert_eq!(triggering_path(&e).unwrap().as_str(), "/site/content/new.md");
    assert!(triggering_path(&RawEvent::Rescan).is_none());
    assert!(triggering_path(&RawEvent::Chmod(String::from("/site/content/a.md"))).is_none());
    assert!(triggering_path(&RawEvent::NoticeWrite(String::from("/site/content/a.md"))).is_none());
}

#[test]
fn watch_step_filters_then_classifies() {
    match watch_step(
        "/site",
        &RawEvent::Write(String::from("/site/content/a.md")),
        false,
    ) {
        EventAction::Dispatch(kind, canon) => {
            assert_eq!(kind, ChangeKind::Content);
            assert_eq!(canon, "/content/a.md");
        }
        _ => panic!("a write under content must dispatch"),
    }

    match watch_step(
        "/site",
        &RawEvent::Write(String::from("/site/content/a.md")),
        true,
    ) {
        EventAction::Ignore => {}
        _ => panic!("directory events are dropped"),
    }

    match watch_step(
        "/site",
        &RawEvent::Write(String::from("/site/content/a.md.swp")),
        false,
    ) {
        EventAction::Ignore => {}
        _ => panic!("temp files are dropped"),
    }

    match watch_step("/site", &RawEvent::Rescan, false) {
        EventAction::Ignore => {}
        _ => panic!("rescans are dropped"),
    }

    match watch_step(
        "/site",
        &RawEvent::Create(String::from("/site/docs/readme.md")),
        false,
    ) {
        EventAction::ReportUnclassified(canon) => {
            assert_eq!(canon, "/docs/readme.md");
        }
        _ => panic!("an unwatched root must be reported, not crash"),
    }
}

#[test]
fn burst_within_window_dispatches_once() {
    assert_eq!(dispatch_count(&vec![0, 100, 1900], 2000), 1);
    assert_eq!(dispatch_count(&vec![5], 2000), 1);
    assert_eq!(dispatch_count(&vec![], 2000), 0);
    assert_eq!(dispatch_count(&vec![1000, 1000, 1000, 1000], 2000), 1);
}

#[test]
fn separated_bursts_dispatch_separately() {
    assert_eq!(dispatch_count(&vec![0, 3000], 2000), 2);
    assert_eq!(dispatch_count(&vec![0, 1000, 4000, 4500, 10000], 2000), 3);
}

#[test]
fn watch_set_follows_disk_and_config() {
    let all = watch_roots("config.toml", true, true);
    assert_eq!(
        all,
        vec!["content", "templates", "config.toml", "static", "sass"]
    );
    let bare = watch_roots("config.toml", false, false);
    assert_eq!(bare, vec!["content", "templates", "config.toml"]);
    let no_sass = watch_roots("other.toml", true, false);
    assert_eq!(no_sass, vec!["content", "templates", "other.toml", "static"]);
}

#[test]
fn not_found_gets_custom_page_as_html() {
    let page = b"<html>missing</html>".to_vec();
    let r = not_found_override(404, b"plain".to_vec(), Some(page.clone()));
    assert_eq!(r.body, page);
    assert!(r.force_html);
}

#[test]
fn other_responses_pass_through() {
    let r = not_found_override(200, b"ok".to_vec(), Some(b"<html></html>".to_vec()));
    assert_eq!(r.body, b"ok".to_vec());
    assert!(!r.force_html);

    let r = not_found_override(404, b"plain".to_vec(), None);
    assert_eq!(r.body, b"plain".to_vec());
    assert!(!r.force_html);
}

#[test]
fn directory_request_resolves_to_index() {
    assert_eq!(directory_index_path("public/blog"), "public/blog/index.html");
    assert_eq!(directory_index_path("public/blog/"), "public/blog/index.html");
    assert_eq!(directory_index_path(""), "/index.html");
}
