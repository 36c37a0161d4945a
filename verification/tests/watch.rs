use poly::backlog_builder::BacklogBuilder;
use poly::builds::ChangeType;
use poly::watch::{
    classify_file, filepath_from_event, handle_error, is_ignored, on_event, watch, Config,
    CreateKind, DataChange, Error, Event, EventKind, ModifyKind, Reaction,
};

fn event(kind: EventKind, paths: &[&str]) -> Event {
    Event { kind, paths: paths.iter().map(|p| p.to_string()).collect() }
}

fn config(gitignore: Option<&str>) -> Config {
    Config::new("/home/me/app", gitignore.map(|g| g.to_string()), BacklogBuilder::new())
}

#[test]
fn file_events_give_their_first_path() {
    let kinds = [
        EventKind::Create(CreateKind::File),
        EventKind::Modify(ModifyKind::Data(DataChange::Content)),
        EventKind::Modify(ModifyKind::Name),
        EventKind::Remove,
    ];
    for kind in kinds {
        assert_eq!(
            filepath_from_event(event(kind, &["/a/first.rs", "/a/second.rs"])),
            Ok("/a/first.rs".to_string())
        );
    }
}

#[test]
fn other_events_are_ignored() {
    let kinds = [
        EventKind::Any,
        EventKind::Access,
        EventKind::Other,
        EventKind::Create(CreateKind::Folder),
        EventKind::Create(CreateKind::Any),
        EventKind::Create(CreateKind::Other),
        EventKind::Modify(ModifyKind::Any),
        EventKind::Modify(ModifyKind::Metadata),
        EventKind::Modify(ModifyKind::Other),
        EventKind::Modify(ModifyKind::Data(DataChange::Size)),
        EventKind::Modify(ModifyKind::Data(DataChange::Any)),
        EventKind::Modify(ModifyKind::Data(DataChange::Other)),
    ];
    for kind in kinds {
        let e = event(kind, &["/a/first.rs"]);
        assert_eq!(filepath_from_event(e.clone()), Err(Error::IgnoredEvent(e)));
    }
}

#[test]
fn file_event_without_path_is_an_error() {
    let e = event(EventKind::Remove, &[]);
    assert_eq!(filepath_from_event(e.clone()), Err(Error::EventFilePath(e)));
}

#[test]
fn source_files_are_classified_by_extension() {
    let c = config(None);
    assert_eq!(classify_file(&c, "core/src/lib.rs"), Ok(ChangeType::Rust));
    assert_eq!(classify_file(&c, "web/src/main.ts"), Ok(ChangeType::TypeScript));
    assert_eq!(
        classify_file(&c, "web/img/logo.png"),
        Err(Error::IgnoredFileType("web/img/logo.png".to_string()))
    );
    assert_eq!(
        classify_file(&c, "Makefile"),
        Err(Error::IgnoredFileType("Makefile".to_string()))
    );
    assert_eq!(classify_file(&c, "rs"), Err(Error::IgnoredFileType("rs".to_string())));
}

#[test]
fn ignore_rules_are_consulted() {
    let c = config(Some("target/\n\n  \nnode_modules/\n*.generated.ts\n"));
    assert!(is_ignored(&c, "target/debug/build.rs"));
    assert!(is_ignored(&c, "web/api.generated.ts"));
    assert!(!is_ignored(&c, "core/src/lib.rs"));
    assert_eq!(
        classify_file(&c, "target/debug/build.rs"),
        Err(Error::IgnoredFileType("target/debug/build.rs".to_string()))
    );
    assert_eq!(classify_file(&c, "core/src/lib.rs"), Ok(ChangeType::Rust));
}

#[test]
fn negated_rules_include_again() {
    let c = config(Some("lib/*.ts\n!lib/keep.ts"));
    assert!(is_ignored(&c, "lib/drop.ts"));
    assert!(!is_ignored(&c, "lib/keep.ts"));
}

#[test]
fn lines_that_are_no_rules_are_skipped() {
    let c = config(Some("\n!\n \t \n[\n{a\nb}\nback\\\nweb/\n"));
    assert!(is_ignored(&c, "web/src/main.ts"));
    assert!(!is_ignored(&c, "core/src/lib.rs"));
}

#[test]
fn nothing_is_ignored_without_rules() {
    assert!(!is_ignored(&config(None), "target/debug/build.rs"));
    assert!(!is_ignored(&config(Some("")), "target/debug/build.rs"));
}

#[test]
fn change_reaches_the_scheduler() {
    let mut c = config(None);
    let e = event(EventKind::Modify(ModifyKind::Data(DataChange::Content)), &["/home/me/app/core/src/lib.rs"]);
    assert_eq!(on_event(&mut c, Ok(e)), Ok(true));
    assert!(c.builder.is_running());
    assert!(c.builder.pending().contains(ChangeType::Rust));
    let e = event(EventKind::Create(CreateKind::File), &["/home/me/app/web/src/new.ts"]);
    assert_eq!(on_event(&mut c, Ok(e)), Ok(false));
    assert!(c.builder.pending().contains(ChangeType::TypeScript));
}

#[test]
fn image_edit_never_reaches_the_scheduler() {
    let mut c = config(None);
    let e = event(EventKind::Modify(ModifyKind::Data(DataChange::Content)), &["/home/me/app/web/img/logo.png"]);
    assert_eq!(
        on_event(&mut c, Ok(e)),
        Err(Error::IgnoredFileType("web/img/logo.png".to_string()))
    );
    assert_eq!(c.builder, BacklogBuilder::new());
}

#[test]
fn event_outside_the_project_is_an_error() {
    let mut c = config(None);
    let e = event(EventKind::Remove, &["/elsewhere/lib.rs"]);
    assert_eq!(on_event(&mut c, Ok(e)), Err(Error::RelativePath("/elsewhere/lib.rs".to_string())));
    assert_eq!(c.builder, BacklogBuilder::new());
}

#[test]
fn watcher_failure_and_ignored_events_leave_the_scheduler_alone() {
    let mut c = config(None);
    assert_eq!(on_event(&mut c, Err("broken".to_string())), Err(Error::Notify("broken".to_string())));
    let e = event(EventKind::Access, &["/home/me/app/core/src/lib.rs"]);
    assert_eq!(on_event(&mut c, Ok(e.clone())), Err(Error::IgnoredEvent(e)));
    let e = event(EventKind::Remove, &[]);
    assert_eq!(on_event(&mut c, Ok(e.clone())), Err(Error::EventFilePath(e)));
    assert_eq!(c.builder, BacklogBuilder::new());
}

#[test]
fn ignored_source_file_never_reaches_the_scheduler() {
    let mut c = config(Some("generated/"));
    let e = event(EventKind::Remove, &["/home/me/app/generated/api.ts"]);
    assert_eq!(
        on_event(&mut c, Ok(e)),
        Err(Error::IgnoredFileType("generated/api.ts".to_string()))
    );
    assert_eq!(c.builder, BacklogBuilder::new());
}

#[test]
fn errors_are_reported_or_passed_over() {
    assert_eq!(
        handle_error(&Error::Notify("broken".to_string())),
        Some("Watcher error: broken".to_string())
    );
    assert_eq!(
        handle_error(&Error::EventFilePath(event(EventKind::Remove, &[]))),
        Some("Failed to get path from event".to_string())
    );
    assert_eq!(
        handle_error(&Error::RelativePath("/x".to_string())),
        Some("Failed to get relative path: /x".to_string())
    );
    assert_eq!(handle_error(&Error::IgnoredEvent(event(EventKind::Any, &[]))), None);
    assert_eq!(handle_error(&Error::IgnoredFileType("a.png".to_string())), None);
}

#[test]
fn turn_of_a_session_says_what_to_do() {
    let mut c = config(None);
    let e = event(EventKind::Remove, &["/home/me/app/core/src/lib.rs"]);
    assert_eq!(watch(&mut c, Ok(e.clone())), Reaction { start_worker: true, message: None });
    assert_eq!(watch(&mut c, Ok(e)), Reaction { start_worker: false, message: None });
    let before = c.builder;
    let e = event(EventKind::Remove, &["/home/me/app/web/img/logo.png"]);
    assert_eq!(watch(&mut c, Ok(e)), Reaction { start_worker: false, message: None });
    let e = event(EventKind::Remove, &["/elsewhere/lib.rs"]);
    assert_eq!(
        watch(&mut c, Ok(e)),
        Reaction {
            start_worker: false,
            message: Some("Failed to get relative path: /elsewhere/lib.rs".to_string()),
        }
    );
    assert_eq!(
        watch(&mut c, Err("gone".to_string())),
        Reaction { start_worker: false, message: Some("Watcher error: gone".to_string()) }
    );
    assert_eq!(c.builder, before);
}

#[test]
fn files_with_brackets_in_their_names_can_be_ignored() {
    let c = config(Some("node_modules/\n"));
    assert!(is_ignored(&c, "node_modules/pkg/[id].ts"));
    assert!(!is_ignored(&c, "web/src/pages/[id].ts"));
    assert_eq!(classify_file(&c, "web/src/pages/[id].ts"), Ok(ChangeType::TypeScript));
}

#[test]
fn rules_with_well_formed_groups_are_taken() {
    let c = config(Some("*.[oa]\n{gen,tmp}.rs\n*.{js,ts}\n[!a-y]*.rs\n"));
    assert!(is_ignored(&c, "lib/x.o"));
    assert!(is_ignored(&c, "lib/x.a"));
    assert!(!is_ignored(&c, "lib/x.b"));
    assert!(is_ignored(&c, "core/src/gen.rs"));
    assert!(is_ignored(&c, "core/src/tmp.rs"));
    assert!(is_ignored(&c, "web/src/main.ts"));
    assert!(is_ignored(&c, "core/src/zebra.rs"));
    assert!(!is_ignored(&c, "core/src/lib.rs"));
    assert_eq!(
        classify_file(&c, "web/src/main.ts"),
        Err(Error::IgnoredFileType("web/src/main.ts".to_string()))
    );
    assert_eq!(classify_file(&c, "core/src/lib.rs"), Ok(ChangeType::Rust));
}

#[test]
fn rules_with_ill_formed_groups_are_skipped() {
    let rules = "[z-a].rs\n[\n[]\n[!]\n{a,b\na,b}\n{{{{{{{{{a}}}}}}}}}.rs\nx[a-\nweb/\n";
    let c = config(Some(rules));
    assert!(is_ignored(&c, "web/src/main.ts"));
    assert!(!is_ignored(&c, "core/src/a.rs"));
    assert!(!is_ignored(&c, "core/src/z.rs"));
}

#[test]
fn nothing_is_ignored_below_a_directory_that_is_no_glob() {
    let c = Config::new("/home/me/[app", Some("target/".to_string()), BacklogBuilder::new());
    assert!(!is_ignored(&c, "target/debug/build.rs"));
    let c = config(Some("target/"));
    assert!(!is_ignored(&c, "target/a\\b.rs"));
}

#[test]
fn odd_rules_are_matched_or_skipped() {
    let rules = [
        "[]]", "[!]]", "[^]]", "[a-]", "[-a]", "[a-c-e]", "[a-a]", "[--0]", "[!-]", "[]-a]",
        "[a-z", "[b-a]", "[a-c-b]x", "[é-ü]", "[a-é]", "{}", "{,}", "{a,{b,c}}", "{a,[}]b}",
        "{{{{{{{{a}}}}}}}}", "**", "a**b", "{**}", "{a,**/b}", "{**/a,b/**}", "[*]", "[?]*",
        "*", "!*", "!", "!!", "! ", "/", "//", "**/", "/**", "?", ",", "a,b", "]", "#x", "![a]",
        "{a}*", "[a]*", "x*", "{*", "[*", "lib/[a-c]/**", "**/{x,y}/*.[ch]",
    ];
    let c = config(Some(&rules.join("\n")));
    for path in ["a", "lib/b/x.c", "x/main.c", "core/src/lib.rs", "]", "é.rs", "a,b"] {
        let ignored = is_ignored(&c, path);
        assert_eq!(is_ignored(&c, path), ignored);
    }
    for rule in rules {
        let c = config(Some(rule));
        for path in ["a", "lib/b/x.c", "x/y/main.h", "b", "-", "]"] {
            let ignored = is_ignored(&c, path);
            assert_eq!(is_ignored(&c, path), ignored);
        }
    }
    let c = Config::new("/home/[m]e/{a,b}", Some("*.rs\n[a]".to_string()), BacklogBuilder::new());
    assert!(!is_ignored(&c, "lib.ts"));
}
