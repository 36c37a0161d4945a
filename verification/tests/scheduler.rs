use poly::backlog_builder::{select_stages, Backlog, BacklogBuilder, Stage};
use poly::builds::{ChangeType, Env, Progress};

#[test]
fn web_change_alone_selects_the_bundler_only() {
    let mut scheduler = BacklogBuilder::new();
    assert!(scheduler.enqueue(ChangeType::TypeScript));
    let batch = scheduler.drain().expect("a batch");
    assert_eq!(select_stages(&batch, true), vec![Stage::WebBundle]);
    assert_eq!(select_stages(&batch, false), vec![Stage::WebBundle]);
}

#[test]
fn native_change_selects_the_full_sequence() {
    let mut batch = Backlog::empty();
    batch.insert(ChangeType::Rust);
    assert_eq!(
        select_stages(&batch, true),
        vec![Stage::NativeCompile, Stage::WasmPackaging, Stage::WebBundle, Stage::Hook]
    );
    assert_eq!(
        select_stages(&batch, false),
        vec![Stage::NativeCompile, Stage::WasmPackaging, Stage::WebBundle]
    );
}

#[test]
fn mixed_changes_select_the_full_sequence() {
    let mut batch = Backlog::empty();
    batch.insert(ChangeType::TypeScript);
    batch.insert(ChangeType::Rust);
    assert_eq!(
        select_stages(&batch, true),
        vec![Stage::NativeCompile, Stage::WasmPackaging, Stage::WebBundle, Stage::Hook]
    );
}

#[test]
fn empty_backlog_selects_nothing() {
    assert_eq!(select_stages(&Backlog::empty(), true), Vec::<Stage>::new());
}

#[test]
fn backlog_is_a_set() {
    let mut backlog = Backlog::empty();
    assert!(backlog.is_empty());
    backlog.insert(ChangeType::Rust);
    backlog.insert(ChangeType::Rust);
    assert!(backlog.contains(ChangeType::Rust));
    assert!(!backlog.contains(ChangeType::TypeScript));
    assert!(!backlog.is_empty());
    let mut once = Backlog::empty();
    once.insert(ChangeType::Rust);
    assert_eq!(backlog, once);
}

#[test]
fn only_the_first_change_starts_a_worker() {
    let mut scheduler = BacklogBuilder::new();
    assert!(!scheduler.is_running());
    assert!(scheduler.enqueue(ChangeType::Rust));
    assert!(scheduler.is_running());
    assert!(!scheduler.enqueue(ChangeType::TypeScript));
    assert!(!scheduler.enqueue(ChangeType::Rust));
    assert!(scheduler.is_running());
}

#[test]
fn drain_takes_every_pending_change() {
    let mut scheduler = BacklogBuilder::new();
    scheduler.enqueue(ChangeType::Rust);
    scheduler.enqueue(ChangeType::TypeScript);
    let batch = scheduler.drain().expect("a batch");
    assert!(batch.contains(ChangeType::Rust));
    assert!(batch.contains(ChangeType::TypeScript));
    assert!(scheduler.pending().is_empty());
    assert!(scheduler.is_running());
}

#[test]
fn change_during_a_build_is_built_next() {
    let mut scheduler = BacklogBuilder::new();
    assert!(scheduler.enqueue(ChangeType::Rust));
    let first = scheduler.drain().expect("a batch");
    assert!(first.contains(ChangeType::Rust));
    assert!(!scheduler.enqueue(ChangeType::TypeScript));
    let second = scheduler.drain().expect("a second batch");
    assert!(second.contains(ChangeType::TypeScript));
    assert!(!second.contains(ChangeType::Rust));
    assert_eq!(scheduler.drain(), None);
    assert!(!scheduler.is_running());
    assert!(scheduler.enqueue(ChangeType::Rust));
}

#[test]
fn drain_of_an_idle_scheduler_gives_nothing() {
    let mut scheduler = BacklogBuilder::new();
    assert_eq!(scheduler.drain(), None);
    assert!(!scheduler.is_running());
    assert_eq!(scheduler, BacklogBuilder::new());
}

#[test]
fn lost_worker_is_replaced_by_the_next_change() {
    let mut scheduler = BacklogBuilder::new();
    assert!(scheduler.enqueue(ChangeType::Rust));
    scheduler.worker_lost();
    assert!(!scheduler.is_running());
    assert!(scheduler.pending().contains(ChangeType::Rust));
    assert!(scheduler.enqueue(ChangeType::TypeScript));
    let batch = scheduler.drain().expect("a batch");
    assert!(batch.contains(ChangeType::Rust));
    assert!(batch.contains(ChangeType::TypeScript));
}

#[test]
fn progress_stops_at_the_first_failure() {
    let mut progress = Progress::new(3);
    assert_eq!(progress.current(), Some(0));
    progress.report(true);
    assert_eq!(progress.current(), Some(1));
    progress.report(false);
    assert_eq!(progress.current(), None);
    assert_eq!(progress.failed_step(), Some(1));
    assert!(!progress.succeeded());
    progress.report(true);
    assert_eq!(progress.current(), None);
    assert_eq!(progress.failed_step(), Some(1));
}

#[test]
fn progress_ends_after_the_last_step() {
    let mut progress = Progress::new(2);
    progress.report(true);
    assert!(!progress.succeeded());
    progress.report(true);
    assert_eq!(progress.current(), None);
    assert!(progress.succeeded());
    assert_eq!(progress.failed_step(), None);
    let empty = Progress::new(0);
    assert_eq!(empty.current(), None);
    assert!(empty.succeeded());
}

#[test]
fn env_tags() {
    assert_eq!(Env::Dev.to_string(), "dev");
    assert_eq!(Env::Release.to_string(), "release");
}
