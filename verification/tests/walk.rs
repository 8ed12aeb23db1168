use kuebico::storage::fs::{Error as FsError, Fs, StepAction, WalkEvent};
use kuebico::storage::Error;

fn md_backend(root: &str) -> Fs {
    Fs::new(String::from(root))
}

#[test]
fn a_finished_walk_ends_the_sequence() {
    let fs = md_backend("root");
    assert_eq!(fs.iter_step(WalkEvent::Finished), StepAction::Stop);
}

#[test]
fn an_empty_root_yields_no_page() {
    // Walking an empty root visits only the root directory itself and then
    // ends: no item is ever yielded and nothing fails.
    let fs = md_backend("root");
    assert_eq!(fs.iter_step(WalkEvent::Dir), StepAction::Skip);
    assert_eq!(fs.iter_step(WalkEvent::Finished), StepAction::Stop);
}

#[test]
fn directories_are_skipped_without_an_item() {
    let fs = md_backend("root");
    assert_eq!(fs.iter_step(WalkEvent::Dir), StepAction::Skip);
}

#[test]
fn a_failed_walk_step_becomes_one_error_item() {
    let fs = md_backend("root");
    let act = fs.iter_step(WalkEvent::WalkFailed(String::from("permission denied")));
    assert_eq!(
        act,
        StepAction::Emit(Error::ImplError(FsError::WalkdirError(String::from(
            "permission denied"
        ))))
    );
}

#[test]
fn a_non_unicode_path_becomes_one_error_item() {
    let fs = md_backend("root");
    let act = fs.iter_step(WalkEvent::FileNotUnicode);
    assert_eq!(act, StepAction::Emit(Error::ImplError(FsError::PathNotValidUnicode)));
}

#[test]
fn an_entry_outside_the_root_becomes_one_error_item() {
    let fs = md_backend("root");
    let act = fs.iter_step(WalkEvent::File(String::from("other/x.md")));
    assert_eq!(act, StepAction::Emit(Error::ImplError(FsError::StripPrefixError)));
}

#[test]
fn a_file_is_read_under_its_page_name() {
    let fs = md_backend("root");
    let act = fs.iter_step(WalkEvent::File(String::from("root/a.md")));
    assert_eq!(act, StepAction::Read(String::from("a")));
}

#[test]
fn a_nested_file_keeps_its_path_in_the_page_name() {
    let fs = md_backend("root");
    let act = fs.iter_step(WalkEvent::File(String::from("root/b/c.md")));
    assert_eq!(act, StepAction::Read(String::from("b/c")));
}

#[test]
fn internal_dots_survive_extension_stripping() {
    let fs = md_backend("root");
    let act = fs.iter_step(WalkEvent::File(String::from("root/v1.2.md")));
    assert_eq!(act, StepAction::Read(String::from("v1.2")));
}

#[test]
fn a_file_without_the_configured_extension_yields_no_item() {
    let fs = md_backend("root");
    assert_eq!(fs.iter_step(WalkEvent::File(String::from("root/notes.txt"))), StepAction::Skip);
    assert_eq!(fs.iter_step(WalkEvent::File(String::from("root/.md"))), StepAction::Skip);
}

#[test]
fn without_a_configured_extension_every_file_is_a_page() {
    let fs = Fs { path: String::from("root"), ignore_hidden: true, extension: None };
    let act = fs.iter_step(WalkEvent::File(String::from("root/notes.txt")));
    assert_eq!(act, StepAction::Read(String::from("notes.txt")));
}

#[test]
fn hidden_entries_are_pruned_when_ignoring_hidden() {
    let fs = md_backend("root");
    assert!(!fs.keep_entry(".secret.md"));
    assert!(!fs.keep_entry(".git"));
    assert!(fs.keep_entry("a.md"));
    assert!(fs.keep_entry("b"));
}

#[test]
fn hidden_entries_are_kept_when_not_ignoring_hidden() {
    let fs = Fs {
        path: String::from("root"),
        ignore_hidden: false,
        extension: Some(String::from("md")),
    };
    assert!(fs.keep_entry(".secret.md"));
    assert!(fs.keep_entry(".git"));
    assert!(fs.keep_entry("a.md"));
}

#[test]
fn a_yielded_name_reads_back_the_same_file() {
    // Round trip: the page name computed for a walked file leads `read`
    // straight back to that file's path.
    let fs = md_backend("root");
    let walked = "root/b/c.md";
    let act = fs.iter_step(WalkEvent::File(String::from(walked)));
    match act {
        StepAction::Read(name) => assert_eq!(fs.read_path(&name), walked),
        other => panic!("expected a read, got {:?}", other),
    }
}

#[test]
fn a_walk_yields_each_visible_page_and_nothing_else() {
    // Root holds `a.md` ("Hello"), `b/c.md` ("World"), `notes.txt` and
    // `.hidden.md`; the hidden file is pruned by the walk filter, the file
    // without the configured extension carries no page, and the walk of the
    // rest yields exactly the pages `a` and `b/c`.
    let fs = md_backend("root");
    assert!(!fs.keep_entry(".hidden.md"));

    let events = vec![
        WalkEvent::Dir,
        WalkEvent::File(String::from("root/a.md")),
        WalkEvent::Dir,
        WalkEvent::File(String::from("root/b/c.md")),
        WalkEvent::File(String::from("root/notes.txt")),
        WalkEvent::Finished,
    ];
    let mut names: Vec<String> = Vec::new();
    let mut stopped = false;
    for ev in events {
        match fs.iter_step(ev) {
            StepAction::Stop => stopped = true,
            StepAction::Skip => {}
            StepAction::Read(name) => names.push(name),
            StepAction::Emit(e) => panic!("unexpected error item {:?}", e),
        }
    }
    assert!(stopped);
    assert_eq!(names, vec![String::from("a"), String::from("b/c")]);

    let hello = fs.page_from_source(names[0].clone(), String::from("Hello"));
    assert_eq!(hello.name, "a");
    assert_eq!(hello.source, "Hello");
    let world = fs.page_from_source(names[1].clone(), String::from("World"));
    assert_eq!(world.name, "b/c");
    assert_eq!(world.source, "World");
}
