use mentem_shell::commands::{
    existence_reply, list_names, note_entry, plan_write, removal_for, write_text_file, Entry,
    Removal, WritePlan, BAD_PATH,
};

fn name(s: &str) -> Entry {
    Entry::Name(s.to_string())
}

fn failed(s: &str) -> Entry {
    Entry::Failed(s.to_string())
}

#[test]
fn bad_path_message() {
    assert_eq!(BAD_PATH, "bad path");
}

#[test]
fn write_without_parent_is_turned_down() {
    assert_eq!(plan_write(None, "x".to_string(), "y".to_string()), Err("bad path".to_string()));
}

#[test]
fn write_with_parent_is_planned() {
    assert_eq!(
        plan_write(Some("dir".to_string()), "dir/file".to_string(), "text".to_string()),
        Ok(WritePlan {
            dir: "dir".to_string(),
            path: "dir/file".to_string(),
            contents: "text".to_string(),
        })
    );
}

#[test]
fn write_to_empty_path_is_bad_path() {
    assert_eq!(write_text_file(String::new(), "c".to_string()), Err("bad path".to_string()));
}

#[test]
fn write_to_root_is_bad_path() {
    assert_eq!(write_text_file("/".to_string(), "c".to_string()), Err("bad path".to_string()));
}

#[test]
fn write_creates_parent_then_file() {
    assert_eq!(
        write_text_file("/tmp/a/b/note.txt".to_string(), "hello".to_string()),
        Ok(WritePlan {
            dir: "/tmp/a/b".to_string(),
            path: "/tmp/a/b/note.txt".to_string(),
            contents: "hello".to_string(),
        })
    );
}

#[test]
fn write_to_bare_name_has_empty_parent() {
    let plan = write_text_file("note.txt".to_string(), String::new()).unwrap();
    assert_eq!(plan.dir, "");
    assert_eq!(plan.path, "note.txt");
    assert_eq!(plan.contents, "");
}

#[test]
fn write_directly_under_root() {
    let plan = write_text_file("/note.txt".to_string(), "a\nb".to_string()).unwrap();
    assert_eq!(plan.dir, "/");
    assert_eq!(plan.path, "/note.txt");
    assert_eq!(plan.contents, "a\nb");
}

#[test]
fn write_keeps_path_and_contents_as_given() {
    let path = "rel/\u{e9}t\u{e9}/f.txt".to_string();
    let contents = "C2 \u{1f600}".to_string();
    let plan = write_text_file(path.clone(), contents.clone()).unwrap();
    assert_eq!(plan.dir, "rel/\u{e9}t\u{e9}");
    assert_eq!(plan.path, path);
    assert_eq!(plan.contents, contents);
}

#[test]
fn directory_is_removed_as_tree() {
    assert_eq!(removal_for(true), Removal::Tree);
}

#[test]
fn other_path_is_removed_as_file() {
    assert_eq!(removal_for(false), Removal::File);
}

#[test]
fn existence_is_never_an_error() {
    assert_eq!(existence_reply(true), Ok(true));
    assert_eq!(existence_reply(false), Ok(false));
}

#[test]
fn listing_returns_both_names() {
    let mut names = list_names(vec![name("a.txt"), name("b")]).unwrap();
    names.sort();
    assert_eq!(names, vec!["a.txt".to_string(), "b".to_string()]);
}

#[test]
fn listing_keeps_the_order_read() {
    assert_eq!(
        list_names(vec![name("z"), name("a"), name("m")]),
        Ok(vec!["z".to_string(), "a".to_string(), "m".to_string()])
    );
}

#[test]
fn listing_of_empty_directory() {
    assert_eq!(list_names(vec![]), Ok(vec![]));
}

#[test]
fn entry_without_text_name_is_skipped() {
    assert_eq!(
        list_names(vec![Entry::Unnamed, name("a"), Entry::Unnamed, name("b"), Entry::Unnamed]),
        Ok(vec!["a".to_string(), "b".to_string()])
    );
    assert_eq!(list_names(vec![Entry::Unnamed]), Ok(vec![]));
}

#[test]
fn failed_entry_fails_the_listing() {
    assert_eq!(
        list_names(vec![name("a"), failed("permission denied"), name("b")]),
        Err("permission denied".to_string())
    );
}

#[test]
fn first_failure_is_reported() {
    assert_eq!(
        list_names(vec![Entry::Unnamed, failed("first"), failed("second")]),
        Err("first".to_string())
    );
}

#[test]
fn step_adds_a_name() {
    let mut names = vec!["a".to_string()];
    assert_eq!(note_entry(&mut names, name("b")), Ok(()));
    assert_eq!(names, vec!["a".to_string(), "b".to_string()]);
}

#[test]
fn step_passes_over_entry_without_name() {
    let mut names = vec!["a".to_string()];
    assert_eq!(note_entry(&mut names, Entry::Unnamed), Ok(()));
    assert_eq!(names, vec!["a".to_string()]);
}

#[test]
fn step_reports_failure_and_keeps_names() {
    let mut names = vec!["a".to_string()];
    assert_eq!(note_entry(&mut names, failed("gone")), Err("gone".to_string()));
    assert_eq!(names, vec!["a".to_string()]);
}

#[test]
fn steps_agree_with_whole_listing() {
    let entries = || vec![name("x"), Entry::Unnamed, name("y"), failed("io"), name("z")];
    let mut names = Vec::new();
    let mut reply = Ok(());
    for entry in entries() {
        reply = note_entry(&mut names, entry);
        if reply.is_err() {
            break;
        }
    }
    assert_eq!(reply.map(|_| names), list_names(entries()));
}
