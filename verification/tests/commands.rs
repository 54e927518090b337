use codepad::dialog::{
    dialog_filters, open_decided, open_finished, save_decided, save_defaults, save_finished,
    Decision, OpenAction, SaveAction,
};
use codepad::files::{read_result, write_step, WriteAction, WriteEvent};
use codepad::launch::cli_args;
use codepad::FilePayload;

fn strings(items: &[&str]) -> Vec<String> {
    items.iter().map(|s| s.to_string()).collect()
}

#[test]
fn payload_of_a_tsx_file() {
    let p = FilePayload::new(String::from("/home/u/app.tsx"), String::from("const x=1;"));
    assert_eq!(p.path, "/home/u/app.tsx");
    assert_eq!(p.filename, "app.tsx");
    assert_eq!(p.language, "tsx");
    assert_eq!(p.content, "const x=1;");
}

#[test]
fn payload_of_a_path_without_a_name() {
    let p = FilePayload::new(String::from("/"), String::new());
    assert_eq!(p.path, "/");
    assert_eq!(p.filename, "untitled");
    assert_eq!(p.language, "text");
    assert_eq!(p.content, "");
}

#[test]
fn payload_clone_is_independent_and_equal_in_every_field() {
    let p = FilePayload::new(String::from("/a/b.py"), String::from("print(1)\n"));
    let mut q = p.clone();
    q.content.push_str("more");
    assert_eq!(p.content, "print(1)\n");
    assert_eq!(q.path, p.path);
    assert_eq!(q.filename, "b.py");
    assert_eq!(q.language, "python");
}

#[test]
fn read_result_of_text_is_the_payload() {
    let r = read_result(String::from("/srv/x.json"), Ok(String::from("{\"a\": 1}")));
    let p = r.expect("a payload");
    assert_eq!(p.path, "/srv/x.json");
    assert_eq!(p.filename, "x.json");
    assert_eq!(p.language, "json");
    assert_eq!(p.content, "{\"a\": 1}");
}

#[test]
fn read_result_keeps_content_character_for_character() {
    let text = "line one\r\n\tline two — ünïcödé 🙂\n\n";
    let p = read_result(String::from("/n.md"), Ok(String::from(text))).expect("a payload");
    assert_eq!(p.content, text);
    assert_eq!(p.content.as_bytes(), text.as_bytes());
}

#[test]
fn read_failure_names_path_and_cause() {
    let r = read_result(
        String::from("/no/such/file.rs"),
        Err(String::from("No such file or directory (os error 2)")),
    );
    let message = r.err().expect("a message");
    assert_eq!(
        message,
        "Failed to read '/no/such/file.rs': No such file or directory (os error 2)"
    );
    assert!(message.contains("/no/such/file.rs"));
}

#[test]
fn read_failure_for_text_that_is_not_utf8() {
    let r = read_result(
        String::from("/bin/ls"),
        Err(String::from("stream did not contain valid UTF-8")),
    );
    assert_eq!(
        r.err().expect("a message"),
        "Failed to read '/bin/ls': stream did not contain valid UTF-8"
    );
}

#[test]
fn write_begins_with_the_parent_directory() {
    match write_step("/a/b/c.txt", WriteEvent::Begun) {
        WriteAction::CreateDirectory(dir) => assert_eq!(dir, "/a/b"),
        _ => panic!("expected a directory to create"),
    }
    match write_step("c.txt", WriteEvent::Begun) {
        WriteAction::CreateDirectory(dir) => assert_eq!(dir, ""),
        _ => panic!("expected a directory to create"),
    }
}

#[test]
fn write_to_a_path_without_parent_goes_straight_to_the_content() {
    assert!(matches!(write_step("/", WriteEvent::Begun), WriteAction::WriteContent));
    assert!(matches!(write_step("", WriteEvent::Begun), WriteAction::WriteContent));
}

#[test]
fn write_goes_on_to_the_content_once_the_directory_is_there() {
    assert!(matches!(
        write_step("/a/b/c.txt", WriteEvent::DirectoryReady),
        WriteAction::WriteContent
    ));
}

#[test]
fn write_ends_when_the_directory_cannot_be_created() {
    let event = WriteEvent::DirectoryFailed(String::from("Permission denied (os error 13)"));
    match write_step("/root/x/y.txt", event) {
        WriteAction::Fail(message) => {
            assert_eq!(message, "Failed to create directory: Permission denied (os error 13)")
        }
        _ => panic!("expected a failure"),
    }
}

#[test]
fn write_ends_when_the_content_cannot_be_written() {
    let event = WriteEvent::WriteFailed(String::from("No space left on device (os error 28)"));
    match write_step("/data/y.txt", event) {
        WriteAction::Fail(message) => assert_eq!(
            message,
            "Failed to write '/data/y.txt': No space left on device (os error 28)"
        ),
        _ => panic!("expected a failure"),
    }
}

#[test]
fn write_succeeds_once_the_content_is_written() {
    assert!(matches!(write_step("/data/y.txt", WriteEvent::Written), WriteAction::Succeed));
}

#[test]
fn filters_are_code_and_text_then_all_files() {
    let filters = dialog_filters();
    assert_eq!(filters.len(), 2);
    assert_eq!(filters[0].name, "Code & Text Files");
    assert_eq!(
        filters[0].extensions,
        vec![
            "js", "mjs", "ts", "tsx", "jsx", "py", "rs", "go", "html", "htm", "css", "scss",
            "less", "json", "jsonc", "yaml", "yml", "md", "mdx", "cpp", "cc", "c", "h", "java",
            "sql", "xml", "svg", "sh", "bash", "rb", "php", "toml", "txt",
        ]
    );
    assert_eq!(filters[0].extensions.len(), 33);
    assert_eq!(filters[1].name, "All Files");
    assert_eq!(filters[1].extensions, vec!["*"]);
}

#[test]
fn save_defaults_come_from_the_current_path() {
    let d = save_defaults(&Some(String::from("/home/u/notes/todo.md")));
    assert_eq!(d.directory, Some(String::from("/home/u/notes")));
    assert_eq!(d.file_name, Some(String::from("todo.md")));
}

#[test]
fn save_defaults_without_a_current_path_are_empty() {
    let d = save_defaults(&None);
    assert_eq!(d.directory, None);
    assert_eq!(d.file_name, None);
}

#[test]
fn save_defaults_of_paths_that_lack_a_part() {
    let root = save_defaults(&Some(String::from("/")));
    assert_eq!(root.directory, None);
    assert_eq!(root.file_name, None);
    let up = save_defaults(&Some(String::from("/a/..")));
    assert_eq!(up.directory, Some(String::from("/a")));
    assert_eq!(up.file_name, None);
    let bare = save_defaults(&Some(String::from("todo.md")));
    assert_eq!(bare.directory, Some(String::new()));
    assert_eq!(bare.file_name, Some(String::from("todo.md")));
}

#[test]
fn cancelled_open_dialog_is_no_selection() {
    match open_decided(Decision::Cancelled) {
        OpenAction::Finish(Ok(None)) => {}
        _ => panic!("expected no selection"),
    }
}

#[test]
fn cancelled_save_dialog_is_no_selection() {
    match save_decided(Decision::Cancelled) {
        SaveAction::Finish(Ok(None)) => {}
        _ => panic!("expected no selection"),
    }
}

#[test]
fn chosen_file_is_read() {
    match open_decided(Decision::Chosen(String::from("/a/b.go"))) {
        OpenAction::Read(path) => assert_eq!(path, "/a/b.go"),
        _ => panic!("expected a read"),
    }
}

#[test]
fn chosen_target_is_written() {
    match save_decided(Decision::Chosen(String::from("/a/b.go"))) {
        SaveAction::Write(path) => assert_eq!(path, "/a/b.go"),
        _ => panic!("expected a write"),
    }
}

#[test]
fn broken_dialog_is_an_error_with_its_cause() {
    let cause = "receiving on a closed channel";
    match open_decided(Decision::Broken(String::from(cause))) {
        OpenAction::Finish(Err(message)) => assert_eq!(message, cause),
        _ => panic!("expected an error"),
    }
    match save_decided(Decision::Broken(String::from(cause))) {
        SaveAction::Finish(Err(message)) => assert_eq!(message, cause),
        _ => panic!("expected an error"),
    }
}

#[test]
fn open_finishes_with_the_payload_of_the_chosen_file() {
    let answer = open_finished(String::from("/home/u/app.tsx"), Ok(String::from("const x=1;")));
    let p = answer.expect("no error").expect("a payload");
    assert_eq!(p.path, "/home/u/app.tsx");
    assert_eq!(p.filename, "app.tsx");
    assert_eq!(p.language, "tsx");
    assert_eq!(p.content, "const x=1;");
}

#[test]
fn open_finishes_with_the_read_failure() {
    let answer = open_finished(String::from("/gone.txt"), Err(String::from("not found")));
    assert_eq!(answer.err().expect("an error"), "Failed to read '/gone.txt': not found");
}

#[test]
fn save_finishes_with_the_chosen_path() {
    let answer = save_finished(String::from("/out/a.css"), Ok(()));
    assert_eq!(answer, Ok(Some(String::from("/out/a.css"))));
}

#[test]
fn save_finishes_with_the_write_failure_and_no_path() {
    let message = String::from("Failed to write '/out/a.css': Read-only file system (os error 30)");
    let answer = save_finished(String::from("/out/a.css"), Err(message.clone()));
    assert_eq!(answer, Err(message));
}

#[test]
fn cli_args_leave_out_the_program_name() {
    let args = cli_args(strings(&["/usr/bin/editor", "/home/u/a.py", "--flag", "b.rs"]));
    assert_eq!(args, strings(&["/home/u/a.py", "--flag", "b.rs"]));
}

#[test]
fn cli_args_of_a_bare_invocation_are_empty() {
    assert_eq!(cli_args(strings(&["editor"])), Vec::<String>::new());
    assert_eq!(cli_args(Vec::new()), Vec::<String>::new());
}

#[test]
fn cli_args_keep_order_and_repeats() {
    let args = cli_args(strings(&["editor", "b", "a", "b", ""]));
    assert_eq!(args, strings(&["b", "a", "b", ""]));
}
