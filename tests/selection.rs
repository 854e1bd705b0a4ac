use sendme::args::{Args, Mode, Output};
use sendme::status::Status;
use sendme::upload::{safe_path, FileOrStdout};

fn path_of(r: Result<FileOrStdout, Status>) -> String {
    match r {
        Ok(FileOrStdout::File(p)) => p,
        other => panic!("expected a file, got {:?}", other),
    }
}

#[test]
fn safe_path_keeps_the_last_component() {
    assert_eq!(safe_path("a.bin"), Some("a.bin"));
    assert_eq!(safe_path("dir/sub/a.bin"), Some("a.bin"));
    assert_eq!(safe_path("C:\\Users\\me\\a.bin"), Some("a.bin"));
    assert_eq!(safe_path("/abs/name.txt"), Some("name.txt"));
    assert_eq!(safe_path("x..y"), Some("x..y"));
    assert_eq!(safe_path("...."), Some("...."));
}

#[test]
fn safe_path_refuses_escapes_and_empty_names() {
    assert_eq!(safe_path("../etc/passwd"), None);
    assert_eq!(safe_path("a/../b"), None);
    assert_eq!(safe_path("..\\b"), None);
    assert_eq!(safe_path(".."), None);
    assert_eq!(safe_path("dir/"), None);
    assert_eq!(safe_path(""), None);
    assert_eq!(safe_path("."), None);
    assert_eq!(safe_path("a/."), None);
    assert_eq!(safe_path("bad\0name"), None);
}

#[test]
fn sink_for_fixed_outputs() {
    let text_out = Mode::Text { out_filename: None };
    assert!(matches!(FileOrStdout::from_mode(&text_out, None), Ok(FileOrStdout::Stdout)));
    let text_file = Mode::Text { out_filename: Some("notes.txt".to_string()) };
    assert_eq!(path_of(FileOrStdout::from_mode(&text_file, Some("ignored"))), "notes.txt");
    let single = Mode::SingleFile { out: Output::Filename("out.bin".to_string()) };
    assert_eq!(path_of(FileOrStdout::from_mode(&single, Some("x"))), "out.bin");
    let stdout = Mode::SingleFile { out: Output::Stdout };
    assert!(matches!(FileOrStdout::from_mode(&stdout, Some("x")), Ok(FileOrStdout::Stdout)));
}

#[test]
fn sink_for_client_names() {
    let client = Mode::SingleFile { out: Output::ClientFilename };
    assert_eq!(path_of(FileOrStdout::from_mode(&client, Some("up/photo.jpg"))), "photo.jpg");
    assert_eq!(FileOrStdout::from_mode(&client, None).unwrap_err(), Status::BadRequest);
    assert_eq!(
        FileOrStdout::from_mode(&client, Some("../x")).unwrap_err(),
        Status::BadRequest
    );
}

#[test]
fn sink_for_multiple_files() {
    let dst = Mode::MultipleFiles { out_dir: Some("dst/".to_string()) };
    assert_eq!(path_of(FileOrStdout::from_mode(&dst, Some("a.bin"))), "dst/a.bin");
    let dst2 = Mode::MultipleFiles { out_dir: Some("dst".to_string()) };
    assert_eq!(path_of(FileOrStdout::from_mode(&dst2, Some("b.bin"))), "dst/b.bin");
    let cwd = Mode::MultipleFiles { out_dir: None };
    assert_eq!(path_of(FileOrStdout::from_mode(&cwd, Some("c.bin"))), "./c.bin");
    let empty = Mode::MultipleFiles { out_dir: Some(String::new()) };
    assert_eq!(path_of(FileOrStdout::from_mode(&empty, Some("c.bin"))), "c.bin");
}

#[test]
fn path_traversal_defeated() {
    let dst = Mode::MultipleFiles { out_dir: Some("dst/".to_string()) };
    let r = FileOrStdout::from_mode(&dst, Some("../etc/passwd"));
    assert_eq!(r.unwrap_err(), Status::BadRequest);
    assert_eq!(Status::BadRequest.code(), 400);
}

#[test]
fn only_stdout_is_flushed() {
    assert!(FileOrStdout::Stdout.needs_flush());
    assert!(!FileOrStdout::File("f".to_string()).needs_flush());
}

#[test]
fn args_struct_holds_its_fields() {
    let a = Args {
        mode: Mode::Text { out_filename: None },
        port: 8080,
        limit: 10,
        keep_running: true,
        quiet: false,
        use_tailscale_funnel: false,
    };
    assert_eq!(a.port, 8080);
    assert!(matches!(a.mode, Mode::Text { out_filename: None }));
}
