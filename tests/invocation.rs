use sendme::args::{show_help, Args, Error, Flags, Mode, Output, DEFAULT_LIMIT};
use sendme::index::{IndexTemplate, ModeTag};
use sendme::tunnel::funnel_report;

fn flags() -> Flags {
    Flags {
        single: false,
        multiple: false,
        text: false,
        client_filename: false,
        force_stdout: false,
        keep_running: false,
        quiet: false,
        use_tailscale_funnel: false,
        out_name: None,
        port: None,
        limit: None,
        stdout_is_terminal: false,
    }
}

#[test]
fn defaults_to_single_file_on_piped_stdout() {
    let a = Args::from_flags(flags()).unwrap();
    assert!(matches!(a.mode, Mode::SingleFile { out: Output::Stdout }));
    assert_eq!(a.port, 0);
    assert_eq!(a.limit, DEFAULT_LIMIT);
    assert_eq!(DEFAULT_LIMIT, 2 * 1024 * 1024 * 1024);
}

#[test]
fn terminal_stdout_needs_force() {
    let mut f = flags();
    f.stdout_is_terminal = true;
    assert!(matches!(Args::from_flags(f), Err(Error::StdoutIsTerminal)));
    let mut f = flags();
    f.stdout_is_terminal = true;
    f.force_stdout = true;
    assert!(matches!(Args::from_flags(f).unwrap().mode, Mode::SingleFile { out: Output::Stdout }));
    let mut f = flags();
    f.stdout_is_terminal = true;
    f.client_filename = true;
    assert!(matches!(
        Args::from_flags(f).unwrap().mode,
        Mode::SingleFile { out: Output::ClientFilename }
    ));
}

#[test]
fn output_name_wins() {
    let mut f = flags();
    f.single = true;
    f.out_name = Some("out.bin".to_string());
    f.client_filename = true;
    f.stdout_is_terminal = true;
    f.port = Some(8080);
    f.limit = Some(1000);
    f.keep_running = true;
    let a = Args::from_flags(f).unwrap();
    assert!(matches!(a.mode, Mode::SingleFile { out: Output::Filename(ref n) } if n == "out.bin"));
    assert_eq!(a.port, 8080);
    assert_eq!(a.limit, 1000);
    assert!(a.keep_running);
}

#[test]
fn multiple_and_text_modes() {
    let mut f = flags();
    f.multiple = true;
    f.out_name = Some("dst/".to_string());
    assert!(matches!(
        Args::from_flags(f).unwrap().mode,
        Mode::MultipleFiles { out_dir: Some(ref d) } if d == "dst/"
    ));
    let mut f = flags();
    f.text = true;
    f.stdout_is_terminal = true;
    assert!(matches!(Args::from_flags(f).unwrap().mode, Mode::Text { out_filename: None }));
}

#[test]
fn conflicting_modes() {
    let mut f = flags();
    f.single = true;
    f.text = true;
    assert!(matches!(Args::from_flags(f), Err(Error::ConflictingModes)));
    let mut f = flags();
    f.multiple = true;
    f.text = true;
    assert!(matches!(Args::from_flags(f), Err(Error::ConflictingModes)));
}

#[test]
fn error_messages() {
    assert_eq!(
        Error::ConflictingModes.describe("sendme"),
        "error: multiple modes were specified\nuse only one of -s, -m, and -t\nrun with -h for help"
    );
    assert_eq!(
        Error::StdoutIsTerminal.describe("sendme"),
        "error: stdout is a terminal\nuse -f to print to stdout anyway, or -o to specify a file\nrun with -h for help"
    );
    let help = Error::HelpRequested.describe("prog");
    assert_eq!(help, show_help("prog"));
    assert!(help.starts_with("sendme: accept file uploads via an ephemeral HTML form\n\nusage: prog [-s|-m|-t]"));
    assert!(help.contains("\n  -s: allow uploading single file (default)\n"));
    assert!(help.contains("\n               current directory for -m\n"));
    assert!(help.ends_with("  -h: show help"));
    let e = Error::from(pico_args::Error::MissingArgument);
    assert_eq!(e.describe("p"), "error: free-standing argument is missing\nrun with -h for help");
}

#[test]
fn index_template_tags_the_mode() {
    let t = IndexTemplate::new(&Mode::MultipleFiles { out_dir: None }, 99);
    assert_eq!(t.mode, ModeTag::MultipleFiles);
    assert_eq!(t.limit, 99);
    let t = IndexTemplate::new(&Mode::Text { out_filename: None }, 1);
    assert_eq!(t.mode, ModeTag::Text);
    let t = IndexTemplate::new(&Mode::SingleFile { out: Output::Stdout }, 1);
    assert_eq!(t.mode, ModeTag::SingleFile);
}

#[test]
fn funnel_output() {
    assert_eq!(
        funnel_report(Some("Available on the internet:"), Some(""), Some("https://x.ts.net/")),
        Ok("funnelled at https://x.ts.net/".to_string())
    );
    assert_eq!(
        funnel_report(Some("Oops"), Some(""), Some("u")),
        Err("unexpected output from tailscale binary:\n> Oops\n> ".to_string())
    );
    assert_eq!(
        funnel_report(Some("Available on the internet:"), Some("x"), Some("u")),
        Err("unexpected output from tailscale binary:\n> Available on the internet:\n> x".to_string())
    );
    assert_eq!(
        funnel_report(Some("Available on the internet:"), Some(""), None),
        Err("unexpected output from tailscale binary".to_string())
    );
}

#[test]
fn single_file_with_s_flag_on_piped_stdout() {
    let mut f = flags();
    f.single = true;
    assert!(matches!(Args::from_flags(f).unwrap().mode, Mode::SingleFile { out: Output::Stdout }));
}
