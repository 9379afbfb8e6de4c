use arx::bash::{and_chain, render, render_argv, shell_quote, split_words, Fragment};
use arx::cli::{Input, Mode, SubArgs};
use arx::sources::{cache_key, parent_of, ExtractAction, InlineFile, LinkSource, Source};
use arx::{str_eq, tail};

fn argv(words: &[&str]) -> Vec<String> {
    words.iter().map(|w| w.to_string()).collect()
}

#[test]
fn quoting_survives_spaces_quotes_and_metacharacters() {
    assert_eq!(shell_quote("echo"), "'echo'");
    assert_eq!(shell_quote(""), "''");
    assert_eq!(shell_quote("a b"), "'a b'");
    assert_eq!(shell_quote("it's"), "'it'\\''s'");
    assert_eq!(shell_quote("$HOME"), "'$HOME'");
    assert_eq!(shell_quote("`ls`"), "'`ls`'");
    assert_eq!(shell_quote("''"), "''\\'''\\'''");
}

#[test]
fn argv_renders_words_joined_by_spaces() {
    let r = render_argv(&argv(&["echo", "a b", "it's", "$x"]));
    assert_eq!(r, "'echo' 'a b' 'it'\\''s' '$x'");
}

#[test]
fn rendering_then_splitting_round_trips() {
    let words = argv(&["echo", "a b", "it's", "$HOME", "`ls`", "", "back\\slash", "''"]);
    let rendered = render_argv(&words);
    assert_eq!(split_words(&rendered), Some(words));
    assert_eq!(split_words(""), Some(Vec::new()));
    // Text that is not in the rendered form does not split.
    assert_eq!(split_words("unquoted"), None);
    assert_eq!(split_words("'unterminated"), None);
}

#[test]
fn fragments_render_with_shell_control_flow() {
    let a = Fragment::ArgV(argv(&["a"]));
    let b = Fragment::ArgV(argv(&["b"]));
    let c = Fragment::ArgV(argv(&["c"]));
    let and = Fragment::And(Box::new(a), Box::new(b));
    assert_eq!(render(&and), "'a' && 'b'");
    let or = Fragment::Or(Box::new(and), Box::new(c));
    assert_eq!(render(&or), "'a' && 'b' || 'c'");
    let w = Fragment::Wraps(
        Box::new(Fragment::ArgV(argv(&["cd", "/tmp"]))),
        Box::new(Fragment::ArgV(argv(&["make"]))),
    );
    assert_eq!(render(&w), "( 'cd' '/tmp' ; 'make' )");
}

#[test]
fn chains_join_entries_with_and() {
    let f = and_chain(vec![argv(&["a"]), argv(&["b"]), argv(&["c"])]);
    assert_eq!(render(&f), "'a' && 'b' && 'c'");
}

#[test]
fn cache_keys_flatten_urls() {
    assert_eq!(cache_key("http://example.com/a/b"), "http___example.com_a_b");
    assert_eq!(cache_key("plain.txt"), "plain.txt");
}

#[test]
fn parent_of_splits_at_the_last_separator() {
    assert_eq!(parent_of("dest/b"), Some("dest".to_string()));
    assert_eq!(parent_of("a/b/c.txt"), Some("a/b".to_string()));
    assert_eq!(parent_of("file.txt"), None);
}

#[test]
fn inline_extraction_writes_bytes_and_creates_directories() {
    let src = Source::Inline(InlineFile { data: vec![1, 2, 3], formerly: None });
    match src.extract("out/dir/payload") {
        ExtractAction::WriteFile { dir, path, bytes } => {
            assert_eq!(dir.as_deref(), Some("out/dir"));
            assert_eq!(path, "out/dir/payload");
            assert_eq!(bytes, vec![1, 2, 3]);
        },
        _ => panic!("inline payloads are written, not unpacked"),
    }
}

#[test]
fn formerly_is_a_plain_back_reference() {
    let inline = Source::Inline(InlineFile { data: vec![], formerly: Some(2) });
    assert_eq!(inline.formerly(), Some(2));
    let link = Source::Link(LinkSource { url: "http://x/y".to_string() });
    assert_eq!(link.formerly(), None);
    match &link {
        Source::Link(l) => assert_eq!(l.url(), "http://x/y"),
        _ => unreachable!(),
    }
}

#[test]
fn tail_drops_the_first_element() {
    assert_eq!(tail(&argv(&["a", "b", "c"])), argv(&["b", "c"]));
    assert_eq!(tail(&argv(&["a"])), Vec::<String>::new());
    assert_eq!(tail(&Vec::<String>::new()), Vec::<String>::new());
}

#[test]
fn str_eq_compares_characters() {
    assert!(str_eq("abc", "abc"));
    assert!(!str_eq("abc", "abd"));
    assert!(!str_eq("abc", "ab"));
}

#[test]
fn dash_names_standard_input() {
    assert!(matches!(Input::of_string("-".to_string()), Input::StdIO));
    match Input::of_string("m.yaml".to_string()) {
        Input::File(f) => assert_eq!(f, "m.yaml"),
        _ => panic!("a name is a file"),
    }
    assert!(matches!(Input::of_option(None), Input::StdIO));
}

#[test]
fn flags_pick_the_run_mode() {
    match Mode::of_args(false, false, argv(&["m1", "-"]), None) {
        Mode::Filter(inputs) => {
            assert_eq!(inputs.len(), 2);
            assert!(matches!(inputs[0], Input::File(_)));
            assert!(matches!(inputs[1], Input::StdIO));
        },
        _ => panic!("no flags means filtering"),
    }
    match Mode::of_args(true, false, argv(&["run.yaml", "x"]), None) {
        Mode::Execute(Input::File(f), args) => {
            assert_eq!(f, "run.yaml");
            assert_eq!(args, argv(&["x"]));
        },
        _ => panic!("-f executes"),
    }
    match Mode::of_args(true, true, argv(&[]), None) {
        Mode::ExecuteShell(Input::StdIO, args) => assert_eq!(args.len(), 0),
        _ => panic!("-f -s executes a shell script"),
    }
    match Mode::of_args(false, true, argv(&["s.sh"]), None) {
        Mode::Shell(Input::File(f)) => assert_eq!(f, "s.sh"),
        _ => panic!("-s reads a shell script"),
    }
}

#[test]
fn subcommands_win_over_flags() {
    let sub = SubArgs::Code { cmd: "build".to_string(), args: argv(&["-j4"]) };
    match Mode::of_args(false, false, argv(&["ignored"]), Some(sub)) {
        Mode::Code(cmd, args) => {
            assert_eq!(cmd, "build");
            assert_eq!(args, argv(&["-j4"]));
        },
        _ => panic!("the code subcommand wins"),
    }
    let sub = SubArgs::Data { url: "http://x/d".to_string(), destination: Some("d".to_string()) };
    match Mode::of_args(true, true, argv(&[]), Some(sub)) {
        Mode::Data(url, dest) => {
            assert_eq!(url, "http://x/d");
            assert_eq!(dest.as_deref(), Some("d"));
        },
        _ => panic!("the data subcommand wins"),
    }
}
