use parallel::errors::{FileErr, ParseErr};

fn args(v: &[&str]) -> Vec<String> {
    v.iter().map(|s| s.to_string()).collect()
}

#[test]
fn file_err_describes_path_and_cause() {
    let e = FileErr::Open("in.txt".to_string(), "No such file".to_string());
    assert_eq!(e.describe(), "unable to open \"in.txt\": No such file");
    let e = FileErr::Read("a\"b".to_string(), "bad".to_string());
    assert_eq!(e.describe(), "unable to read \"a\\\"b\": bad");
    let e = FileErr::Write("out".to_string(), "full".to_string());
    assert_eq!(e.describe(), "unable to write \"out\": full");
}

#[test]
fn parse_err_from_file_err() {
    let e: ParseErr = FileErr::Read("x".to_string(), "y".to_string()).into();
    assert!(matches!(e, ParseErr::File(FileErr::Read(_, _))));
    let a = args(&[]);
    assert_eq!(e.message(&a), "parallel: parsing error: unable to read \"x\": y\n");
}

#[test]
fn parse_err_messages_name_the_argument() {
    let a = args(&["parallel", "--delay", "soon", "-j"]);
    assert_eq!(
        ParseErr::DelayNaN(2).message(&a),
        "parallel: parsing error: delay parameter, 'soon', is not a number.\n"
    );
    assert_eq!(
        ParseErr::MaxArgsNaN(2).message(&a),
        "parallel: parsing error: groups parameter, 'soon', is not a number.\n"
    );
    assert_eq!(ParseErr::MemInvalid(1).message(&a), "parallel: parsing error: invalid memory value: --delay\n");
    assert_eq!(ParseErr::InvalidArgument(3).message(&a), "parallel: parsing error: invalid argument: -j\n");
    assert_eq!(ParseErr::TimeoutNaN(0).message(&a), "parallel: parsing error: invalid timeout value: parallel\n");
    assert_eq!(
        ParseErr::JobsNaN("many".to_string()).message(&a),
        "parallel: parsing error: jobs parameter, 'many', is not a number.\n"
    );
}

#[test]
fn parse_err_messages_without_values() {
    let a = args(&[]);
    assert_eq!(ParseErr::DelayNoValue.message(&a), "parallel: parsing error: no delay parameter was defined.\n");
    assert_eq!(ParseErr::JoblogNoValue.message(&a), "parallel: parsing error: no joblog parameter was defined.\n");
    assert_eq!(ParseErr::JobsNoValue.message(&a), "parallel: parsing error: no jobs parameter was defined.\n");
    assert_eq!(ParseErr::MaxArgsNoValue.message(&a), "parallel: parsing error: no groups parameter was defined.\n");
    assert_eq!(ParseErr::MemNoValue.message(&a), "parallel: parsing error: no memory parameter was defined.\n");
    assert_eq!(ParseErr::NoArguments.message(&a), "parallel: parsing error: no input arguments were given.\n");
    assert_eq!(ParseErr::TimeoutNoValue.message(&a), "parallel: parsing error: no timeout parameter was defined.\n");
    assert_eq!(ParseErr::WorkDirNoValue.message(&a), "parallel: parsing error: no workdir parameter was defined.\n");
    assert_eq!(
        ParseErr::NonTerminated("echo 'a".to_string()).message(&a),
        "parallel: parsing error: command is not properly terminated:\n  $ echo 'a\nTip: Try using the --quote parameter to escape your command\n"
    );
    assert_eq!(
        ParseErr::RedirFile("f".to_string()).message(&a),
        "parallel: parsing error: an error occurred while redirecting file: \"f\"\n"
    );
}

#[test]
fn usage_hint_text() {
    assert_eq!(ParseErr::usage(), "For help on command-line usage, execute `parallel -h`\n");
}
