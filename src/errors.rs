//! Errors of the configuration and input collaborators, with their messages.

use vstd::prelude::*;
use vstd::string::StringExecFns;

verus! {

/// What `{:?}` prints for a string: the text quoted, with escapes.
pub uninterp spec fn debug_quoted(s: Seq<char>) -> Seq<char>;

/// Relies on the `Debug` impl of `str` (through `format!("{:?}")`): a quoted,
/// escaped rendering that depends on the characters alone.
#[verifier::external_body]
fn quote(s: &str) -> (r: String)
    ensures
        r@ == debug_quoted(s@),
{
    format!("{:?}", s)
}

/// A failure while working with a file: the path, then the I/O error's text.
#[derive(Debug)]
pub enum FileErr {
    Open(String, String),
    Read(String, String),
    Write(String, String),
}

pub open spec fn file_err_text(e: FileErr) -> Seq<char> {
    match e {
        FileErr::Open(p, io) => "unable to open "@ + debug_quoted(p@) + ": "@ + io@,
        FileErr::Read(p, io) => "unable to read "@ + debug_quoted(p@) + ": "@ + io@,
        FileErr::Write(p, io) => "unable to write "@ + debug_quoted(p@) + ": "@ + io@,
    }
}

impl FileErr {
    /// The human-readable description of the failure.
    pub fn describe(&self) -> (r: String)
        ensures
            r@ == file_err_text(*self),
    {
        let (head, path, io) = match self {
            FileErr::Open(p, io) => ("unable to open ", p, io),
            FileErr::Read(p, io) => ("unable to read ", p, io),
            FileErr::Write(p, io) => ("unable to write ", p, io),
        };
        let mut r = String::from_str(head);
        r.append(quote(path.as_str()).as_str());
        r.append(": ");
        r.append(io.as_str());
        r
    }
}


/// The error type of argument parsing. An index refers to the argument list.
#[derive(Debug)]
pub enum ParseErr {
    /// The value of the job delay parameter is not a number.
    DelayNaN(usize),
    /// The job delay parameter was not set.
    DelayNoValue,
    /// An error occurred with accessing the unprocessed file.
    File(FileErr),
    /// The joblog parameter was not set.
    JoblogNoValue,
    /// The jobs number parameter was not a number.
    JobsNaN(String),
    /// The jobs number parameter was not set.
    JobsNoValue,
    /// An invalid argument flag was provided.
    InvalidArgument(usize),
    /// The value for the groups parameter was not a number.
    MaxArgsNaN(usize),
    /// No value was provided for the groups parameter.
    MaxArgsNoValue,
    /// The memfree parameter was invalid.
    MemInvalid(usize),
    /// The memfree parameter was not set.
    MemNoValue,
    /// No arguments were given, so no action can be taken.
    NoArguments,
    /// A command whose quotes are not terminated.
    NonTerminated(String),
    /// Standard input could not be redirected to the given file.
    RedirFile(String),
    /// The timeout parameter was not a number.
    TimeoutNaN(usize),
    /// The timeout parameter was not set.
    TimeoutNoValue,
    /// The workdir parameter was not set.
    WorkDirNoValue,
}

impl From<FileErr> for ParseErr {
    fn from(input: FileErr) -> (r: ParseErr)
        ensures
            r == ParseErr::File(input),
    {
        ParseErr::File(input)
    }
}

impl vstd::std_specs::convert::FromSpecImpl<FileErr> for ParseErr {
    open spec fn obeys_from_spec() -> bool {
        true
    }

    open spec fn from_spec(v: FileErr) -> ParseErr {
        ParseErr::File(v)
    }
}

/// The printed first line of every parsing error.
pub open spec fn parse_err_prefix() -> Seq<char> {
    "parallel: parsing error: "@
}

/// The line printed after a parsing error on standard output.
pub open spec fn usage_hint() -> Seq<char> {
    "For help on command-line usage, execute `parallel -h`\n"@
}

impl ParseErr {
    /// The index into the argument list that the error refers to, if any.
    pub open spec fn arg_index(self) -> Option<usize> {
        match self {
            ParseErr::DelayNaN(i) => Some(i),
            ParseErr::MaxArgsNaN(i) => Some(i),
            ParseErr::MemInvalid(i) => Some(i),
            ParseErr::InvalidArgument(i) => Some(i),
            ParseErr::TimeoutNaN(i) => Some(i),
            _ => None,
        }
    }

    /// Whether the error's index, if it has one, lies in an argument list of
    /// length `len`.
    pub open spec fn fits(self, len: nat) -> bool {
        match self.arg_index() {
            Some(i) => i < len,
            None => true,
        }
    }

    /// The message printed on standard error, after the common prefix.
    pub open spec fn text(self, args: Seq<Seq<char>>) -> Seq<char> {
        match self {
            ParseErr::File(e) => file_err_text(e) + "\n"@,
            ParseErr::DelayNaN(i) => "delay parameter, '"@ + args[i as int] + "', is not a number.\n"@,
            ParseErr::DelayNoValue => "no delay parameter was defined.\n"@,
            ParseErr::JoblogNoValue => "no joblog parameter was defined.\n"@,
            ParseErr::JobsNaN(v) => "jobs parameter, '"@ + v@ + "', is not a number.\n"@,
            ParseErr::JobsNoValue => "no jobs parameter was defined.\n"@,
            ParseErr::MaxArgsNaN(i) => "groups parameter, '"@ + args[i as int] + "', is not a number.\n"@,
            ParseErr::MaxArgsNoValue => "no groups parameter was defined.\n"@,
            ParseErr::MemNoValue => "no memory parameter was defined.\n"@,
            ParseErr::MemInvalid(i) => "invalid memory value: "@ + args[i as int] + "\n"@,
            ParseErr::InvalidArgument(i) => "invalid argument: "@ + args[i as int] + "\n"@,
            ParseErr::NoArguments => "no input arguments were given.\n"@,
            ParseErr::NonTerminated(c) => "command is not properly terminated:\n  $ "@ + c@
                + "\nTip: Try using the --quote parameter to escape your command\n"@,
            ParseErr::RedirFile(p) => "an error occurred while redirecting file: "@ + debug_quoted(p@) + "\n"@,
            ParseErr::TimeoutNaN(i) => "invalid timeout value: "@ + args[i as int] + "\n"@,
            ParseErr::TimeoutNoValue => "no timeout parameter was defined.\n"@,
            ParseErr::WorkDirNoValue => "no workdir parameter was defined.\n"@,
        }
    }

    /// The line written to standard output after any parsing error.
    pub fn usage() -> (r: String)
        ensures
            r@ == usage_hint(),
    {
        String::from_str("For help on command-line usage, execute `parallel -h`\n")
    }

    /// The full text written to standard error for this error: the common
    /// prefix, then the message naming the offending value.
    pub fn message(&self, arguments: &Vec<String>) -> (r: String)
        requires
            self.fits(arguments.len() as nat),
        ensures
            r@ == parse_err_prefix() + self.text(arguments@.map_values(|a: String| a@)),
    {
        let ghost args = arguments@.map_values(|a: String| a@);
        let mut r = String::from_str("parallel: parsing error: ");
        match self {
            ParseErr::File(e) => {
                r.append(e.describe().as_str());
                r.append("\n");
            },
            ParseErr::DelayNaN(i) => {
                r.append("delay parameter, '");
                r.append(arguments[*i].as_str());
                r.append("', is not a number.\n");
            },
            ParseErr::DelayNoValue => r.append("no delay parameter was defined.\n"),
            ParseErr::JoblogNoValue => r.append("no joblog parameter was defined.\n"),
            ParseErr::JobsNaN(v) => {
                r.append("jobs parameter, '");
                r.append(v.as_str());
                r.append("', is not a number.\n");
            },
            ParseErr::JobsNoValue => r.append("no jobs parameter was defined.\n"),
            ParseErr::MaxArgsNaN(i) => {
                r.append("groups parameter, '");
                r.append(arguments[*i].as_str());
                r.append("', is not a number.\n");
            },
            ParseErr::MaxArgsNoValue => r.append("no groups parameter was defined.\n"),
            ParseErr::MemNoValue => r.append("no memory parameter was defined.\n"),
            ParseErr::MemInvalid(i) => {
                r.append("invalid memory value: ");
                r.append(arguments[*i].as_str());
                r.append("\n");
            },
            ParseErr::InvalidArgument(i) => {
                r.append("invalid argument: ");
                r.append(arguments[*i].as_str());
                r.append("\n");
            },
            ParseErr::NoArguments => r.append("no input arguments were given.\n"),
            ParseErr::NonTerminated(c) => {
                r.append("command is not properly terminated:\n  $ ");
                r.append(c.as_str());
                r.append("\nTip: Try using the --quote parameter to escape your command\n");
            },
            ParseErr::RedirFile(p) => {
                r.append("an error occurred while redirecting file: ");
                r.append(quote(p.as_str()).as_str());
                r.append("\n");
            },
            ParseErr::TimeoutNaN(i) => {
                r.append("invalid timeout value: ");
                r.append(arguments[*i].as_str());
                r.append("\n");
            },
            ParseErr::TimeoutNoValue => r.append("no timeout parameter was defined.\n"),
            ParseErr::WorkDirNoValue => r.append("no workdir parameter was defined.\n"),
        }
        proof {
            assert(r@ =~= parse_err_prefix() + self.text(args));
        }
        r
    }
}

} // verus!
