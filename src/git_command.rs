pub mod error;
pub use error::Error;

use vstd::prelude::*;
use vstd::string::StringExecFns;
use vstd::utf8::{decode_utf8, valid_utf8};

verus! {

/// The name of the external version-control tool.
pub const GIT_PROGRAM: &'static str = "git";

/// One run of the external tool, described as plain values: the program, its
/// positional arguments, the text for its standard input, and the directory to
/// run it in.
#[derive(Debug)]
pub struct Invocation {
    pub program: String,
    pub args: Vec<String>,
    pub input: Option<String>,
    pub current_dir: Option<String>,
}

/// How a run of the external tool ended: whether its exit status was success,
/// and all it wrote to standard output and standard error.
#[derive(Debug)]
pub struct ProcessOutput {
    pub success: bool,
    pub stdout: Vec<u8>,
    pub stderr: Vec<u8>,
}

pub struct GitCommand {}

/// The text of each string of a list.
pub open spec fn str_texts(v: Seq<&str>) -> Seq<Seq<char>> {
    v.map_values(|s: &str| s@)
}

/// The text of each string of a list.
pub open spec fn string_texts(v: Seq<String>) -> Seq<Seq<char>> {
    v.map_values(|s: String| s@)
}

/// The full argument list: the subcommand first, then the extra arguments in order.
pub open spec fn git_args_of(command: Seq<char>, args: Option<Vec<&str>>) -> Seq<Seq<char>> {
    match args {
        Some(a) => seq![command] + str_texts(a@),
        None => seq![command],
    }
}

/// What goes to the standard input: the payload and one newline, if there is a payload.
pub open spec fn input_of(payload: Option<Seq<char>>) -> Option<Seq<char>> {
    match payload {
        Some(p) => Some(p.push('\n')),
        None => None,
    }
}

/// Whether a run succeeded with output that decodes as UTF-8.
pub open spec fn ran_ok(o: ProcessOutput) -> bool {
    o.success && valid_utf8(o.stdout@)
}

/// The error message of a run that did not end well: for a failed run whose diagnostic
/// is UTF-8, that diagnostic verbatim; otherwise std's decoding error, which is not
/// stated here.
pub open spec fn run_error(o: ProcessOutput, message: Seq<char>) -> bool {
    &&& !ran_ok(o)
    &&& (!o.success && valid_utf8(o.stderr@) ==> message == decode_utf8(o.stderr@))
}

/// Relies on std::str::from_utf8: it succeeds exactly on valid UTF-8, with the text
/// that the bytes encode; the error's text is std's own.
#[verifier::external_body]
fn text_from_utf8(bytes: &Vec<u8>) -> (r: Result<String, String>)
    ensures
        match r {
            Ok(text) => valid_utf8(bytes@) && text@ == decode_utf8(bytes@),
            Err(_) => !valid_utf8(bytes@),
        },
{
    match std::str::from_utf8(bytes.as_slice()) {
        Ok(text) => Ok(text.to_owned()),
        Err(error) => Err(error.to_string()),
    }
}

impl GitCommand {
    /// The argument list of a run: the subcommand, then the extra arguments in order.
    pub fn git_args(command: &str, args: Option<Vec<&str>>) -> (r: Vec<String>)
        ensures
            string_texts(r@) == git_args_of(command@, args),
    {
        let mut out: Vec<String> = Vec::new();
        out.push(command.to_owned());
        match args {
            Some(extra) => {
                let mut i: usize = 0;
                while i < extra.len()
                    invariant
                        i <= extra@.len(),
                        string_texts(out@) == seq![command@] + str_texts(extra@.take(i as int)),
                    decreases extra@.len() - i,
                {
                    let ghost before = out@;
                    out.push(extra[i].to_owned());
                    proof {
                        assert(extra@.take(i + 1) =~= extra@.take(i as int).push(extra@[i as int]));
                        assert(string_texts(out@) =~= string_texts(before).push(extra@[i as int]@));
                        assert(str_texts(extra@.take(i + 1)) =~= str_texts(extra@.take(i as int)).push(extra@[i as int]@));
                    }
                    i = i + 1;
                }
                assert(extra@.take(extra@.len() as int) =~= extra@);
            },
            None => {
                assert(string_texts(out@) =~= seq![command@]);
            },
        }
        out
    }

    /// The text written to the standard input for a payload: the payload and one newline.
    pub fn stdin_text(payload: &str) -> (r: String)
        ensures
            r@ == payload@.push('\n'),
    {
        let mut text = String::from_str(payload);
        text.append("\n");
        proof {
            reveal_strlit("\n");
            assert(text@ =~= payload@.push('\n'));
        }
        text
    }

    /// The run of `git` with the subcommand, the extra arguments, the payload's text on
    /// standard input, and the directory to run in.
    pub fn invocation(
        git_command: &str,
        args: Option<Vec<&str>>,
        payload: Option<String>,
        current_dir: Option<&str>,
    ) -> (r: Invocation)
        ensures
            r.program@ == GIT_PROGRAM@,
            string_texts(r.args@) == git_args_of(git_command@, args),
            r.input.deep_view() == input_of(payload.deep_view()),
            r.current_dir.deep_view() == current_dir.deep_view(),
    {
        let input = match payload {
            Some(p) => Some(GitCommand::stdin_text(p.as_str())),
            None => None,
        };
        let dir = match current_dir {
            Some(d) => Some(d.to_owned()),
            None => None,
        };
        Invocation {
            program: GIT_PROGRAM.to_owned(),
            args: GitCommand::git_args(git_command, args),
            input,
            current_dir: dir,
        }
    }

    /// What a finished run reports: on success its standard output as text; on failure
    /// its standard error's text as the error. Bytes that are not UTF-8 are an error.
    pub fn git_command(output: &ProcessOutput) -> (r: Result<String, Error>)
        ensures
            match r {
                Ok(text) => ran_ok(*output) && text@ == decode_utf8(output.stdout@),
                Err(e) => run_error(*output, e@),
            },
    {
        if output.success {
            match text_from_utf8(&output.stdout) {
                Ok(text) => Ok(text),
                Err(message) => Err(Error::new(message)),
            }
        } else {
            match text_from_utf8(&output.stderr) {
                Ok(text) => Err(Error::new(text)),
                Err(message) => Err(Error::new(message)),
            }
        }
    }
}

} // verus!
