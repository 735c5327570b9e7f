//! Repository introspection and the credential-helper protocol of the `git` tool,
//! as plain values: each operation describes the run it needs as an [`Invocation`],
//! and reads the [`ProcessOutput`] of that run into its result. Running the tool is
//! left to the caller.

pub mod credentials;
pub mod git_command;

pub use crate::credentials::Credentials;
pub use crate::git_command::{Error, GitCommand, Invocation, ProcessOutput};

use crate::credentials::{credentials_of_text, credentials_text, empty_record, CredentialsView};
use crate::git_command::{input_of, ran_ok, run_error, str_texts, string_texts};
use vstd::prelude::*;
use vstd::utf8::decode_utf8;

verus! {

/// A text without its one trailing newline, if it ends in one.
pub open spec fn without_trailing_newline(t: Seq<char>) -> Seq<char> {
    if t.len() > 0 && t.last() == '\n' {
        t.drop_last()
    } else {
        t
    }
}

/// Drops one trailing newline.
fn trim_newline(text: String) -> (r: String)
    ensures
        r@ == without_trailing_newline(text@),
{
    let n = text.as_str().unicode_len();
    if n > 0 && text.as_str().get_char(n - 1) == '\n' {
        text.as_str().substring_char(0, n - 1).to_owned()
    } else {
        text
    }
}

pub struct GitLib {}

impl GitLib {
    /// The run that adds the remote `repo` with `url` to the repository at `path`.
    pub fn remote_add_invocation(repo: &str, url: &str, path: Option<&str>) -> (r: Invocation)
        ensures
            string_texts(r.args@) == str_texts(seq!["remote", "add", repo, url]),
            r.input is None,
            r.current_dir.deep_view() == path.deep_view(),
    {
        let args = vec!["add", repo, url];
        let ghost extra = args@;
        let r = GitCommand::invocation("remote", Some(args), None, path);
        assert(seq!["remote"@] + str_texts(extra) =~= str_texts(seq!["remote", "add", repo, url]));
        r
    }

    /// Adding a remote succeeds when its run does.
    pub fn remote_add(output: &ProcessOutput) -> (r: Result<(), Error>)
        ensures
            match r {
                Ok(()) => ran_ok(*output),
                Err(e) => run_error(*output, e@),
            },
    {
        let _ = GitCommand::git_command(output)?;
        Ok(())
    }

    /// The run that asks for the first URL of the remote `repo` of the repository at `path`.
    pub fn remote_url_invocation(repo: &str, path: Option<&str>) -> (r: Invocation)
        ensures
            string_texts(r.args@) == str_texts(seq!["remote", "get-url", repo]),
            r.input is None,
            r.current_dir.deep_view() == path.deep_view(),
    {
        let args = vec!["get-url", repo];
        let ghost extra = args@;
        let r = GitCommand::invocation("remote", Some(args), None, path);
        assert(seq!["remote"@] + str_texts(extra) =~= str_texts(seq!["remote", "get-url", repo]));
        r
    }

    /// The remote's URL: the run's output without its trailing newline.
    pub fn remote_url(output: &ProcessOutput) -> (r: Result<String, Error>)
        ensures
            match r {
                Ok(url) => ran_ok(*output) && url@ == without_trailing_newline(
                    decode_utf8(output.stdout@),
                ),
                Err(e) => run_error(*output, e@),
            },
    {
        let text = GitCommand::git_command(output)?;
        Ok(trim_newline(text))
    }

    /// The run that asks whether `path` lies inside a work tree.
    pub fn is_inside_work_tree_invocation(path: Option<&str>) -> (r: Invocation)
        ensures
            string_texts(r.args@) == str_texts(seq!["rev-parse", "--is-inside-work-tree"]),
            r.input is None,
            r.current_dir.deep_view() == path.deep_view(),
    {
        let args = vec!["--is-inside-work-tree"];
        let ghost extra = args@;
        let r = GitCommand::invocation("rev-parse", Some(args), None, path);
        assert(seq!["rev-parse"@] + str_texts(extra) =~= str_texts(
            seq!["rev-parse", "--is-inside-work-tree"],
        ));
        r
    }

    /// Inside a work tree: the tool answers only there, and fails elsewhere.
    pub fn is_inside_work_tree(output: &ProcessOutput) -> (r: Result<bool, Error>)
        ensures
            match r {
                Ok(inside) => ran_ok(*output) && inside,
                Err(e) => run_error(*output, e@),
            },
    {
        let _ = GitCommand::git_command(output)?;
        Ok(true)
    }

    /// The run that asks for the top level of the work tree that holds `path`.
    pub fn top_level_invocation(path: Option<&str>) -> (r: Invocation)
        ensures
            string_texts(r.args@) == str_texts(seq!["rev-parse", "--show-toplevel"]),
            r.input is None,
            r.current_dir.deep_view() == path.deep_view(),
    {
        let args = vec!["--show-toplevel"];
        let ghost extra = args@;
        let r = GitCommand::invocation("rev-parse", Some(args), None, path);
        assert(seq!["rev-parse"@] + str_texts(extra) =~= str_texts(
            seq!["rev-parse", "--show-toplevel"],
        ));
        r
    }

    /// The top-level directory: the run's output without its trailing newline. Any such
    /// text is a path.
    pub fn top_level(output: &ProcessOutput) -> (r: Result<String, Error>)
        ensures
            match r {
                Ok(dir) => ran_ok(*output) && dir@ == without_trailing_newline(
                    decode_utf8(output.stdout@),
                ),
                Err(e) => run_error(*output, e@),
            },
    {
        let text = GitCommand::git_command(output)?;
        Ok(trim_newline(text))
    }

    /// The run of a credential action on a record: the record's text on standard input.
    fn credential_invocation(action: &str, credentials: &Credentials) -> (r: Invocation)
        ensures
            string_texts(r.args@) == str_texts(seq!["credential", action]),
            r.input.deep_view() == Some(credentials_text(credentials@).push('\n')),
            r.current_dir is None,
    {
        let args = vec![action];
        let ghost extra = args@;
        let r = GitCommand::invocation("credential", Some(args), Some(credentials.to_string()), None);
        assert(seq!["credential"@] + str_texts(extra) =~= str_texts(seq!["credential", action]));
        r
    }

    /// The run that asks the credential helpers to fill in the record for `url`.
    pub fn credentials_fill_invocation(url: &str) -> (r: Invocation)
        ensures
            string_texts(r.args@) == str_texts(seq!["credential", "fill"]),
            r.input.deep_view() == Some(credentials_text(
                CredentialsView { url: Some(url@), ..empty_record() },
            ).push('\n')),
            r.current_dir is None,
    {
        let credentials = Credentials::with_url(url);
        GitLib::credential_invocation("fill", &credentials)
    }

    /// The filled-in record: read from the run's output.
    pub fn credentials_fill(output: &ProcessOutput) -> (r: Result<Credentials, Error>)
        ensures
            match r {
                Ok(c) => ran_ok(*output) && c@ == credentials_of_text(decode_utf8(output.stdout@)),
                Err(e) => run_error(*output, e@),
            },
    {
        let text = GitCommand::git_command(output)?;
        Ok(Credentials::parse(text.as_str()))
    }

    /// The run that tells the credential helpers that `credentials` were accepted.
    pub fn credentials_approve_invocation(credentials: &Credentials) -> (r: Invocation)
        ensures
            string_texts(r.args@) == str_texts(seq!["credential", "approve"]),
            r.input.deep_view() == Some(credentials_text(credentials@).push('\n')),
            r.current_dir is None,
    {
        GitLib::credential_invocation("approve", credentials)
    }

    /// Approving succeeds when its run does.
    pub fn credentials_approve(output: &ProcessOutput) -> (r: Result<(), Error>)
        ensures
            match r {
                Ok(()) => ran_ok(*output),
                Err(e) => run_error(*output, e@),
            },
    {
        let _ = GitCommand::git_command(output)?;
        Ok(())
    }

    /// The run that tells the credential helpers that `credentials` were rejected.
    pub fn credentials_reject_invocation(credentials: &Credentials) -> (r: Invocation)
        ensures
            string_texts(r.args@) == str_texts(seq!["credential", "reject"]),
            r.input.deep_view() == Some(credentials_text(credentials@).push('\n')),
            r.current_dir is None,
    {
        GitLib::credential_invocation("reject", credentials)
    }

    /// Rejecting succeeds when its run does.
    pub fn credentials_reject(output: &ProcessOutput) -> (r: Result<(), Error>)
        ensures
            match r {
                Ok(()) => ran_ok(*output),
                Err(e) => run_error(*output, e@),
            },
    {
        let _ = GitCommand::git_command(output)?;
        Ok(())
    }
}

} // verus!
