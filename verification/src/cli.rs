//! The command-line surface of the tool, as plain data: which command to
//! run and with what options. Argument parsing itself is an outside
//! concern; these types carry its outcome.

use vstd::prelude::*;

use vstd::string::StrSliceExecFns;
use vstd::string::StringExecFns;

verus! {

/// The whole invocation.
#[derive(Debug)]
pub struct Cli {
    pub command: Command,
}

/// One of the tool's commands.
#[derive(Debug)]
pub enum Command {
    /// Search for a pattern within the paths a team owns.
    Find(FindCommand),
    /// Report which team owns each given file or directory.
    Lookup(LookupCommand),
    /// Report the files owned by no team at all.
    Orphans(OrphanCommand),
    /// Print the version of the tool.
    Version,
}

/// Options of the find command.
#[derive(Debug)]
pub struct FindCommand {
    /// Files or directories to check.
    pub files: Vec<String>,
    /// Whether standard ignore files suppress entries during the walk.
    pub respect_gitignore: bool,
    /// Path of the manifest file.
    pub codeowners: String,
    /// The teams whose paths bound the search.
    pub teams: Vec<String>,
    /// Paths excluded from the search.
    pub exclude: Vec<String>,
    /// The pattern to look for.
    pub pattern: String,
    /// Whether matching ignores letter case.
    pub case_insensitive: bool,
    /// Report only the number of matches per file.
    pub count: bool,
    /// Render the results as JSON.
    pub json: bool,
}

/// Options of the lookup command.
#[derive(Debug)]
pub struct LookupCommand {
    /// Files or directories whose owners are asked for.
    pub files: Vec<String>,
    /// Path of the manifest file.
    pub codeowners: String,
    /// Render the results as JSON.
    pub json: bool,
}

/// Options of the orphans command.
#[derive(Debug)]
pub struct OrphanCommand {
    /// Files or directories to check.
    pub files: Vec<String>,
    /// Path of the manifest file.
    pub codeowners: String,
    /// Paths excluded from the check.
    pub exclude: Vec<String>,
    /// Render the results as JSON.
    pub json: bool,
}

/// A team name as given on the command line, normalized to carry the `@`
/// sigil. Never fails; the `Result` shape matches what argument parsers
/// expect of a value parser.
pub fn parse_team_name(raw_team: &str) -> (r: Result<String, String>)
    ensures
        r is Ok,
        (raw_team@.len() > 0 && raw_team@[0] == '@') ==> (r matches Ok(t) && t@ == raw_team@),
        !(raw_team@.len() > 0 && raw_team@[0] == '@') ==> (r matches Ok(t) && t@ == seq!['@']
            + raw_team@),
{
    let len = raw_team.unicode_len();
    if len > 0 && raw_team.get_char(0) == '@' {
        Ok(raw_team.to_owned())
    } else {
        proof {
            reveal_strlit("@");
            assert("@"@ =~= seq!['@']);
        }
        let mut s = "@".to_owned();
        s.append(raw_team);
        Ok(s)
    }
}

/// The files an invocation works on when none are given: standard input's
/// marker under stdin mode, the current directory otherwise.
pub fn resolve_default_files(files: Vec<String>, is_stdin: bool) -> (r: Vec<String>)
    ensures
        files@.len() == 0 && is_stdin ==> r@.len() == 1 && r@[0]@ == "-"@,
        files@.len() == 0 && !is_stdin ==> r@.len() == 1 && r@[0]@ == "."@,
        files@.len() > 0 ==> r@ == files@,
{
    if files.len() == 0 {
        let mut r: Vec<String> = Vec::new();
        if is_stdin {
            r.push("-".to_owned());
        } else {
            r.push(".".to_owned());
        }
        r
    } else {
        files
    }
}

} // verus!
