//! Retrieval over the vault: the ripgrep search that answers a question and the
//! obsidian link crawl around a note, and the reports made from what they print.
use vstd::prelude::*;
use crate::text::{copy_text, push_text, texts};

verus! {

/// The search program.
pub const RIPGREP: &'static str = "rg";

/// The obsidian command line program.
pub const OBSIDIAN: &'static str = "obsidian";

/// How a command that was asked to run ended.
pub enum CommandOutcome {
    /// The command could not be started; the text says why.
    NotRun(String),
    /// The command ran: whether its status was success, its exit code if it
    /// has one, and what it printed (as text).
    Finished { success: bool, code: Option<i32>, stdout: String, stderr: String },
}

/// The report of a vault search.
pub open spec fn search_report_text(outcome: CommandOutcome) -> Seq<char> {
    match outcome {
        CommandOutcome::NotRun(e) => "Failed to execute ripgrep command: "@ + e@,
        CommandOutcome::Finished { success, code, stdout, stderr } => {
            if success {
                stdout@
            } else if stderr@.len() == 0 && code == Some(1i32) {
                "No matches found."@
            } else {
                "Error running ripgrep: "@ + stderr@
            }
        },
    }
}

/// One section of a crawl report: what the command printed, or a note.
pub open spec fn crawl_section(outcome: CommandOutcome, failed: Seq<char>, empty: Seq<char>) -> Seq<
    char,
> {
    match outcome {
        CommandOutcome::NotRun(_) => failed,
        CommandOutcome::Finished { success, stdout, .. } => if success {
            stdout@
        } else {
            empty
        },
    }
}

/// The report of a link crawl: the backlinks, then the outgoing links.
pub open spec fn crawl_report_text(backlinks: CommandOutcome, links: CommandOutcome) -> Seq<char> {
    "=== Backlinks ===\n"@ + crawl_section(
        backlinks,
        "Failed to execute obsidian CLI for backlinks.\n"@,
        "No backlinks found or error retrieving them.\n"@,
    ) + "\n=== Outgoing Links ===\n"@ + crawl_section(
        links,
        "Failed to execute obsidian CLI for outgoing links.\n"@,
        "No outgoing links found or error retrieving them.\n"@,
    )
}

/// The arguments of the ripgrep search for `query` in the vault: case
/// insensitive, two lines of context, at most five matches per file, and `--`
/// before the query so that it is never taken for a flag.
pub fn ripgrep_args(query: &str, vault_path: &str) -> (r: Vec<String>)
    ensures
        texts(r@) == seq![
            "-i"@,
            "-C"@,
            "2"@,
            "-m"@,
            "5"@,
            "--"@,
            query@,
            vault_path@,
        ],
{
    let r = vec![
        copy_text("-i"),
        copy_text("-C"),
        copy_text("2"),
        copy_text("-m"),
        copy_text("5"),
        copy_text("--"),
        copy_text(query),
        copy_text(vault_path),
    ];
    assert(texts(r@) =~= seq![
        "-i"@,
        "-C"@,
        "2"@,
        "-m"@,
        "5"@,
        "--"@,
        query@,
        vault_path@,
    ]);
    r
}

/// The report of a vault search: what ripgrep printed; a note when nothing
/// matched (exit code 1 with nothing on stderr); the error otherwise.
pub fn search_report(outcome: &CommandOutcome) -> (r: String)
    ensures
        r@ == search_report_text(*outcome),
{
    match outcome {
        CommandOutcome::NotRun(e) => {
            let mut s = copy_text("Failed to execute ripgrep command: ");
            push_text(&mut s, e.as_str());
            s
        },
        CommandOutcome::Finished { success, code, stdout, stderr } => {
            if *success {
                copy_text(stdout.as_str())
            } else if stderr.as_str().is_empty() && matches!(code, Some(1i32)) {
                copy_text("No matches found.")
            } else {
                let mut s = copy_text("Error running ripgrep: ");
                push_text(&mut s, stderr.as_str());
                s
            }
        },
    }
}

/// The arguments of an obsidian command about the note `file_name`.
pub fn obsidian_args(subcommand: &str, file_name: &str) -> (r: Vec<String>)
    ensures
        texts(r@) == seq![subcommand@, "file="@ + file_name@],
{
    let mut arg = copy_text("file=");
    push_text(&mut arg, file_name);
    let r = vec![copy_text(subcommand), arg];
    assert(texts(r@) =~= seq![subcommand@, "file="@ + file_name@]);
    r
}

fn crawl_section_of(outcome: &CommandOutcome, failed: &str, empty: &str) -> (r: String)
    ensures
        r@ == crawl_section(*outcome, failed@, empty@),
{
    match outcome {
        CommandOutcome::NotRun(_) => copy_text(failed),
        CommandOutcome::Finished { success, stdout, .. } => if *success {
            copy_text(stdout.as_str())
        } else {
            copy_text(empty)
        },
    }
}

/// The report of a link crawl around a note, from the outcomes of the
/// `backlinks` and `links` commands.
pub fn crawl_report(backlinks: &CommandOutcome, links: &CommandOutcome) -> (r: String)
    ensures
        r@ == crawl_report_text(*backlinks, *links),
{
    let mut s = copy_text("=== Backlinks ===\n");
    let first = crawl_section_of(
        backlinks,
        "Failed to execute obsidian CLI for backlinks.\n",
        "No backlinks found or error retrieving them.\n",
    );
    push_text(&mut s, first.as_str());
    push_text(&mut s, "\n=== Outgoing Links ===\n");
    let second = crawl_section_of(
        links,
        "Failed to execute obsidian CLI for outgoing links.\n",
        "No outgoing links found or error retrieving them.\n",
    );
    push_text(&mut s, second.as_str());
    s
}

} // verus!
