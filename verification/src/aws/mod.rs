//! What the `aws` command line tool is asked, and how its answers are read.

pub mod discovery;
pub mod profiles;
pub mod rds;
pub mod sso;

use vstd::prelude::*;

use crate::json;
use crate::json::Json;
use crate::text;

verus! {

/// How a run of the `aws` tool ended.
#[derive(Debug)]
pub enum CliOutput {
    /// The tool could not be run.
    NotRun,
    /// The tool ran and exited.
    Exited { success: bool, stdout: Vec<u8>, stderr: Vec<u8> },
}

/// The text that `String::from_utf8_lossy` makes of bytes.
pub uninterp spec fn lossy_text(bytes: Seq<u8>) -> Seq<char>;

/// `String::from_utf8_lossy`, a function of the bytes alone. Bytes that are
/// valid UTF-8 come out as the text that they encode.
#[verifier::external_body]
fn from_utf8_lossy(bytes: &[u8]) -> (r: String)
    ensures
        r@ == lossy_text(bytes@),
        vstd::utf8::valid_utf8(bytes@) ==> vstd::utf8::encode_utf8(r@) == bytes@,
{
    String::from_utf8_lossy(bytes).into_owned()
}

/// The last line of a text that is not blank, trimmed; empty where there is none.
pub open spec fn meaningful_line(stderr: Seq<char>) -> Seq<char> {
    match text::last_text(text::line_seq(stderr)) {
        Some(line) => text::trimmed(line),
        None => Seq::empty(),
    }
}

/// AWS errors are often multi-line; picks the most informative single line.
pub fn first_meaningful_line(stderr: &str) -> (r: String)
    ensures
        r@ == meaningful_line(stderr@),
{
    let lines = text::lines(stderr);
    match text::last_nonblank(&lines) {
        Some(line) => text::trim(line.as_str()),
        None => String::new(),
    }
}

/// The arguments of a call: the subcommand, then region, profile and format.
pub open spec fn call_args(
    profile: Seq<char>,
    region: Seq<char>,
    args: Seq<Seq<char>>,
) -> Seq<Seq<char>> {
    args + seq!["--region"@, region, "--profile"@, profile, "--output"@, "json"@]
}

/// The arguments with which `aws` runs the subcommand `args`.
pub fn command_line(profile: &str, region: &str, args: &Vec<String>) -> (r: Vec<String>)
    ensures
        text::views(r@) == call_args(profile@, region@, text::views(args@)),
{
    let mut r: Vec<String> = Vec::new();
    for i in 0..args.len()
        invariant
            text::views(r@) =~= text::views(args@).take(i as int),
    {
        let ghost before = text::views(r@);
        r.push(args[i].clone());
        assert(text::views(r@) =~= before.push(args@[i as int]@));
        assert(text::views(args@).take(i + 1) =~= text::views(args@).take(i as int).push(
            args@[i as int]@,
        ));
    }
    let ghost head = text::views(r@);
    assert(head =~= text::views(args@));
    r.push("--region".to_string());
    r.push(region.to_owned());
    r.push("--profile".to_string());
    r.push(profile.to_owned());
    r.push("--output".to_string());
    r.push("json".to_string());
    assert(text::views(r@) =~= head.push("--region"@).push(region@).push("--profile"@).push(
        profile@,
    ).push("--output"@).push("json"@));
    r
}

/// The message for a run that failed with the given standard error.
pub open spec fn failure_text(args: Seq<Seq<char>>, stderr: Seq<char>) -> Seq<char> {
    "aws "@ + text::joined(args, " "@) + ": "@ + meaningful_line(stderr)
}

/// The message for a run that failed with the given standard error.
pub fn failure_message(args: &Vec<String>, stderr: &str) -> (r: String)
    ensures
        r@ == failure_text(text::views(args@), stderr@),
{
    let mut r = "aws ".to_string();
    r.append(text::join(args, " ").as_str());
    r.append(": ");
    r.append(first_meaningful_line(stderr).as_str());
    r
}

/// What a run of the tool with the subcommand `args` answered.
pub open spec fn reply(args: Seq<Seq<char>>, out: CliOutput) -> Result<
    json::JsonView,
    Seq<char>,
> {
    match out {
        CliOutput::NotRun => Err("failed to run the `aws` CLI — is it installed and on PATH?"@),
        CliOutput::Exited { success, stdout, stderr } => if !success {
            Err(failure_text(args, lossy_text(stderr@)))
        } else {
            match json::bytes_document(stdout@) {
                Some(j) => Ok(j),
                None => Err("aws returned output that was not valid JSON"@),
            }
        },
    }
}

/// The answer of a run with the subcommand `args`: the document on its standard
/// output, or the reason why there is none. Of a run that failed the reason is
/// taken from the text on standard error, where that is valid UTF-8.
pub fn run_json(args: &Vec<String>, out: &CliOutput) -> (r: Result<Json, String>)
    ensures
        match r {
            Ok(j) => reply(text::views(args@), *out) == Ok::<json::JsonView, Seq<char>>(j@),
            Err(e) => reply(text::views(args@), *out) == Err::<json::JsonView, Seq<char>>(e@),
        },
        match *out {
            CliOutput::Exited { success: false, stdout: _, stderr } => vstd::utf8::valid_utf8(
                stderr@,
            ) ==> r is Err && r->Err_0@ == failure_text(
                text::views(args@),
                vstd::utf8::decode_utf8(stderr@),
            ),
            _ => true,
        },
{
    match out {
        CliOutput::NotRun => Err(
            "failed to run the `aws` CLI — is it installed and on PATH?".to_string(),
        ),
        CliOutput::Exited { success, stdout, stderr } => {
            if !*success {
                let stderr = from_utf8_lossy(stderr.as_slice());
                proof {
                    vstd::utf8::encode_utf8_decode_utf8(stderr@);
                }
                return Err(failure_message(args, stderr.as_str()));
            }
            match Json::from_bytes(stdout.as_slice()) {
                Some(j) => Ok(j),
                None => Err("aws returned output that was not valid JSON".to_string()),
            }
        },
    }
}

} // verus!
