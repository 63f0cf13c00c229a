//! Fetching a WASM from the network, which the `stellar` program does.

use vstd::prelude::*;

use crate::error::Error;
use crate::text::{texts, trim, trimmed};

verus! {

/// A flag and its value, where there is one.
pub open spec fn flag(name: Seq<char>, value: Option<Seq<char>>) -> Seq<Seq<char>> {
    match value {
        Some(value) => seq![name, value],
        None => Seq::empty(),
    }
}

/// The contents of an optional text.
pub open spec fn opt_str(s: Option<&str>) -> Option<Seq<char>> {
    match s {
        Some(s) => Some(s@),
        None => None,
    }
}

/// The command that fetches a WASM.
pub open spec fn fetch_command(
    id: Option<Seq<char>>,
    wasm_hash: Option<Seq<char>>,
    network: Option<Seq<char>>,
) -> Seq<Seq<char>> {
    seq!["stellar"@, "contract"@, "fetch"@] + flag("--id"@, id) + flag("--wasm-hash"@, wasm_hash)
        + flag("--network"@, network)
}

fn push_flag(argv: &mut Vec<String>, name: &str, value: Option<&str>)
    ensures
        texts(final(argv)@) == texts(old(argv)@) + flag(name@, opt_str(value)),
{
    let ghost before = texts(argv@);
    if let Some(value) = value {
        argv.push(name.to_string());
        argv.push(value.to_string());
        assert(texts(argv@) =~= before + seq![name@, value@]);
    } else {
        assert(texts(argv@) =~= before + Seq::<Seq<char>>::empty());
    }
}

/// The command that fetches a WASM by its contract's id or by its hash, and
/// writes it to its standard output. Without a network, the CLI's own default
/// applies.
pub fn fetch_wasm(id: Option<&str>, wasm_hash: Option<&str>, network: Option<&str>) -> (argv: Vec<
    String,
>)
    ensures
        texts(argv@) == fetch_command(opt_str(id), opt_str(wasm_hash), opt_str(network)),
{
    let mut argv: Vec<String> = Vec::new();
    argv.push("stellar".to_string());
    argv.push("contract".to_string());
    argv.push("fetch".to_string());
    assert(texts(argv@) =~= seq!["stellar"@, "contract"@, "fetch"@]);
    push_flag(&mut argv, "--id", id);
    push_flag(&mut argv, "--wasm-hash", wasm_hash);
    push_flag(&mut argv, "--network", network);
    argv
}

/// What the command that fetches a WASM left behind: whether it succeeded, its
/// standard output and, as text, its standard error.
pub struct FetchOutput {
    pub success: bool,
    pub stdout: Vec<u8>,
    pub stderr: String,
}

/// The WASM that the command has fetched. Where the command could not be run,
/// `output` says why.
pub fn fetched_wasm(output: Result<FetchOutput, String>) -> (r: Result<Vec<u8>, Error>)
    ensures
        match output {
            Ok(o) => if o.success {
                r == Ok::<Vec<u8>, Error>(o.stdout)
            } else {
                r matches Err(e) && e@ == (Error::FetchFailed { stderr: trimmed(o.stderr@) })
            },
            Err(source) => r matches Err(e) && e@ == Error::StellarInvoke(source@),
        },
{
    match output {
        Ok(output) => {
            if output.success {
                Ok(output.stdout)
            } else {
                Err(Error::FetchFailed { stderr: trim(output.stderr.as_str()) })
            }
        },
        Err(source) => Err(Error::StellarInvoke(source)),
    }
}

/// The command that fetches a WASM is `stellar contract fetch` with a flag for
/// each value that is there, and each flag depends on its own value alone. A
/// network that is given ends the command, however the WASM is named; without one
/// the command holds no `--network`.
pub proof fn law_fetch_command(
    id: Option<Seq<char>>,
    wasm_hash: Option<Seq<char>>,
    network: Option<Seq<char>>,
    value: Seq<char>,
)
    ensures
        fetch_command(None, None, None) == seq!["stellar"@, "contract"@, "fetch"@],
        fetch_command(Some(value), None, None) == fetch_command(None, None, None) + seq![
            "--id"@,
            value,
        ],
        fetch_command(id, Some(value), None) == fetch_command(id, None, None) + seq![
            "--wasm-hash"@,
            value,
        ],
        fetch_command(id, wasm_hash, Some(value)) == fetch_command(id, wasm_hash, None) + seq![
            "--network"@,
            value,
        ],
        network is None && id != Some("--network"@) && wasm_hash != Some("--network"@)
            ==> !fetch_command(id, wasm_hash, network).contains("--network"@),
{
    reveal_strlit("stellar");
    reveal_strlit("contract");
    reveal_strlit("fetch");
    reveal_strlit("--id");
    reveal_strlit("--wasm-hash");
    reveal_strlit("--network");
    assert("--network"@.len() == 9);
    assert("--network"@ != "--wasm-hash"@);
    let base = fetch_command(None, None, None);
    assert(base =~= seq!["stellar"@, "contract"@, "fetch"@]);
    assert(fetch_command(Some(value), None, None) =~= base + seq!["--id"@, value]);
    assert(fetch_command(id, Some(value), None) =~= fetch_command(id, None, None) + seq![
        "--wasm-hash"@,
        value,
    ]);
    assert(fetch_command(id, wasm_hash, Some(value)) =~= fetch_command(id, wasm_hash, None)
        + seq!["--network"@, value]);
}

/// The command that fetches a WASM ends with the network that is given, whether
/// the WASM is named by its contract's id or by its hash.
pub proof fn law_network_is_passed_on(
    id: Option<Seq<char>>,
    wasm_hash: Option<Seq<char>>,
    network: Seq<char>,
)
    ensures
        ({
            let command = fetch_command(id, wasm_hash, Some(network));
            let n = command.len() as int;
            &&& n >= 5
            &&& command[n - 2] == "--network"@
            &&& command[n - 1] == network
        }),
{
}

/// A flag stands before its value, whatever both are; without a value there is
/// neither.
pub proof fn law_flag(name: Seq<char>, value: Seq<char>)
    ensures
        flag(name, Some(value)) == seq![name, value],
        flag(name, None) == Seq::<Seq<char>>::empty(),
{
}

/// The contents of an optional text are those of the text.
pub proof fn law_contents_of_an_option(text: &str)
    ensures
        opt_str(Some(text)) == Some(text@),
        opt_str(None) is None,
{
}

} // verus!
