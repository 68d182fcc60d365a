//! The pure side of the inference call: the exact prompt sent for a change
//! set, and the fixed message used when no API answer can be had. The HTTP
//! call itself lives outside the library.

use vstd::prelude::*;

verus! {

/// The prompt sent for a change set: the instruction, the file names, and
/// the compressed summary.
pub open spec fn prompt_spec(file_names: Seq<char>, compressed: Seq<char>) -> Seq<char> {
    "reply only with a very concise but informative commit message, and nothing else:\n\nFiles:\n"@
        + file_names + "\n\nSummaryJSON:"@ + compressed
}

/// Builds the prompt for the inference call from the file-name list and
/// the compressed change-set payload.
pub fn build_commit_prompt(file_names: &str, compressed_json: &str) -> (r: String)
    ensures
        r@ == prompt_spec(file_names@, compressed_json@),
{
    let mut r =
        "reply only with a very concise but informative commit message, and nothing else:\n\nFiles:\n".to_owned();
    r.append(file_names);
    r.append("\n\nSummaryJSON:");
    r.append(compressed_json);
    proof {
        assert(r@ =~= prompt_spec(file_names@, compressed_json@));
    }
    r
}

/// The fixed message committed when no API key is configured or the remote
/// call fails.
pub fn fallback_commit_message() -> (r: String)
    ensures
        r@ == "chore: automated commit generated by Autocommiter"@,
{
    "chore: automated commit generated by Autocommiter".to_owned()
}

} // verus!
