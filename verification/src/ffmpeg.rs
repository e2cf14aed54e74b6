use vstd::prelude::*;
use crate::text::{occurs_in, replace_all, replace_all_keeps_length, replace_all_str, replace_all_without_occurrence};

verus! {

/// The converter that turns a downloaded stream into an MP3 file.
pub open spec fn ffmpeg_program_path() -> Seq<char> {
    "bin\\win\\ffmpeg.exe"@
}

/// The path of the MP3 file made from `input`: every `.m4s` becomes `.mp3`.
pub open spec fn transcode_output_path(input: Seq<char>) -> Seq<char> {
    replace_all(input, ".m4s"@, ".mp3"@)
}

/// The arguments of the converter: read `input`, best variable quality, the
/// LAME encoder, write the output path.
pub open spec fn transcode_arguments(input: Seq<char>) -> Seq<Seq<char>> {
    seq![
        "-i"@,
        input,
        "-aq"@,
        "0"@,
        "-acodec"@,
        "libmp3lame"@,
        transcode_output_path(input),
    ]
}

/// The converter's path.
pub fn ffmpeg_program() -> (r: String)
    ensures
        r@ == ffmpeg_program_path(),
{
    String::from_str("bin\\win\\ffmpeg.exe")
}

/// The path of the MP3 file made from `input`.
pub fn transcode_output(input: &str) -> (r: String)
    ensures
        r@ == transcode_output_path(input@),
{
    proof {
        reveal_strlit(".m4s");
    }
    replace_all_str(input, ".m4s", ".mp3")
}

fn from_literal(s: &str) -> (r: String)
    ensures
        r@ == s@,
{
    String::from_str(s)
}

/// The converter's arguments for `input`.
pub fn transcode_args(input: &str) -> (r: Vec<String>)
    ensures
        r@.len() == transcode_arguments(input@).len(),
        forall|i: int| 0 <= i < r@.len() ==> (#[trigger] r@[i])@ == transcode_arguments(input@)[i],
{
    let mut v: Vec<String> = Vec::new();
    v.push(from_literal("-i"));
    v.push(from_literal(input));
    v.push(from_literal("-aq"));
    v.push(from_literal("0"));
    v.push(from_literal("-acodec"));
    v.push(from_literal("libmp3lame"));
    v.push(transcode_output(input));
    v
}

/// Law: the output path is as long as the input path, and a path without
/// `.m4s` is its own output path.
pub proof fn transcode_output_path_laws(input: Seq<char>)
    ensures
        transcode_output_path(input).len() == input.len(),
        !occurs_in(input, ".m4s"@) ==> transcode_output_path(input) == input,
{
    reveal_strlit(".m4s");
    reveal_strlit(".mp3");
    replace_all_keeps_length(input, ".m4s"@, ".mp3"@);
    if !occurs_in(input, ".m4s"@) {
        replace_all_without_occurrence(input, ".m4s"@, ".mp3"@);
    }
}

} // verus!
