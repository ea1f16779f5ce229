use vstd::prelude::*;

verus! {

/// The input pattern of the encoder inside the image directory: five-digit frame names.
pub open spec fn input_pattern(source_dir: Seq<char>) -> Seq<char> {
    source_dir + "/%05d.png"@
}

/// The encoder's command line: overwrite the output, 60 frames per second, image-sequence
/// input read through the five-digit pattern, H.264 at quality 17 with the medium preset.
pub open spec fn encoder_command(source_dir: Seq<char>, output: Seq<char>) -> Seq<Seq<char>> {
    seq![
        "-y"@,
        "-framerate"@,
        "60"@,
        "-f"@,
        "image2"@,
        "-i"@,
        input_pattern(source_dir),
        "-vcodec"@,
        "libx264"@,
        "-crf"@,
        "17"@,
        "-preset"@,
        "medium"@,
        output,
    ]
}

/// The arguments that turn the numbered images of `source_dir` into the video `output`.
pub fn encoder_args(source_dir: &str, output: &str) -> (r: Vec<String>)
    ensures
        r@.map_values(|s: String| s@) == encoder_command(source_dir@, output@),
{
    let mut pattern = String::from_str(source_dir);
    pattern.append("/%05d.png");
    let mut r: Vec<String> = Vec::new();
    r.push(String::from_str("-y"));
    r.push(String::from_str("-framerate"));
    r.push(String::from_str("60"));
    r.push(String::from_str("-f"));
    r.push(String::from_str("image2"));
    r.push(String::from_str("-i"));
    r.push(pattern);
    r.push(String::from_str("-vcodec"));
    r.push(String::from_str("libx264"));
    r.push(String::from_str("-crf"));
    r.push(String::from_str("17"));
    r.push(String::from_str("-preset"));
    r.push(String::from_str("medium"));
    r.push(String::from_str(output));
    assert(r@.map_values(|s: String| s@) =~= encoder_command(source_dir@, output@));
    r
}

} // verus!
