//! The name of the HTML file that a markdown file is converted into.
use vstd::prelude::*;
use vstd::string::*;

verus! {

/// Why no output name can be derived from an input name.
#[derive(Debug, Clone, Copy, PartialEq, Eq, Structural)]
pub enum FileNameError {
    /// The name has fewer than four characters: too short to hold a stem
    /// and a three-character extension.
    TooShort,
}

/// The output name: the input name with its last three characters (its
/// extension, such as `.md`) replaced by `.html`.
pub open spec fn html_name_of(name: Seq<char>) -> Seq<char> {
    name.subrange(0, name.len() - 3) + ".html"@
}

/// Derives the output file name from the input file name, `notes.md` giving
/// `notes.html`. Names too short to hold a stem and an extension are refused.
pub fn html_file_name(filename: &str) -> (r: Result<String, FileNameError>)
    ensures
        filename@.len() >= 4 ==> r is Ok && r->Ok_0@ == html_name_of(filename@),
        filename@.len() < 4 ==> r == Err::<String, FileNameError>(FileNameError::TooShort),
{
    let n = filename.unicode_len();
    if n < 4 {
        return Err(FileNameError::TooShort);
    }
    let stem = filename.substring_char(0, n - 3);
    let mut out = stem.to_owned();
    out.append(".html");
    Ok(out)
}

} // verus!
