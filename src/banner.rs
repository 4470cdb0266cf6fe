//! The banner and usage texts of the command-line tool.
use vstd::prelude::*;
use vstd::string::*;

verus! {

/// What the banner tells of the package: filled in by the program from its
/// build metadata.
pub struct PackageInfo {
    pub name: String,
    pub version: String,
    pub description: String,
    pub authors: String,
    pub homepage: String,
}

/// The one-line title: `name (vVERSION), DESCRIPTION`.
pub open spec fn title_text(info: PackageInfo) -> Seq<char> {
    info.name@ + " (v"@ + info.version@ + "), "@ + info.description@
}

/// The long banner: the title, the authors, the homepage and how to call the
/// program, one to a line.
pub open spec fn usage_text(info: PackageInfo) -> Seq<char> {
    title_text(info) + "\n"@ + "Written by: "@ + info.authors@ + "\n"@ + "Homepage: "@
        + info.homepage@ + "\n"@ + "Usage: mirage <somefile>.md"@
}

/// The title line of the banner, shown on every run.
pub fn get_title(info: &PackageInfo) -> (r: String)
    ensures
        r@ == title_text(*info),
{
    let mut title = info.name.clone();
    title.append(" (v");
    title.append(info.version.as_str());
    title.append("), ");
    title.append(info.description.as_str());
    title
}

/// The long banner, shown on a wrong number of arguments.
pub fn usage(info: &PackageInfo) -> (r: String)
    ensures
        r@ == usage_text(*info),
{
    let mut text = get_title(info);
    text.append("\n");
    text.append("Written by: ");
    text.append(info.authors.as_str());
    text.append("\n");
    text.append("Homepage: ");
    text.append(info.homepage.as_str());
    text.append("\n");
    text.append("Usage: mirage <somefile>.md");
    proof {
        assert(text@ =~= usage_text(*info));
    }
    text
}

} // verus!
