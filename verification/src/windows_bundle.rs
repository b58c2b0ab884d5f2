//! What goes into the bundle of the application for Windows.

use crate::text::same_text;
use vstd::prelude::*;

verus! {

/// A directory of the bundle.
#[derive(Clone, Copy, PartialEq, Eq, Structural, Debug)]
pub enum Directory {
    /// The directory of the bundle itself.
    Root,
    /// Where the programs look for their libraries.
    Bin,
}

/// A program of the bundle.
#[derive(Clone, Copy, PartialEq, Eq, Debug)]
pub struct Program {
    pub file_name: &'static str,
    pub directory: Directory,
}

/// The program has this name and stands there.
pub open spec fn placed(program: Program, file_name: Seq<char>, directory: Directory) -> bool {
    program.file_name@ == file_name && program.directory == directory
}

/// The programs of the bundle, in the order in which they are copied. The launcher stands on top, the
/// programs that need libraries beside these.
pub fn programs() -> (r: Vec<Program>)
    ensures
        r@.len() == 3,
        placed(r@[0], "ntsc-rs-standalone.exe"@, Directory::Bin),
        placed(r@[1], "ntsc-rs-cli.exe"@, Directory::Bin),
        placed(r@[2], "ntsc-rs-launcher.exe"@, Directory::Root),
{
    vec![
        Program { file_name: "ntsc-rs-standalone.exe", directory: Directory::Bin },
        Program { file_name: "ntsc-rs-cli.exe", directory: Directory::Bin },
        Program { file_name: "ntsc-rs-launcher.exe", directory: Directory::Root },
    ]
}

/// Whether a file of the GStreamer installation goes into the bundle, by the extension of its name: the
/// shared libraries do.
pub fn is_bundled(extension: Option<&str>) -> (r: bool)
    ensures
        r == (extension matches Some(extension) && extension@ == "dll"@),
{
    match extension {
        Some(extension) => same_text(extension, "dll"),
        None => false,
    }
}

} // verus!
