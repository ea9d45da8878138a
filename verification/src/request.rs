//! The checks on a request that are made before anything is planned.

use vstd::prelude::*;
use vstd::string::*;
use crate::errors::XcpError;

verus! {

/// What lies at a path.
#[derive(Debug, Clone, Copy, PartialEq, Eq, Structural)]
pub enum PathKind {
    /// Nothing.
    Missing,
    /// A regular file.
    File,
    /// A directory.
    Directory,
    /// Something else: a device, a socket, a pipe.
    Other,
}

/// The destination of a copy and what was found there.
#[derive(Debug, Clone, PartialEq, Eq)]
pub struct Destination {
    pub path: String,
    pub kind: PathKind,
}

/// The failure of a request that names several sources and a destination
/// that cannot hold them.
pub open spec fn not_a_directory() -> XcpError {
    XcpError::InvalidDestination("Multiple sources and destination is not a directory.")
}

/// The failure of a request whose source patterns match nothing.
pub open spec fn nothing_found() -> XcpError {
    XcpError::InvalidSource("No source files found.")
}

/// The failure of a request that would overwrite `path` against the
/// caller's wish.
pub open spec fn would_clobber(path: String) -> XcpError {
    XcpError::DestinationExists("Destination file exists and --no-clobber is set.", path)
}

/// The failure of a request to copy the file at `path` onto itself.
pub open spec fn same_file(path: String) -> XcpError {
    XcpError::DestinationExists("Source and destination is the same file.", path)
}

/// The failure of a request that names no path at all.
pub open spec fn too_few_paths(e: XcpError) -> bool {
    e matches XcpError::InvalidArguments(m) && m@ == "Insufficient arguments"@
}

/// Parts the paths of a request into the destination, which is the last of
/// them, and the source patterns before it. A request without paths is
/// refused.
pub fn split_paths(paths: Vec<String>) -> (r: Result<(String, Vec<String>), XcpError>)
    ensures
        match r {
            Ok((dest, sources)) => {
                &&& paths@.len() > 0
                &&& dest == paths@.last()
                &&& sources@ == paths@.drop_last()
            },
            Err(e) => paths@.len() == 0 && too_few_paths(e),
        },
{
    let mut sources = paths;
    match sources.pop() {
        Some(dest) => Ok((dest, sources)),
        None => Err(XcpError::InvalidArguments(String::from_str("Insufficient arguments"))),
    }
}

/// Several sources need a directory to go into: a request with more than
/// one source pattern and any other destination is refused.
pub fn check_patterns(patterns: usize, dest: &Destination) -> (r: Result<(), XcpError>)
    ensures
        r == (if patterns > 1 && dest.kind != PathKind::Directory {
            Err::<(), XcpError>(not_a_directory())
        } else {
            Ok(())
        }),
{
    if patterns > 1 && dest.kind != PathKind::Directory {
        Err(XcpError::InvalidDestination("Multiple sources and destination is not a directory."))
    } else {
        Ok(())
    }
}

/// A request whose patterns matched no path is refused.
pub fn check_sources(found: usize) -> (r: Result<(), XcpError>)
    ensures
        r == (if found == 0 {
            Err::<(), XcpError>(nothing_found())
        } else {
            Ok(())
        }),
{
    if found == 0 {
        Err(XcpError::InvalidSource("No source files found."))
    } else {
        Ok(())
    }
}

/// Whether the request is to write one source over one existing file,
/// rather than to copy sources into a directory.
pub fn is_single_file_copy(sources: usize, dest: &Destination) -> (b: bool)
    ensures
        b == (sources == 1 && dest.kind == PathKind::File),
{
    sources == 1 && dest.kind == PathKind::File
}

/// With the no-clobber flag set, an existing file is not written over.
pub fn check_overwrite(no_clobber: bool, dest: &Destination) -> (r: Result<(), XcpError>)
    ensures
        r == (if no_clobber && dest.kind == PathKind::File {
            Err::<(), XcpError>(would_clobber(dest.path))
        } else {
            Ok(())
        }),
{
    if no_clobber && dest.kind == PathKind::File {
        Err(
            XcpError::DestinationExists(
                "Destination file exists and --no-clobber is set.",
                dest.path.clone(),
            ),
        )
    } else {
        Ok(())
    }
}

/// A file is never copied onto itself: `same` says whether source and
/// destination turned out to be one file.
pub fn check_same_file(same: bool, dest: &Destination) -> (r: Result<(), XcpError>)
    ensures
        r == (if same {
            Err::<(), XcpError>(same_file(dest.path))
        } else {
            Ok(())
        }),
{
    if same {
        Err(XcpError::DestinationExists("Source and destination is the same file.", dest.path.clone()))
    } else {
        Ok(())
    }
}

} // verus!
