//! The execution engine's decisions: whether a container's executable can run here, and
//! what exit code a finished run reports.
use crate::container::{lossy_text, FileContents};
use vstd::prelude::*;
use vstd::string::StringExecFns;

verus! {

/// Where the executable to run comes from.
pub enum RunParam {
    /// A container file at this path.
    Path(String),
    /// These executable bytes, already in memory.
    Binary(Vec<u8>),
}

/// Why a container's executable cannot run here. Both reasons call for a rebuild rather
/// than an abort.
pub enum NotRunnable {
    /// The container embeds no executable.
    NoBinary,
    /// The executable was built for `found`, and this platform is `current`.
    TargetMismatch { found: String, current: String },
}

impl NotRunnable {
    /// The reason, as reported to the operator.
    pub fn message(&self) -> (r: String)
        ensures
            r@ == match self {
                NotRunnable::NoBinary => "rss file has no binary"@,
                NotRunnable::TargetMismatch { found, current } => "File compiled for target '"@
                    + found@ + "', whereas current target is '"@ + current@ + "'"@,
            },
    {
        match self {
            NotRunnable::NoBinary => String::from_str("rss file has no binary"),
            NotRunnable::TargetMismatch { found, current } => {
                let mut m = String::from_str("File compiled for target '");
                m.append(found.as_str());
                m.append("', whereas current target is '");
                m.append(current.as_str());
                m.append("'");
                m
            },
        }
    }
}

/// Decides whether an executable can run here, given the target it was built for as text:
/// an empty executable is no executable, and a target other than `current_target` is a
/// mismatch.
pub fn check_runnable<'a>(bin: &'a [u8], found: String, current_target: &str) -> (r: Result<
    &'a [u8],
    NotRunnable,
>)
    ensures
        bin@.len() == 0 ==> r matches Err(NotRunnable::NoBinary),
        bin@.len() > 0 && found@ != current_target@ ==> (match r {
            Err(NotRunnable::TargetMismatch { found: f, current }) => f@ == found@ && current@
                == current_target@,
            _ => false,
        }),
        bin@.len() > 0 && found@ == current_target@ ==> r == Ok::<&[u8], NotRunnable>(bin),
{
    if bin.len() == 0 {
        return Err(NotRunnable::NoBinary);
    }
    let current = current_target.to_owned();
    if found != current {
        return Err(NotRunnable::TargetMismatch { found, current });
    }
    Ok(bin)
}

/// The executable of `contents`, when it has one built for `current_target`.
pub fn runnable_binary<'a>(contents: &'a FileContents, current_target: &str) -> (r: Result<
    &'a [u8],
    NotRunnable,
>)
    requires
        contents.wf(),
    ensures
        contents.executable().len() == 0 ==> r matches Err(NotRunnable::NoBinary),
        contents.executable().len() > 0 && lossy_text(contents.target()) != current_target@ ==> (
        match r {
            Err(NotRunnable::TargetMismatch { found, current }) => found@ == lossy_text(
                contents.target(),
            ) && current@ == current_target@,
            _ => false,
        }),
        contents.executable().len() > 0 && lossy_text(contents.target()) == current_target@ ==> (
        match r {
            Ok(bin) => bin@ == contents.executable(),
            _ => false,
        }),
{
    check_runnable(contents.bin_contents(), contents.target_triple(), current_target)
}

/// A file mode with execute permission added for owner, group and others.
pub fn with_execute_bits(mode: u32) -> (r: u32)
    ensures
        r == mode | 0o111,
{
    mode | 0o111
}

/// The code a finished run reports: its exit code, or 0 when it ended without one.
pub fn exit_code(code: Option<i32>) -> (r: i32)
    ensures
        r == match code {
            Some(c) => c,
            None => 0,
        },
{
    match code {
        Some(c) => c,
        None => 0,
    }
}

} // verus!
