//! The default project a new container starts from, and the launcher script placed beside
//! a project while it is edited.
use vstd::prelude::*;
use vstd::string::StringExecFns;

verus! {

/// The manifest of a new project named `name`.
pub open spec fn manifest_text(name: Seq<char>) -> Seq<char> {
    "[package]\nname = \""@ + name + "\"\nversion = \"0.1.0\"\nedition = \"2024\"\n\n[dependencies]\n"@
}

/// The entry point of a new project: a program that greets.
pub open spec fn main_text() -> Seq<char> {
    "fn main() {\n    println!(\"Hello, world!\");\n}\n"@
}

/// The manifest of a new project named `name`.
pub fn default_manifest(name: &str) -> (r: String)
    ensures
        r@ == manifest_text(name@),
{
    let mut m = String::from_str("[package]\nname = \"");
    m.append(name);
    m.append("\"\nversion = \"0.1.0\"\nedition = \"2024\"\n\n[dependencies]\n");
    m
}

/// The entry point of a new project.
pub fn default_main() -> (r: String)
    ensures
        r@ == main_text(),
{
    String::from_str("fn main() {\n    println!(\"Hello, world!\");\n}\n")
}

/// `s` with every `from` replaced by `to`.
pub open spec fn replaced(s: Seq<char>, from: char, to: Seq<char>) -> Seq<char>
    decreases s.len(),
{
    if s.len() == 0 {
        Seq::empty()
    } else {
        replaced(s.drop_last(), from, to) + if s.last() == from {
            to
        } else {
            seq![s.last()]
        }
    }
}

/// Relies on `str::replace` with a `char` pattern: every occurrence of `from` is replaced by
/// `to`, and every other character is kept in order.
#[verifier::external_body]
fn replace_char(s: &str, from: char, to: &str) -> (r: String)
    ensures
        r@ == replaced(s@, from, to@),
{
    s.replace(from, to)
}

/// `s` quoted for a POSIX shell between single quotes: each `'` becomes `'\''`.
pub fn shell_escape(s: &str) -> (r: String)
    ensures
        r@ == replaced(s@, '\'', seq!['\'', '\\', '\'', '\'']),
{
    proof {
        reveal_strlit("'\\''");
        assert("'\\''"@ =~= seq!['\'', '\\', '\'', '\'']);
    }
    replace_char(s, '\'', "'\\''")
}

/// `s` quoted for the Windows command line between double quotes: each `"` is doubled.
pub fn cmd_escape(s: &str) -> (r: String)
    ensures
        r@ == replaced(s@, '"', seq!['"', '"']),
{
    proof {
        reveal_strlit("\"\"");
        assert("\"\""@ =~= seq!['"', '"']);
    }
    replace_char(s, '"', "\"\"")
}

/// The shell script that runs the edited project from `cwd`, passing its arguments on, with
/// the release profile unless `debug`.
pub fn launcher_script(cwd: &str, manifest: &str, debug: bool) -> (r: String)
    ensures
        r@ == "#!/bin/sh\ncd '"@ + replaced(cwd@, '\'', seq!['\'', '\\', '\'', '\''])
            + "'\ncargo run "@ + (if debug {
            Seq::empty()
        } else {
            "-r "@
        }) + "--manifest-path='"@ + replaced(manifest@, '\'', seq!['\'', '\\', '\'', '\''])
            + "' \"$@\""@,
{
    let mut r = String::from_str("#!/bin/sh\ncd '");
    let c = shell_escape(cwd);
    r.append(c.as_str());
    r.append("'\ncargo run ");
    if !debug {
        r.append("-r ");
    }
    r.append("--manifest-path='");
    let m = shell_escape(manifest);
    r.append(m.as_str());
    r.append("' \"$@\"");
    proof {
        if debug {
            assert("#!/bin/sh\ncd '"@ + c@ + "'\ncargo run "@ =~= "#!/bin/sh\ncd '"@ + c@
                + "'\ncargo run "@ + Seq::<char>::empty());
        }
    }
    r
}

/// The batch script that runs the edited project from `cwd` on Windows, passing its
/// arguments on, with the release profile unless `debug`.
pub fn launcher_script_windows(cwd: &str, manifest: &str, debug: bool) -> (r: String)
    ensures
        r@ == "@echo off\r\ncd /d \""@ + replaced(cwd@, '"', seq!['"', '"'])
            + "\"\r\ncargo run "@ + (if debug {
            Seq::empty()
        } else {
            "-r "@
        }) + "--manifest-path=\""@ + replaced(manifest@, '"', seq!['"', '"']) + "\" %*"@,
{
    let mut r = String::from_str("@echo off\r\ncd /d \"");
    let c = cmd_escape(cwd);
    r.append(c.as_str());
    r.append("\"\r\ncargo run ");
    if !debug {
        r.append("-r ");
    }
    r.append("--manifest-path=\"");
    let m = cmd_escape(manifest);
    r.append(m.as_str());
    r.append("\" %*");
    proof {
        if debug {
            assert("@echo off\r\ncd /d \""@ + c@ + "\"\r\ncargo run "@ =~= "@echo off\r\ncd /d \""@
                + c@ + "\"\r\ncargo run "@ + Seq::<char>::empty());
        }
    }
    r
}

} // verus!
