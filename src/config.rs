//! The configuration the orchestrator reads: two external command descriptors and two flags.
use vstd::prelude::*;
use vstd::string::StringExecFns;

verus! {

/// The argument that stands for the path handed to a command.
pub const PATH_REPLACE_ARG: &'static str = "$dir$";

pub open spec fn placeholder() -> Seq<char> {
    seq!['$', 'd', 'i', 'r', '$']
}

/// An external command: a program, an argument template, and whether it runs in the
/// terminal (inheriting it) or with its output captured.
pub struct EditCommand {
    command: String,
    args: Vec<String>,
    inherit_shell: bool,
}

/// A program with its arguments, ready to run.
pub struct CommandLine {
    pub program: String,
    pub args: Vec<String>,
}

/// Arguments joined into one text, a space between each two.
pub open spec fn joined(args: Seq<Seq<char>>) -> Seq<char>
    decreases args.len(),
{
    if args.len() == 0 {
        Seq::empty()
    } else if args.len() == 1 {
        args[0]
    } else {
        joined(args.drop_last()) + seq![' '] + args.last()
    }
}

impl CommandLine {
    /// The command line as one text: the program, a space, and the arguments joined by
    /// spaces.
    pub fn to_text(&self) -> (r: String)
        ensures
            r@ == self.program@ + seq![' '] + joined(args_view(self.args@)),
    {
        proof {
            reveal_strlit(" ");
            assert(" "@ =~= seq![' ']);
        }
        let mut r = self.program.clone();
        r.append(" ");
        let ghost head = r@;
        let mut i: usize = 0;
        while i < self.args.len()
            invariant
                0 <= i <= self.args@.len(),
                head == self.program@ + seq![' '],
                r@ == head + joined(args_view(self.args@).subrange(0, i as int)),
            decreases self.args@.len() - i,
        {
            let ghost prev = args_view(self.args@).subrange(0, i as int);
            let ghost next = args_view(self.args@).subrange(0, i + 1);
            proof {
                reveal_strlit(" ");
                assert(next.drop_last() =~= prev);
            }
            let ghost before = r@;
            if i > 0 {
                r.append(" ");
                proof {
                    assert(r@ =~= before + seq![' ']);
                }
            }
            r.append(self.args[i].as_str());
            proof {
                if i == 0 {
                    assert(joined(prev) =~= Seq::<char>::empty());
                    assert(r@ =~= head + joined(next));
                } else {
                    assert(next.last() == self.args@[i as int]@);
                    assert(joined(next) == joined(prev) + seq![' '] + next.last());
                    assert(r@ =~= before + seq![' '] + self.args@[i as int]@);
                    assert(r@ =~= head + joined(next));
                }
            }
            i += 1;
        }
        proof {
            assert(args_view(self.args@).subrange(0, i as int) =~= args_view(self.args@));
        }
        r
    }
}

/// Why a command template cannot take the path.
#[derive(Clone, Copy, Debug, PartialEq, Eq, Structural)]
pub enum CommandError {
    /// The template has the placeholder, but no path was given.
    NoInsertion,
    /// A path was given, but no argument is the placeholder.
    MissingPlaceholder,
}

impl CommandError {
    /// The message under which this failure is reported.
    pub fn message(&self) -> (r: String)
        ensures
            r@ == match self {
                CommandError::NoInsertion => "E01 Found `$dir$` in command with no insertion"@,
                CommandError::MissingPlaceholder =>
                    "E04 One argument must be `$dir$` for directory argument insertion. Check your config file."@,
            },
    {
        match self {
            CommandError::NoInsertion => String::from_str(
                "E01 Found `$dir$` in command with no insertion",
            ),
            CommandError::MissingPlaceholder => String::from_str(
                "E04 One argument must be `$dir$` for directory argument insertion. Check your config file.",
            ),
        }
    }
}

/// The text of each argument.
pub open spec fn args_view(v: Seq<String>) -> Seq<Seq<char>> {
    v.map_values(|s: String| s@)
}

/// Whether some argument is the placeholder.
pub open spec fn has_placeholder(args: Seq<Seq<char>>) -> bool {
    exists|i: int| 0 <= i < args.len() && args[i] == placeholder()
}

/// The arguments with every placeholder replaced by `insert`.
pub open spec fn substituted(args: Seq<Seq<char>>, insert: Seq<char>) -> Seq<Seq<char>> {
    args.map_values(|a: Seq<char>| if a == placeholder() { insert } else { a })
}

impl EditCommand {
    pub closed spec fn command_view(&self) -> Seq<char> {
        self.command@
    }

    pub closed spec fn args_view(&self) -> Seq<Seq<char>> {
        args_view(self.args@)
    }

    pub closed spec fn inherit_shell_view(&self) -> bool {
        self.inherit_shell
    }

    pub fn new(command: String, args: Vec<String>, inherit_shell: bool) -> (r: Self)
        ensures
            r.command_view() == command@,
            r.args_view() == args_view(args@),
            r.inherit_shell_view() == inherit_shell,
    {
        EditCommand { command, args, inherit_shell }
    }

    pub fn command(&self) -> (r: &String)
        ensures
            r@ == self.command_view(),
    {
        &self.command
    }

    pub fn args(&self) -> (r: &Vec<String>)
        ensures
            args_view(r@) == self.args_view(),
    {
        &self.args
    }

    pub fn inherit_shell(&self) -> (r: bool)
        ensures
            r == self.inherit_shell_view(),
    {
        self.inherit_shell
    }

    /// The command line to run: every placeholder argument becomes `insert`. A placeholder
    /// with nothing to insert, or something to insert and no placeholder, is an error.
    pub fn to_command(&self, insert: Option<&str>) -> (r: Result<CommandLine, CommandError>)
        ensures
            match insert {
                None => if has_placeholder(self.args_view()) {
                    r == Err::<CommandLine, _>(CommandError::NoInsertion)
                } else {
                    r matches Ok(c) && c.program@ == self.command_view() && args_view(c.args@)
                        == self.args_view()
                },
                Some(p) => if has_placeholder(self.args_view()) {
                    r matches Ok(c) && c.program@ == self.command_view() && args_view(c.args@)
                        == substituted(self.args_view(), p@)
                } else {
                    r == Err::<CommandLine, _>(CommandError::MissingPlaceholder)
                },
            },
    {
        proof {
            reveal_strlit("$dir$");
        }
        let ph = String::from_str(PATH_REPLACE_ARG);
        proof {
            assert(ph@ =~= placeholder());
        }
        let mut out: Vec<String> = Vec::new();
        let mut inserted = false;
        let mut i: usize = 0;
        while i < self.args.len()
            invariant
                0 <= i <= self.args@.len(),
                ph@ == placeholder(),
                out@.len() == i,
                inserted == has_placeholder(args_view(self.args@).subrange(0, i as int)),
                insert is None ==> !inserted && args_view(out@) == args_view(self.args@).subrange(
                    0,
                    i as int,
                ),
                insert matches Some(p) ==> args_view(out@) == substituted(
                    args_view(self.args@).subrange(0, i as int),
                    p@,
                ),
            decreases self.args@.len() - i,
        {
            let ghost prev = args_view(self.args@).subrange(0, i as int);
            let ghost next = args_view(self.args@).subrange(0, i + 1);
            proof {
                assert(next =~= prev.push(self.args@[i as int]@));
            }
            let ghost old_out = out@;
            let arg = &self.args[i];
            if *arg == ph {
                match insert {
                    Some(p) => {
                        out.push(p.to_owned());
                        inserted = true;
                    },
                    None => {
                        proof {
                            assert(next[i as int] == placeholder());
                            lemma_placeholder_extends(prev, next, self.args_view());
                        }
                        return Err(CommandError::NoInsertion);
                    },
                }
            } else {
                out.push(arg.clone());
            }
            proof {
                if inserted {
                    assert(has_placeholder(next)) by {
                        if !has_placeholder(prev) {
                            assert(next[i as int] == placeholder());
                        } else {
                            let j = choose|j: int| 0 <= j < prev.len() && prev[j] == placeholder();
                            assert(next[j] == placeholder());
                        }
                    }
                } else {
                    assert(!has_placeholder(next)) by {
                        if has_placeholder(next) {
                            let j = choose|j: int| 0 <= j < next.len() && next[j] == placeholder();
                            if j < i {
                                assert(prev[j] == placeholder());
                            }
                        }
                    }
                }
                assert(args_view(out@) =~= args_view(old_out).push(out@[i as int]@));
                match insert {
                    Some(p) => {
                        assert(substituted(next, p@) =~= substituted(prev, p@).push(
                            substituted(next, p@)[i as int],
                        ));
                        assert(args_view(out@) =~= substituted(next, p@));
                    },
                    None => {
                        assert(args_view(out@) =~= next);
                    },
                }
            }
            i += 1;
        }
        proof {
            assert(args_view(self.args@).subrange(0, i as int) =~= self.args_view());
        }
        if insert.is_some() && !inserted {
            return Err(CommandError::MissingPlaceholder);
        }
        Ok(CommandLine { program: self.command.clone(), args: out })
    }
}

/// A placeholder among the first arguments is a placeholder among all of them.
proof fn lemma_placeholder_extends(prev: Seq<Seq<char>>, next: Seq<Seq<char>>, all: Seq<Seq<char>>)
    requires
        next.len() == prev.len() + 1,
        next[prev.len() as int] == placeholder(),
        next.len() <= all.len(),
        next == all.subrange(0, next.len() as int),
    ensures
        has_placeholder(all),
{
    assert(all[prev.len() as int] == placeholder());
}

impl Default for EditCommand {
    /// Opens the editor `code` on the path and waits for it to close.
    fn default() -> (r: Self)
        ensures
            r.command_view() == "code"@,
            r.args_view() == seq!["-w"@, placeholder()],
            !r.inherit_shell_view(),
    {
        proof {
            reveal_strlit("code");
            reveal_strlit("-w");
            reveal_strlit("$dir$");
        }
        let mut args: Vec<String> = Vec::new();
        args.push(String::from_str("-w"));
        args.push(String::from_str(PATH_REPLACE_ARG));
        let r = EditCommand { command: String::from_str("code"), args, inherit_shell: false };
        proof {
            assert("$dir$"@ =~= placeholder());
            assert(r.args_view() =~= seq!["-w"@, placeholder()]);
        }
        r
    }
}

/// The two command descriptors and the two flags that steer editing and building.
pub struct Config {
    config_edit_command: EditCommand,
    rust_project_edit_command_blocking: EditCommand,
    use_debug_mode: bool,
    never_save_binary: bool,
}

impl Config {
    pub closed spec fn config_edit_command_view(&self) -> EditCommand {
        self.config_edit_command
    }

    pub closed spec fn rust_project_edit_command_blocking_view(&self) -> EditCommand {
        self.rust_project_edit_command_blocking
    }

    pub closed spec fn use_debug_mode_view(&self) -> bool {
        self.use_debug_mode
    }

    pub closed spec fn never_save_binary_view(&self) -> bool {
        self.never_save_binary
    }

    pub fn new(
        config_edit_command: EditCommand,
        rust_project_edit_command_blocking: EditCommand,
        use_debug_mode: bool,
        never_save_binary: bool,
    ) -> (r: Self)
        ensures
            r.config_edit_command_view() == config_edit_command,
            r.rust_project_edit_command_blocking_view() == rust_project_edit_command_blocking,
            r.use_debug_mode_view() == use_debug_mode,
            r.never_save_binary_view() == never_save_binary,
    {
        Config {
            config_edit_command,
            rust_project_edit_command_blocking,
            use_debug_mode,
            never_save_binary,
        }
    }

    /// The command that opens the configuration file.
    pub fn config_edit_command(&self) -> (r: &EditCommand)
        ensures
            *r == self.config_edit_command_view(),
    {
        &self.config_edit_command
    }

    /// The command that opens a project and blocks until the editor closes.
    pub fn rust_project_edit_command_blocking(&self) -> (r: &EditCommand)
        ensures
            *r == self.rust_project_edit_command_blocking_view(),
    {
        &self.rust_project_edit_command_blocking
    }

    /// Whether builds use the debug profile rather than release.
    pub fn use_debug_mode(&self) -> (r: bool)
        ensures
            r == self.use_debug_mode_view(),
    {
        self.use_debug_mode
    }

    /// Whether a built executable is never stored in the container.
    pub fn never_save_binary(&self) -> (r: bool)
        ensures
            r == self.never_save_binary_view(),
    {
        self.never_save_binary
    }
}

impl Default for Config {
    /// Default editor commands, release builds, and executables kept.
    fn default() -> (r: Self)
        ensures
            r.config_edit_command_view().command_view() == "code"@,
            r.config_edit_command_view().args_view() == seq!["-w"@, placeholder()],
            !r.config_edit_command_view().inherit_shell_view(),
            r.rust_project_edit_command_blocking_view().command_view() == "code"@,
            r.rust_project_edit_command_blocking_view().args_view() == seq!["-w"@, placeholder()],
            !r.rust_project_edit_command_blocking_view().inherit_shell_view(),
            !r.use_debug_mode_view(),
            !r.never_save_binary_view(),
    {
        Config {
            config_edit_command: EditCommand::default(),
            rust_project_edit_command_blocking: EditCommand::default(),
            use_debug_mode: false,
            never_save_binary: false,
        }
    }
}

} // verus!
