use vstd::prelude::*;

use crate::text::{chars_eq_ignore_ascii_case, chars_of, eq_ignore_ascii_case, str_eq, string_views};

verus! {

/// What one run of the tool does.
#[derive(Debug, Clone, PartialEq, Eq)]
pub enum Command {
    /// Register the desktop integrations.
    Install,
    /// Remove the desktop integrations.
    Uninstall,
    /// Open a project directory in the Codex app.
    OpenProject { path: String },
    /// Hand the arguments on to an existing Codex CLI.
    Forward(Vec<String>),
    /// Print the usage text.
    Help,
}

/// A command as a value of sequences.
pub enum CommandModel {
    Install,
    Uninstall,
    OpenProject(Seq<char>),
    Forward(Seq<Seq<char>>),
    Help,
}

impl View for Command {
    type V = CommandModel;

    open spec fn view(&self) -> CommandModel {
        match self {
            Command::Install => CommandModel::Install,
            Command::Uninstall => CommandModel::Uninstall,
            Command::OpenProject { path } => CommandModel::OpenProject(path@),
            Command::Forward(args) => CommandModel::Forward(string_views(args@)),
            Command::Help => CommandModel::Help,
        }
    }
}

/// The message for an `app` command without exactly one directory.
pub open spec fn one_directory_message() -> Seq<char> {
    "expected exactly one directory after 'app'"@
}

/// The command that `args` asks for; `invoked_as_codex` tells whether the tool runs as the
/// `codex` shim, which hands unknown arguments on instead of rejecting them.
pub open spec fn command_for(invoked_as_codex: bool, args: Seq<Seq<char>>) -> Result<
    CommandModel,
    Seq<char>,
> {
    if args.len() == 0 {
        if invoked_as_codex {
            Ok(CommandModel::Forward(args))
        } else {
            Ok(CommandModel::Install)
        }
    } else {
        let first = args[0];
        if first == "app"@ || first == "open"@ {
            if args.len() != 2 {
                Err(one_directory_message())
            } else {
                Ok(CommandModel::OpenProject(args[1]))
            }
        } else if first == "install"@ || first == "register"@ {
            Ok(CommandModel::Install)
        } else if first == "uninstall"@ || first == "remove"@ || first == "unregister"@ {
            Ok(CommandModel::Uninstall)
        } else if first == "--help"@ || first == "-h"@ || first == "help"@ {
            Ok(CommandModel::Help)
        } else if invoked_as_codex {
            Ok(CommandModel::Forward(args))
        } else {
            Err("unknown command: "@ + first)
        }
    }
}

/// The result of parsing, as a value of sequences.
pub open spec fn parse_view(r: Result<Command, String>) -> Result<CommandModel, Seq<char>> {
    match r {
        Ok(c) => Ok(c@),
        Err(e) => Err(e@),
    }
}

/// A name with no directory part in any path syntax: not empty, not `.` or `..`, and free of
/// `/`, `\` and `:`.
pub open spec fn is_bare_file_name(name: Seq<char>) -> bool {
    &&& name.len() > 0
    &&& name != "."@
    &&& name != ".."@
    &&& forall|i: int|
        0 <= i < name.len() ==> #[trigger] name[i] != '/' && name[i] != '\\' && name[i] != ':'
}

/// The stem of a bare file name: the name before its last `.`, or the whole name when it has
/// no `.` other than a leading one.
pub open spec fn bare_name_stem(name: Seq<char>) -> Seq<char> {
    let dots = Set::new(|i: int| 1 <= i < name.len() && name[i] == '.');
    if dots.is_empty() {
        name
    } else {
        name.take(dots.find_unique_maximal(|a: int, b: int| a <= b))
    }
}

/// The text after the last `/` of a path (the whole path when it has none).
pub open spec fn after_last_slash(path: Seq<char>) -> Seq<char> {
    crate::text::split_on(path, '/').last()
}

/// A path written with `/` only, whose last component is a bare file name: no `\`, not
/// starting with `//` (which can open a UNC prefix on Windows), and a bare name after the last
/// `/`. Unix and Windows both read its last component as that name.
pub open spec fn is_slash_path_to_bare_name(path: Seq<char>) -> bool {
    &&& !path.contains('\\')
    &&& !crate::text::has_prefix(path, seq!['/', '/'])
    &&& is_bare_file_name(after_last_slash(path))
}

/// `Path::file_stem`: the stem of the last component of the path. Stated here: an empty path
/// has none, and a path in `/` syntax whose last component is a bare name has that name's
/// stem. Paths with `\` or a leading `//` are parsed differently on Windows and Unix; nothing
/// is stated of them.
#[verifier::external_body]
fn file_stem_of(path: &str) -> (r: Option<String>)
    ensures
        path@.len() == 0 ==> r is None,
        is_slash_path_to_bare_name(path@) ==> r is Some && r->0@ == bare_name_stem(
            after_last_slash(path@),
        ),
{
    std::path::Path::new(path).file_stem().map(|s| s.to_string_lossy().into_owned())
}

/// Whether a file stem names the `codex` shim, ignoring ASCII case.
pub open spec fn is_codex_stem(stem: Option<Seq<char>>) -> bool {
    match stem {
        Some(s) => eq_ignore_ascii_case(s, "codex"@),
        None => false,
    }
}

/// Whether the stem found for the invocation path names the `codex` shim.
pub fn is_codex_stem_of(stem: Option<&str>) -> (r: bool)
    ensures
        r == is_codex_stem(
            match stem {
                Some(s) => Some(s@),
                None => None,
            },
        ),
{
    match stem {
        Some(s) => {
            let a = chars_of(s);
            let b = chars_of("codex");
            chars_eq_ignore_ascii_case(&a, &b)
        },
        None => false,
    }
}

/// A bare file name is a `/` path whose last component is itself.
pub proof fn lemma_bare_name_is_slash_path(name: Seq<char>)
    requires
        is_bare_file_name(name),
    ensures
        is_slash_path_to_bare_name(name),
        after_last_slash(name) == name,
{
    assert(!name.contains('/')) by {
        if name.contains('/') {
            let k = choose|k: int| 0 <= k < name.len() && name[k] == '/';
            assert(name[k] != '/');
        }
    }
    assert(!name.contains('\\')) by {
        if name.contains('\\') {
            let k = choose|k: int| 0 <= k < name.len() && name[k] == '\\';
            assert(name[k] != '\\');
        }
    }
    crate::text::lemma_split_without_sep(name, '/');
    assert(!crate::text::has_prefix(name, seq!['/', '/'])) by {
        if crate::text::has_prefix(name, seq!['/', '/']) {
            assert(name.take(2)[0] == name[0]);
        }
    }
}

/// Whether the tool was started as the `codex` shim: the stem of the invocation path is
/// `codex` in any ASCII case.
fn is_codex_invocation(invocation: &str) -> (r: bool)
    ensures
        is_slash_path_to_bare_name(invocation@) ==> r == is_codex_stem(
            Some(bare_name_stem(after_last_slash(invocation@))),
        ),
        invocation@.len() == 0 ==> !r,
{
    let stem = file_stem_of(invocation);
    match &stem {
        Some(s) => is_codex_stem_of(Some(s.as_str())),
        None => is_codex_stem_of(None),
    }
}

/// The usage text.
pub open spec fn usage_text() -> Seq<char> {
    "Usage:\n  open-with-codex-app                    Register integrations\n  open-with-codex-app uninstall          Remove integrations\n  open-with-codex-app app <dir>          Open a directory in Codex app\n  codex app <dir>                        Open a directory in Codex app"@
}

/// The usage text.
pub fn usage() -> (r: &'static str)
    ensures
        r@ == usage_text(),
{
    "Usage:\n  open-with-codex-app                    Register integrations\n  open-with-codex-app uninstall          Remove integrations\n  open-with-codex-app app <dir>          Open a directory in Codex app\n  codex app <dir>                        Open a directory in Codex app"
}

fn parse_open_project(args: Vec<String>) -> (r: Result<Command, String>)
    ensures
        args@.len() != 2 ==> parse_view(r) == Err::<CommandModel, Seq<char>>(one_directory_message()),
        args@.len() == 2 ==> parse_view(r) == Ok::<CommandModel, Seq<char>>(CommandModel::OpenProject(args@[1]@)),
{
    if args.len() != 2 {
        return Err(String::from_str("expected exactly one directory after 'app'"));
    }
    Ok(Command::OpenProject { path: String::from_str(args[1].as_str()) })
}

/// The command that `args` asks for, given whether the tool runs as the `codex` shim.
pub fn parse_command_for(invoked_as_codex: bool, args: Vec<String>) -> (r: Result<Command, String>)
    ensures
        parse_view(r) == command_for(invoked_as_codex, string_views(args@)),
{
    if args.len() == 0 {
        return if invoked_as_codex {
            Ok(Command::Forward(args))
        } else {
            Ok(Command::Install)
        };
    }
    let first = args[0].as_str();
    if str_eq(first, "app") || str_eq(first, "open") {
        parse_open_project(args)
    } else if str_eq(first, "install") || str_eq(first, "register") {
        Ok(Command::Install)
    } else if str_eq(first, "uninstall") || str_eq(first, "remove") || str_eq(first, "unregister") {
        Ok(Command::Uninstall)
    } else if str_eq(first, "--help") || str_eq(first, "-h") || str_eq(first, "help") {
        Ok(Command::Help)
    } else if invoked_as_codex {
        Ok(Command::Forward(args))
    } else {
        Err(crate::text::concat2("unknown command: ", first))
    }
}

/// The command that `args` asks for when the tool was started as `invocation`.
pub fn parse_command(invocation: &str, args: Vec<String>) -> (r: Result<Command, String>)
    ensures
        parse_view(r) == command_for(true, string_views(args@)) || parse_view(r) == command_for(
            false,
            string_views(args@),
        ),
        is_slash_path_to_bare_name(invocation@) ==> parse_view(r) == command_for(
            is_codex_stem(Some(bare_name_stem(after_last_slash(invocation@)))),
            string_views(args@),
        ),
        is_bare_file_name(invocation@) ==> parse_view(r) == command_for(
            is_codex_stem(Some(bare_name_stem(invocation@))),
            string_views(args@),
        ),
        invocation@.len() == 0 ==> parse_view(r) == command_for(false, string_views(args@)),
{
    proof {
        if is_bare_file_name(invocation@) {
            lemma_bare_name_is_slash_path(invocation@);
        }
    }
    let invoked_as_codex = is_codex_invocation(invocation);
    parse_command_for(invoked_as_codex, args)
}

} // verus!

verus! {

/// Whether a first argument is one of the tool's own commands.
pub open spec fn is_known_word(first: Seq<char>) -> bool {
    first == "app"@ || first == "open"@ || first == "install"@ || first == "register"@ || first
        == "uninstall"@ || first == "remove"@ || first == "unregister"@ || first == "--help"@
        || first == "-h"@ || first == "help"@
}

/// Only the `codex` shim hands arguments on: started under any other name, the tool never
/// forwards, and it rejects a first argument it does not know.
pub proof fn law_only_the_shim_forwards(args: Seq<Seq<char>>)
    ensures
        !(command_for(false, args) matches Ok(CommandModel::Forward(_))),
        args.len() > 0 && !is_known_word(args[0]) ==> command_for(false, args) == Err::<
            CommandModel,
            Seq<char>,
        >("unknown command: "@ + args[0]),
{
}

/// The `codex` shim never rejects an unknown first argument: it hands the arguments on as they
/// are; its only error is an `app` command without exactly one directory.
pub proof fn law_shim_forwards_unknown(args: Seq<Seq<char>>)
    ensures
        args.len() > 0 && !is_known_word(args[0]) ==> command_for(true, args) == Ok::<
            CommandModel,
            Seq<char>,
        >(CommandModel::Forward(args)),
        command_for(true, args) is Err ==> command_for(true, args) == Err::<CommandModel, Seq<char>>(
            one_directory_message(),
        ),
{
}

/// The tool's own commands mean the same under either name.
pub proof fn law_known_commands_ignore_invocation(args: Seq<Seq<char>>)
    requires
        args.len() > 0,
        is_known_word(args[0]),
    ensures
        command_for(true, args) == command_for(false, args),
{
}

} // verus!

verus! {

/// Each of the tool's own words gives its own command, whatever name the tool was started
/// under: `help`, `--help` and `-h` ask for the usage text; `install` and `register` install;
/// `uninstall`, `remove` and `unregister` uninstall; `app` and `open` open the one directory
/// that follows them. Only an empty command line (outside the shim) and the two install words
/// install.
pub proof fn law_each_word_gives_its_command(invoked_as_codex: bool, args: Seq<Seq<char>>)
    ensures
        args.len() > 0 && (args[0] == "help"@ || args[0] == "--help"@ || args[0] == "-h"@)
            ==> command_for(invoked_as_codex, args) == Ok::<CommandModel, Seq<char>>(CommandModel::Help),
        args.len() > 0 && (args[0] == "install"@ || args[0] == "register"@) ==> command_for(
            invoked_as_codex,
            args,
        ) == Ok::<CommandModel, Seq<char>>(CommandModel::Install),
        args.len() > 0 && (args[0] == "uninstall"@ || args[0] == "remove"@ || args[0] == "unregister"@)
            ==> command_for(invoked_as_codex, args) == Ok::<CommandModel, Seq<char>>(
            CommandModel::Uninstall,
        ),
        args.len() == 2 && (args[0] == "app"@ || args[0] == "open"@) ==> command_for(
            invoked_as_codex,
            args,
        ) == Ok::<CommandModel, Seq<char>>(CommandModel::OpenProject(args[1])),
        args.len() > 0 && args.len() != 2 && (args[0] == "app"@ || args[0] == "open"@)
            ==> command_for(invoked_as_codex, args) == Err::<CommandModel, Seq<char>>(
            "expected exactly one directory after 'app'"@,
        ),
        command_for(invoked_as_codex, args) == Ok::<CommandModel, Seq<char>>(CommandModel::Install)
            ==> (args.len() == 0 && !invoked_as_codex) || args[0] == "install"@ || args[0]
            == "register"@,
        command_for(invoked_as_codex, args) == Ok::<CommandModel, Seq<char>>(CommandModel::Help)
            ==> args.len() > 0 && (args[0] == "help"@ || args[0] == "--help"@ || args[0] == "-h"@),
{
    reveal_strlit("app");
    reveal_strlit("open");
    reveal_strlit("install");
    reveal_strlit("register");
    reveal_strlit("uninstall");
    reveal_strlit("remove");
    reveal_strlit("unregister");
    reveal_strlit("--help");
    reveal_strlit("-h");
    reveal_strlit("help");
    assert("app"@.len() == 3 && "open"@.len() == 4 && "install"@.len() == 7 && "register"@.len()
        == 8 && "uninstall"@.len() == 9 && "remove"@.len() == 6 && "unregister"@.len() == 10
        && "--help"@.len() == 6 && "-h"@.len() == 2 && "help"@.len() == 4);
    assert("open"@[0] == 'o' && "help"@[0] == 'h');
    assert("remove"@[0] == 'r' && "--help"@[0] == '-');
    assert("install"@[0] == 'i');
}

} // verus!
