//! Servers that run as child processes: how they are started and what is logged of them.

use crate::text;
use vstd::prelude::*;
use vstd::string::*;

verus! {

/// An environment variable as the user configured it.
#[derive(Debug, PartialEq, Eq)]
pub struct StaticEnvVar {
    pub name: String,
    pub value: String,
}

/// [`StaticEnvVar`] by its contents.
pub struct EnvVarView {
    pub name: Seq<char>,
    pub value: Seq<char>,
}

impl DeepView for StaticEnvVar {
    type V = EnvVarView;

    open spec fn deep_view(&self) -> EnvVarView {
        EnvVarView { name: self.name@, value: self.value@ }
    }
}

impl Clone for StaticEnvVar {
    fn clone(&self) -> (copy: Self)
        ensures
            copy == *self,
    {
        StaticEnvVar { name: self.name.clone(), value: self.value.clone() }
    }
}

/// A server that is a program on this machine.
#[derive(Debug, PartialEq, Eq)]
pub struct CLIServer {
    pub command: String,
    pub args: Vec<String>,
    pub cwd_parameter: Option<String>,
    pub static_env_vars: Vec<StaticEnvVar>,
}

/// [`CLIServer`] by its contents.
pub struct CLIServerView {
    pub command: Seq<char>,
    pub args: Seq<Seq<char>>,
    pub cwd_parameter: Option<Seq<char>>,
    pub static_env_vars: Seq<EnvVarView>,
}

impl DeepView for CLIServer {
    type V = CLIServerView;

    open spec fn deep_view(&self) -> CLIServerView {
        CLIServerView {
            command: self.command@,
            args: self.args.deep_view(),
            cwd_parameter: self.cwd_parameter.deep_view(),
            static_env_vars: self.static_env_vars.deep_view(),
        }
    }
}

/// A child process to start.
#[derive(Debug, PartialEq, Eq)]
pub struct ChildCommand {
    pub command: String,
    pub args: Vec<String>,
    /// The working directory, where it is not inherited.
    pub cwd: Option<String>,
    /// The variables to set, in this order, on top of the inherited ones.
    pub env: Vec<StaticEnvVar>,
}

/// [`ChildCommand`] by its contents.
pub struct ChildCommandView {
    pub command: Seq<char>,
    pub args: Seq<Seq<char>>,
    pub cwd: Option<Seq<char>>,
    pub env: Seq<EnvVarView>,
}

impl DeepView for ChildCommand {
    type V = ChildCommandView;

    open spec fn deep_view(&self) -> ChildCommandView {
        ChildCommandView {
            command: self.command@,
            args: self.args.deep_view(),
            cwd: self.cwd.deep_view(),
            env: self.env.deep_view(),
        }
    }
}

/// The program that is started: on Windows the command interpreter, which looks the
/// command up in its own way.
pub open spec fn program(windows: bool, command: Seq<char>) -> Seq<char> {
    if windows {
        "cmd.exe"@
    } else {
        command
    }
}

/// The arguments of the program that is started.
pub open spec fn program_args(
    windows: bool,
    command: Seq<char>,
    args: Seq<Seq<char>>,
) -> Seq<Seq<char>> {
    if windows {
        seq!["/c"@, command] + args
    } else {
        args
    }
}

/// Works out the program to start for a command, and its arguments.
pub fn command_line(windows: bool, command: String, args: Vec<String>) -> (line: (
    String,
    Vec<String>,
))
    ensures
        line.0@ == program(windows, command@),
        line.1.deep_view() == program_args(windows, command@, args.deep_view()),
{
    if windows {
        let ghost given = args.deep_view();
        let ghost named = command@;
        let mut wrapped: Vec<String> = Vec::new();
        wrapped.push("/c".to_owned());
        wrapped.push(command);
        let mut rest = args;
        wrapped.append(&mut rest);
        assert(wrapped.deep_view() =~= seq!["/c"@, named] + given);
        ("cmd.exe".to_owned(), wrapped)
    } else {
        (command, args)
    }
}

/// The variables that are passed on: those that are not empty.
pub open spec fn passed_env(vars: Seq<EnvVarView>) -> Seq<EnvVarView> {
    vars.filter_map(
        |var: EnvVarView|
            if var.value.len() == 0 {
                None
            } else {
                Some(var)
            },
    )
}

/// What is logged of the variables that are not.
pub open spec fn env_warnings(vars: Seq<EnvVarView>) -> Seq<Seq<char>> {
    vars.filter_map(
        |var: EnvVarView|
            if var.value.len() == 0 {
                Some("[warn] MCP: Skipping empty environment variable: "@ + var.name)
            } else {
                None
            },
    )
}

/// Sorts out the environment of a child process. An empty variable is left out, so that
/// it can be inherited, and that is logged.
pub fn child_environment(vars: &Vec<StaticEnvVar>) -> (environment: (
    Vec<StaticEnvVar>,
    Vec<String>,
))
    ensures
        environment.0.deep_view() == passed_env(vars.deep_view()),
        environment.1.deep_view() == env_warnings(vars.deep_view()),
{
    let ghost all = vars.deep_view();
    let mut passed: Vec<StaticEnvVar> = Vec::new();
    let mut warnings: Vec<String> = Vec::new();
    assert(passed.deep_view() =~= passed_env(all.take(0)));
    assert(warnings.deep_view() =~= env_warnings(all.take(0)));
    let mut i: usize = 0;
    while i < vars.len()
        invariant
            i <= vars@.len(),
            all == vars.deep_view(),
            passed.deep_view() == passed_env(all.take(i as int)),
            warnings.deep_view() == env_warnings(all.take(i as int)),
        decreases vars@.len() - i,
    {
        let var = &vars[i];
        let ghost passed_before = passed.deep_view();
        let ghost warnings_before = warnings.deep_view();
        proof {
            all.lemma_filter_map_take_succ(
                |var: EnvVarView|
                    if var.value.len() == 0 {
                        None
                    } else {
                        Some(var)
                    },
                i as int,
            );
            all.lemma_filter_map_take_succ(
                |var: EnvVarView|
                    if var.value.len() == 0 {
                        Some("[warn] MCP: Skipping empty environment variable: "@ + var.name)
                    } else {
                        None
                    },
                i as int,
            );
        }
        if var.value.as_str().is_empty() {
            let warning = text::joined(
                "[warn] MCP: Skipping empty environment variable: ",
                var.name.as_str(),
            );
            warnings.push(warning);
            assert(warnings.deep_view() =~= warnings_before.push(warning@));
        } else {
            passed.push(var.clone());
            assert(passed.deep_view() =~= passed_before.push(var.deep_view()));
        }
        i = i + 1;
    }
    assert(all.take(i as int) =~= all);
    (passed, warnings)
}

/// An empty variable is never passed on, and every other one is.
pub proof fn law_exactly_nonempty_variables_are_passed(vars: Seq<EnvVarView>)
    ensures
        forall|var: EnvVarView| #[trigger]
            passed_env(vars).contains(var) <==> vars.contains(var) && var.value.len() > 0,
        passed_env(vars).len() + env_warnings(vars).len() == vars.len(),
    decreases vars.len(),
{
    if vars.len() > 0 {
        let rest = vars.drop_last();
        law_exactly_nonempty_variables_are_passed(rest);
        assert forall|var: EnvVarView| #[trigger]
            passed_env(vars).contains(var) <==> vars.contains(var) && var.value.len() > 0 by {
            assert(passed_env(rest).contains(var) <==> rest.contains(var) && var.value.len() > 0);
            assert(vars =~= rest.push(vars.last()));
            if passed_env(vars).contains(var) && vars.last().value.len() > 0 {
                let i = choose|i: int|
                    0 <= i < passed_env(vars).len() && passed_env(vars)[i] == var;
                if i < passed_env(rest).len() {
                    assert(passed_env(rest)[i] == var);
                }
            }
            if rest.contains(var) {
                let i = choose|i: int| 0 <= i < rest.len() && rest[i] == var;
                assert(vars[i] == var);
                if var.value.len() > 0 {
                    let j = choose|j: int|
                        0 <= j < passed_env(rest).len() && passed_env(rest)[j] == var;
                    assert(passed_env(vars)[j] == var);
                }
            }
            if var == vars.last() {
                assert(vars[vars.len() - 1] == var);
                if var.value.len() > 0 {
                    assert(passed_env(vars)[passed_env(rest).len() as int] == var);
                }
            }
            if vars.contains(var) && var != vars.last() {
                let i = choose|i: int| 0 <= i < vars.len() && vars[i] == var;
                assert(rest[i] == var);
            }
        }
    } else {
        assert(passed_env(vars) =~= Seq::empty());
    }
}

/// How the working directory is shown.
pub open spec fn cwd_display(cwd: Option<Seq<char>>) -> Seq<char> {
    match cwd {
        Some(cwd) => cwd,
        None => "<inherited from Warp's process cwd>"@,
    }
}

/// What is logged where the program is not found.
pub open spec fn command_not_found(
    server_name: Seq<char>,
    command: Seq<char>,
    cwd: Option<Seq<char>>,
) -> Seq<char> {
    "[error] MCP: Failed to spawn '"@ + server_name + "': command '"@ + command
        + "' not found (cwd: "@ + cwd_display(cwd)
        + "). If your MCP server depends on a specific working directory, set the `working_directory` field in your config to override the default."@
}

/// Says that the program of a server is not found.
pub fn command_not_found_line(server_name: &str, command: &str, cwd: Option<&str>) -> (line: String)
    ensures
        line@ == command_not_found(server_name@, command@, cwd.deep_view()),
{
    let mut line = text::joined("[error] MCP: Failed to spawn '", server_name);
    line.append("': command '");
    line.append(command);
    line.append("' not found (cwd: ");
    match cwd {
        Some(cwd) => line.append(cwd),
        None => line.append("<inherited from Warp's process cwd>"),
    }
    line.append(
        "). If your MCP server depends on a specific working directory, set the `working_directory` field in your config to override the default.",
    );
    line
}

/// How the identifier of a process is shown, where it is known.
pub open spec fn pid_display(pid: Option<u32>) -> Seq<char> {
    match pid {
        Some(pid) => text::decimal(pid as nat),
        None => "??"@,
    }
}

/// Shows the identifier of a process.
pub fn pid_text(pid: Option<u32>) -> (shown: String)
    ensures
        shown@ == pid_display(pid),
{
    match pid {
        Some(pid) => text::decimal_text(pid as u64),
        None => "??".to_owned(),
    }
}

/// What came of reading a line of the standard error of a child process.
#[derive(Debug, PartialEq, Eq)]
pub enum StderrRead {
    /// The end was reached.
    Eof,
    /// Some text was read.
    Data(String),
    /// Reading failed.
    Failed,
}

/// [`StderrRead`] by its contents.
pub enum StderrReadView {
    Eof,
    Data(Seq<char>),
    Failed,
}

impl DeepView for StderrRead {
    type V = StderrReadView;

    open spec fn deep_view(&self) -> StderrReadView {
        match self {
            StderrRead::Eof => StderrReadView::Eof,
            StderrRead::Data(text) => StderrReadView::Data(text@),
            StderrRead::Failed => StderrReadView::Failed,
        }
    }
}

/// The line that is logged of a text on the standard error of a process.
pub open spec fn stderr_line(pid: Seq<char>, text: Seq<char>) -> Seq<char> {
    "[info] MCP [pid: "@ + pid + "] stderr: "@ + text
}

/// What is logged of one read: the text that was read, and nothing where forwarding is
/// over.
pub open spec fn forwarded(pid: Seq<char>, read: StderrReadView) -> Option<Seq<char>> {
    match read {
        StderrReadView::Data(text) => Some(stderr_line(pid, text)),
        _ => None,
    }
}

/// Forwards what a child process writes to its standard error to a log.
#[derive(Debug, PartialEq, Eq)]
pub struct StderrForwarder {
    pub pid: String,
}

impl StderrForwarder {
    /// Forwards from the process that is shown in this way.
    pub fn new(pid: String) -> (forwarder: Self)
        ensures
            forwarder.pid == pid,
    {
        StderrForwarder { pid }
    }

    /// Takes what was read. Gives the line to log, or nothing where forwarding is over.
    pub fn forward(&self, read: StderrRead) -> (line: Option<String>)
        ensures
            line.deep_view() == forwarded(self.pid@, read.deep_view()),
    {
        match read {
            StderrRead::Data(text) => {
                let mut line = text::joined("[info] MCP [pid: ", self.pid.as_str());
                line.append("] stderr: ");
                line.append(text.as_str());
                Some(line)
            },
            _ => None,
        }
    }
}

/// What is logged of a sequence of reads, which is left off where forwarding is over.
pub open spec fn forwarded_lines(pid: Seq<char>, reads: Seq<StderrReadView>) -> Seq<Seq<char>>
    decreases reads.len(),
{
    if reads.len() == 0 {
        Seq::empty()
    } else {
        match forwarded(pid, reads[0]) {
            Some(line) => seq![line] + forwarded_lines(pid, reads.drop_first()),
            None => Seq::empty(),
        }
    }
}

/// Each text on the standard error is logged once, in order, and none after the end: of
/// some texts with whatever comes after the end behind them, exactly the texts are logged.
pub proof fn law_each_text_is_forwarded_once(
    pid: Seq<char>,
    texts: Seq<Seq<char>>,
    rest: Seq<StderrReadView>,
)
    requires
        rest.len() > 0 ==> !(rest[0] is Data),
    ensures
        forwarded_lines(
            pid,
            texts.map_values(|text: Seq<char>| StderrReadView::Data(text)) + rest,
        ) == texts.map_values(|text: Seq<char>| stderr_line(pid, text)),
    decreases texts.len(),
{
    let data = |text: Seq<char>| StderrReadView::Data(text);
    let line = |text: Seq<char>| stderr_line(pid, text);
    let reads = texts.map_values(data) + rest;
    if texts.len() == 0 {
        assert(reads =~= rest);
        assert(texts.map_values(line) =~= Seq::empty());
    } else {
        law_each_text_is_forwarded_once(pid, texts.drop_first(), rest);
        assert(reads.drop_first() =~= texts.drop_first().map_values(data) + rest);
        assert(texts.map_values(line) =~= seq![line(texts[0])] + texts.drop_first().map_values(
            line,
        ));
    }
}

/// Elsewhere than on Windows a command is started as it is configured. On Windows it goes
/// to the command interpreter, whose arguments are the command and then its arguments.
pub proof fn law_command_is_started_as_configured(command: Seq<char>, args: Seq<Seq<char>>)
    ensures
        program(false, command) == command,
        program_args(false, command, args) == args,
        program(true, command) == "cmd.exe"@,
        program_args(true, command, args).len() == args.len() + 2,
        program_args(true, command, args)[0] == "/c"@,
        program_args(true, command, args)[1] == command,
        forall|i: int|
            0 <= i < args.len() ==> #[trigger] program_args(true, command, args)[i + 2] == args[i],
{
}

/// The variables that are not empty are passed on, in their order, and each of the others
/// is named in a warning, in their order.
pub proof fn law_variables_are_parted_in_order(vars: Seq<EnvVarView>)
    ensures
        passed_env(vars) == vars.filter(|var: EnvVarView| var.value.len() > 0),
        env_warnings(vars) == vars.filter(|var: EnvVarView| var.value.len() == 0).map_values(
            |var: EnvVarView|
                "[warn] MCP: Skipping empty environment variable: "@ + var.name,
        ),
    decreases vars.len(),
{
    reveal(Seq::filter);
    let warning = |var: EnvVarView|
        "[warn] MCP: Skipping empty environment variable: "@ + var.name;
    let empty = |var: EnvVarView| var.value.len() == 0;
    if vars.len() > 0 {
        let rest = vars.drop_last();
        law_variables_are_parted_in_order(rest);
        assert(passed_env(vars) =~= vars.filter(|var: EnvVarView| var.value.len() > 0));
        assert(env_warnings(vars) =~= vars.filter(empty).map_values(warning));
    } else {
        assert(env_warnings(vars) =~= vars.filter(empty).map_values(warning));
    }
}

/// A program that is not found is told with its server, its command and its working
/// directory, each whole and unchanged; an inherited directory is told in words.
pub proof fn law_missing_program_is_told_with_its_place(
    server_name: Seq<char>,
    command: Seq<char>,
    cwd: Seq<char>,
)
    ensures
        command_not_found(server_name, command, Some(cwd)) == "[error] MCP: Failed to spawn '"@
            + server_name + "': command '"@ + command + "' not found (cwd: "@ + cwd
            + "). If your MCP server depends on a specific working directory, set the `working_directory` field in your config to override the default."@,
        command_not_found(server_name, command, None) == command_not_found(
            server_name,
            command,
            Some("<inherited from Warp's process cwd>"@),
        ),
{
}

/// A known process is shown by its number and an unknown one by question marks.
pub proof fn law_process_is_shown_by_its_number(pid: u32)
    ensures
        pid_display(Some(pid)) == text::decimal(pid as nat),
        pid_display(None) == "??"@,
{
}

/// A text on the standard error is logged whole and unchanged behind its process, and
/// nothing else is.
pub proof fn law_text_is_forwarded_whole(pid: Seq<char>, text: Seq<char>)
    ensures
        forwarded(pid, StderrReadView::Data(text)) == Some(
            "[info] MCP [pid: "@ + pid + "] stderr: "@ + text,
        ),
        forwarded(pid, StderrReadView::Eof) is None,
        forwarded(pid, StderrReadView::Failed) is None,
{
}

/// The view of a configured program, of a command and of a read holds all that is in it.
pub proof fn law_child_views_are_faithful(
    var: StaticEnvVar,
    server: CLIServer,
    command: ChildCommand,
    read: StderrRead,
)
    ensures
        var.deep_view().name == var.name@ && var.deep_view().value == var.value@,
        server.deep_view().command == server.command@,
        server.deep_view().args.len() == server.args@.len(),
        forall|i: int|
            0 <= i < server.args@.len() ==> #[trigger] server.deep_view().args[i]
                == server.args@[i]@,
        server.cwd_parameter matches Some(cwd) ==> server.deep_view().cwd_parameter == Some(cwd@),
        server.cwd_parameter is None ==> server.deep_view().cwd_parameter is None,
        server.deep_view().static_env_vars.len() == server.static_env_vars@.len(),
        forall|i: int|
            0 <= i < server.static_env_vars@.len() ==> #[trigger] server.deep_view().static_env_vars[i]
                == server.static_env_vars@[i].deep_view(),
        command.deep_view().command == command.command@,
        command.deep_view().args.len() == command.args@.len(),
        forall|i: int|
            0 <= i < command.args@.len() ==> #[trigger] command.deep_view().args[i]
                == command.args@[i]@,
        command.cwd matches Some(cwd) ==> command.deep_view().cwd == Some(cwd@),
        command.cwd is None ==> command.deep_view().cwd is None,
        command.deep_view().env.len() == command.env@.len(),
        forall|i: int|
            0 <= i < command.env@.len() ==> #[trigger] command.deep_view().env[i]
                == command.env@[i].deep_view(),
        match read {
            StderrRead::Eof => read.deep_view() is Eof,
            StderrRead::Data(text) => read.deep_view() == StderrReadView::Data(text@),
            StderrRead::Failed => read.deep_view() is Failed,
        },
{
}

} // verus!
