//! The tool selector: which formatter to run for a located configuration,
//! from where, and with which arguments.
//!
//! Two formatters are known. Biome comes first: its configuration is searched
//! for before Prettier's, and Prettier's only where Biome's is nowhere to be
//! found. The binary of the chosen formatter is the one installed beside the
//! configuration, under `node_modules/.bin`.

use vstd::prelude::*;
use crate::path::FsPath;
use crate::path::PathView;
use crate::path::strings_view;
use crate::locator::locate;
use crate::locator::lemma_first_present;
use crate::locator::lemma_probe_on_chain;
use crate::locator::probe_order;

verus! {

/// A formatter that can be dispatched to.
#[derive(Clone, Copy, Debug, PartialEq, Eq, Structural)]
pub enum Formatter {
    Biome,
    Prettier,
}

impl Formatter {
    /// The file names that mark a directory as configured for this formatter.
    pub open spec fn spec_config_names(self) -> Seq<Seq<char>> {
        match self {
            Formatter::Biome => seq!["biome.json"@],
            Formatter::Prettier => seq![
                ".prettierrc"@,
                ".prettierrc.json"@,
                ".prettierrc.cjs"@,
                ".prettierrc.js"@,
            ],
        }
    }

    /// The file name of the formatter's executable.
    pub open spec fn spec_binary_name(self) -> Seq<char> {
        match self {
            Formatter::Biome => "biome"@,
            Formatter::Prettier => "prettier"@,
        }
    }

    /// The executable that belongs to the configuration file `config`: the
    /// one under `node_modules/.bin` in the directory that holds `config`.
    pub open spec fn spec_binary_path(self, config: PathView) -> PathView {
        config.popped().join("node_modules"@).join(".bin"@).join(self.spec_binary_name())
    }

    /// The command-line arguments that make the formatter read standard input
    /// and treat it as the contents of `target`.
    pub open spec fn spec_arguments(self, target: Seq<char>) -> Seq<Seq<char>> {
        match self {
            Formatter::Biome => seq!["format"@, "--stdin-file-path"@, target],
            Formatter::Prettier => seq!["--stdin-filepath"@, target],
        }
    }

    /// The file names that mark a directory as configured for this formatter.
    pub fn config_names(self) -> (names: Vec<String>)
        ensures
            strings_view(names@) == self.spec_config_names(),
    {
        let mut names: Vec<String> = Vec::new();
        match self {
            Formatter::Biome => {
                names.push("biome.json".to_owned());
            },
            Formatter::Prettier => {
                names.push(".prettierrc".to_owned());
                names.push(".prettierrc.json".to_owned());
                names.push(".prettierrc.cjs".to_owned());
                names.push(".prettierrc.js".to_owned());
            },
        }
        assert(strings_view(names@) =~= self.spec_config_names());
        names
    }

    /// The file name of the formatter's executable.
    pub fn binary_name(self) -> (name: &'static str)
        ensures
            name@ == self.spec_binary_name(),
    {
        match self {
            Formatter::Biome => "biome",
            Formatter::Prettier => "prettier",
        }
    }

    /// The executable that belongs to the configuration file `config`.
    pub fn binary_path(self, config: &FsPath) -> (program: FsPath)
        ensures
            program@ == self.spec_binary_path(config@),
    {
        let mut program = config.clone();
        program.pop();
        program.push("node_modules");
        program.push(".bin");
        program.push(self.binary_name());
        program
    }

    /// The command-line arguments for formatting standard input as `target`.
    pub fn arguments(self, target: &str) -> (args: Vec<String>)
        ensures
            strings_view(args@) == self.spec_arguments(target@),
    {
        let mut args: Vec<String> = Vec::new();
        match self {
            Formatter::Biome => {
                args.push("format".to_owned());
                args.push("--stdin-file-path".to_owned());
            },
            Formatter::Prettier => {
                args.push("--stdin-filepath".to_owned());
            },
        }
        args.push(target.to_owned());
        assert(strings_view(args@) =~= self.spec_arguments(target@));
        args
    }

    /// The command that runs this formatter for the configuration `config`.
    pub fn invocation(self, config: &FsPath, target: &str) -> (command: Invocation)
        ensures
            command@ == InvocationView::of(self, config@, target@),
    {
        Invocation { program: self.binary_path(config), args: self.arguments(target) }
    }
}

/// The mathematical value of an [`Invocation`].
pub struct InvocationView {
    pub program: PathView,
    pub args: Seq<Seq<char>>,
}

impl InvocationView {
    /// The command that runs `tool` for the configuration `config` on input
    /// that stands for the file `target`.
    pub open spec fn of(tool: Formatter, config: PathView, target: Seq<char>) -> InvocationView {
        InvocationView {
            program: tool.spec_binary_path(config),
            args: tool.spec_arguments(target),
        }
    }
}

/// A command to run: the program and its arguments.
#[derive(Debug, PartialEq, Eq)]
pub struct Invocation {
    program: FsPath,
    args: Vec<String>,
}

impl View for Invocation {
    type V = InvocationView;

    closed spec fn view(&self) -> InvocationView {
        InvocationView { program: self.program@, args: strings_view(self.args@) }
    }
}

impl Invocation {
    /// The executable to run.
    pub fn program(&self) -> (program: &FsPath)
        ensures
            program@ == self@.program,
    {
        &self.program
    }

    /// The arguments to hand to it, in order.
    pub fn args(&self) -> (args: &Vec<String>)
        ensures
            strings_view(args@) == self@.args,
    {
        &self.args
    }
}

/// The command to run in a file system whose existing files are `fs`, for a
/// process that works in `start` and whose searches are bounded by `boundary`:
/// Biome where a Biome configuration is located, else Prettier where one of
/// its configurations is located, else nothing.
pub open spec fn plan(
    fs: Set<PathView>,
    start: PathView,
    boundary: PathView,
    target: Seq<char>,
) -> Option<InvocationView> {
    match locate(fs, start, boundary, Formatter::Biome.spec_config_names()) {
        Some(config) => Some(InvocationView::of(Formatter::Biome, config, target)),
        None => match locate(fs, start, boundary, Formatter::Prettier.spec_config_names()) {
            Some(config) => Some(InvocationView::of(Formatter::Prettier, config, target)),
            None => None,
        },
    }
}

/// The view of an optional command.
pub open spec fn command_view(command: Option<Invocation>) -> Option<InvocationView> {
    match command {
        Some(c) => Some(c@),
        None => None,
    }
}

/// A located Biome configuration selects Biome: the program is
/// `node_modules/.bin/biome` beside the configuration and the arguments are
/// `format --stdin-file-path <target>`, wherever the search started and
/// whatever bounded it.
pub proof fn lemma_biome_selected(
    fs: Set<PathView>,
    start: PathView,
    boundary: PathView,
    target: Seq<char>,
    config: PathView,
)
    requires
        locate(fs, start, boundary, Formatter::Biome.spec_config_names()) == Some(config),
    ensures
        config.has_parent(),
        plan(fs, start, boundary, target) == Some(
            InvocationView {
                program: config.parent().join("node_modules"@).join(".bin"@).join("biome"@),
                args: seq!["format"@, "--stdin-file-path"@, target],
            },
        ),
{
    let names = Formatter::Biome.spec_config_names();
    let at = lemma_first_present(fs, probe_order(start, boundary, names));
    let place = lemma_probe_on_chain(start, boundary, names, at);
}

/// Where no Biome configuration is located but a Prettier configuration is,
/// Prettier is selected: the program is `node_modules/.bin/prettier` beside
/// that configuration and the arguments are `--stdin-filepath <target>`.
pub proof fn lemma_prettier_selected(
    fs: Set<PathView>,
    start: PathView,
    boundary: PathView,
    target: Seq<char>,
    config: PathView,
)
    requires
        locate(fs, start, boundary, Formatter::Biome.spec_config_names()).is_none(),
        locate(fs, start, boundary, Formatter::Prettier.spec_config_names()) == Some(config),
    ensures
        config.has_parent(),
        plan(fs, start, boundary, target) == Some(
            InvocationView {
                program: config.parent().join("node_modules"@).join(".bin"@).join("prettier"@),
                args: seq!["--stdin-filepath"@, target],
            },
        ),
{
    let names = Formatter::Prettier.spec_config_names();
    let at = lemma_first_present(fs, probe_order(start, boundary, names));
    let place = lemma_probe_on_chain(start, boundary, names, at);
}

/// Nothing is selected exactly when neither formatter's configuration is
/// located.
pub proof fn lemma_nothing_selected(
    fs: Set<PathView>,
    start: PathView,
    boundary: PathView,
    target: Seq<char>,
)
    ensures
        plan(fs, start, boundary, target).is_none() <==> {
            &&& locate(fs, start, boundary, Formatter::Biome.spec_config_names()).is_none()
            &&& locate(fs, start, boundary, Formatter::Prettier.spec_config_names()).is_none()
        },
{
}

} // verus!
