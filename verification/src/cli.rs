//! The CLI interface of chacc.

use vstd::prelude::*;
use crate::names::{name_views, same_bytes};
use crate::tokenize::lower::spells;

verus! {

/// Input file kind for [`CliInput`].
#[derive(Clone, Copy, Debug, PartialEq, Eq, Structural)]
pub enum CliInputKind {
    C,
    Assembler,
    Object,
}

/// Input file specified in CLI.
#[derive(Debug)]
pub struct CliInput {
    pub path: Vec<u8>,
    pub kind: CliInputKind,
}

/// The mathematical form of [`CliInput`].
pub struct CliInputView {
    pub path: Seq<u8>,
    pub kind: CliInputKind,
}

impl CliInput {
    pub open spec fn view(&self) -> CliInputView {
        CliInputView { path: self.path@, kind: self.kind }
    }
}

/// The inputs of a list, each in its mathematical form.
pub open spec fn input_views(inputs: Seq<CliInput>) -> Seq<CliInputView> {
    Seq::new(inputs.len(), |k: int| inputs[k]@)
}

/// Parsed CLI options and arguments.
#[derive(Debug)]
pub struct Cli {
    pub inputs: Vec<CliInput>,
    pub output: Option<Vec<u8>>,
    pub includes: Vec<Vec<u8>>,
    pub preprocess_only: bool,
    pub compile_only: bool,
    pub assemble_only: bool,
    /// The arguments of the compiled program, if it is to be run.
    pub auto_run: Option<Vec<Vec<u8>>>,
    pub tool_search_paths: Vec<Vec<u8>>,
    pub save_temps: bool,
    pub print_subprocess_commands: bool,
    pub pass_exit_codes: bool,
    pub cc1: bool,
}

/// The mathematical form of [`Cli`].
pub struct CliView {
    pub inputs: Seq<CliInputView>,
    pub output: Option<Seq<u8>>,
    pub includes: Seq<Seq<u8>>,
    pub preprocess_only: bool,
    pub compile_only: bool,
    pub assemble_only: bool,
    pub auto_run: Option<Seq<Seq<u8>>>,
    pub tool_search_paths: Seq<Seq<u8>>,
    pub save_temps: bool,
    pub print_subprocess_commands: bool,
    pub pass_exit_codes: bool,
    pub cc1: bool,
}

/// A path that may be missing, in its mathematical form.
pub open spec fn path_view(path: Option<Vec<u8>>) -> Option<Seq<u8>> {
    match path {
        Some(path) => Some(path@),
        None => None,
    }
}

/// Arguments that may be missing, in their mathematical form.
pub open spec fn args_view(args: Option<Vec<Vec<u8>>>) -> Option<Seq<Seq<u8>>> {
    match args {
        Some(args) => Some(name_views(args@)),
        None => None,
    }
}

/// An argument that is not written like an option.
#[derive(Clone, Copy, Debug, PartialEq, Eq, Structural)]
pub enum RawOption {
    /// "--", after which the arguments of the compiled program follow.
    Rest,
    Run,
    SaveTemps,
    PrintSubprocessCommands,
    PassExitCodes,
    Cc1,
}

/// What a raw argument means; "--" only means something here after "-run".
#[verifier::opaque]
pub open spec fn raw_option(arg: Seq<u8>, auto_run: bool) -> Option<RawOption> {
    if spells(arg, "--"@) && auto_run {
        Some(RawOption::Rest)
    } else if spells(arg, "-run"@) {
        Some(RawOption::Run)
    } else if spells(arg, "-save-temps"@) {
        Some(RawOption::SaveTemps)
    } else if spells(arg, "-###"@) {
        Some(RawOption::PrintSubprocessCommands)
    } else if spells(arg, "-pass-exit-codes"@) {
        Some(RawOption::PassExitCodes)
    } else if spells(arg, "-cc1"@) {
        Some(RawOption::Cc1)
    } else {
        None
    }
}

/// An option.
#[derive(Clone, Copy, Debug, PartialEq, Eq, Structural)]
pub enum CliOption {
    Output,
    IncludeDir,
    PreprocessOnly,
    CompileOnly,
    AssembleOnly,
    ToolSearchPath,
    PassExitCodes,
    Help,
}

/// The option of a letter.
pub open spec fn short_option(letter: char) -> Option<CliOption> {
    match letter {
        'o' => Some(CliOption::Output),
        'I' => Some(CliOption::IncludeDir),
        'E' => Some(CliOption::PreprocessOnly),
        'S' => Some(CliOption::CompileOnly),
        'c' => Some(CliOption::AssembleOnly),
        'B' => Some(CliOption::ToolSearchPath),
        'h' => Some(CliOption::Help),
        _ => None,
    }
}

/// The option of a word.
pub open spec fn long_option(word: Seq<u8>) -> Option<CliOption> {
    if spells(word, "help"@) {
        Some(CliOption::Help)
    } else if spells(word, "pass-exit-codes"@) {
        Some(CliOption::PassExitCodes)
    } else {
        None
    }
}

/// Whether an option is followed by a value.
pub open spec fn takes_value(option: CliOption) -> bool {
    match option {
        CliOption::Output | CliOption::IncludeDir | CliOption::ToolSearchPath => true,
        _ => false,
    }
}

/// The command line with one more option, and its value if it has one.
pub open spec fn with_option(cli: CliView, option: CliOption, value: Seq<u8>) -> CliView {
    match option {
        CliOption::Output => CliView { output: Some(value), ..cli },
        CliOption::IncludeDir => CliView { includes: cli.includes.push(value), ..cli },
        CliOption::PreprocessOnly => CliView { preprocess_only: true, ..cli },
        CliOption::CompileOnly => CliView { compile_only: true, ..cli },
        CliOption::AssembleOnly => CliView { assemble_only: true, ..cli },
        CliOption::ToolSearchPath => CliView {
            tool_search_paths: cli.tool_search_paths.push(value),
            ..cli
        },
        CliOption::PassExitCodes => CliView { pass_exit_codes: true, ..cli },
        CliOption::Help => cli,
    }
}

/// The command line with one more raw argument; the arguments after "--" are
/// those of the compiled program.
pub open spec fn with_raw(cli: CliView, option: RawOption, rest: Seq<Seq<u8>>) -> CliView {
    match option {
        RawOption::Rest => match cli.auto_run {
            Some(args) => CliView { auto_run: Some(args + rest), ..cli },
            None => cli,
        },
        RawOption::Run => CliView { auto_run: Some(Seq::empty()), ..cli },
        RawOption::SaveTemps => CliView { save_temps: true, ..cli },
        RawOption::PrintSubprocessCommands => CliView { print_subprocess_commands: true, ..cli },
        RawOption::PassExitCodes => CliView { pass_exit_codes: true, ..cli },
        RawOption::Cc1 => CliView { cc1: true, ..cli },
    }
}

/// The kind of an input by its path and the extension in it.
pub open spec fn input_kind(path: Seq<u8>, extension: Option<Seq<u8>>) -> CliInputKind {
    if spells(path, "-"@) {
        CliInputKind::C
    } else {
        match extension {
            Some(extension) => if spells(extension, "c"@) {
                CliInputKind::C
            } else if spells(extension, "s"@) {
                CliInputKind::Assembler
            } else {
                CliInputKind::Object
            },
            None => CliInputKind::Object,
        }
    }
}

/// What is wrong with a command line.
#[derive(Clone, Copy, Debug, PartialEq, Eq, Structural)]
pub enum CliError {
    Cc1Inputs,
    Cc1Output,
    OutputToStdout,
    NoInput,
    OutputWithMultipleFiles,
    RunWithoutLink,
}

impl CliError {
    /// The words of the error.
    pub open spec fn spec_text(self) -> Seq<char> {
        match self {
            CliError::Cc1Inputs => "cc1 mode expected exactly one input file"@,
            CliError::Cc1Output => "cc1 mode expects an output file"@,
            CliError::OutputToStdout => "'-S' or '-E' required when output is to stdout"@,
            CliError::NoInput => "no input file"@,
            CliError::OutputWithMultipleFiles => "cannot specify '-o' with '-c', '-S', or '-E' with multiple files"@,
            CliError::RunWithoutLink => "cannot specify '-run' with '-c', '-S', or '-E'"@,
        }
    }

    /// Return the words of the error.
    pub fn text(self) -> (r: &'static str)
        ensures
            r@ == self.spec_text(),
    {
        match self {
            CliError::Cc1Inputs => "cc1 mode expected exactly one input file",
            CliError::Cc1Output => "cc1 mode expects an output file",
            CliError::OutputToStdout => "'-S' or '-E' required when output is to stdout",
            CliError::NoInput => "no input file",
            CliError::OutputWithMultipleFiles => "cannot specify '-o' with '-c', '-S', or '-E' with multiple files",
            CliError::RunWithoutLink => "cannot specify '-run' with '-c', '-S', or '-E'",
        }
    }
}

/// Whether nothing is linked.
pub open spec fn stops_early(cli: CliView) -> bool {
    cli.preprocess_only || cli.compile_only || cli.assemble_only
}

/// Whether a command line is valid, or what is wrong with it first.
pub open spec fn validity(cli: CliView) -> Result<(), CliError> {
    if cli.cc1 && cli.inputs.len() != 1 {
        Err(CliError::Cc1Inputs)
    } else if cli.cc1 && cli.output is None {
        Err(CliError::Cc1Output)
    } else if !cli.cc1 && !cli.preprocess_only && !cli.compile_only && cli.output is Some && spells(
        cli.output.unwrap(),
        "-"@,
    ) {
        Err(CliError::OutputToStdout)
    } else if cli.inputs.len() == 0 {
        Err(CliError::NoInput)
    } else if cli.inputs.len() > 1 && cli.output is Some && stops_early(cli) {
        Err(CliError::OutputWithMultipleFiles)
    } else if cli.auto_run is Some && stops_early(cli) {
        Err(CliError::RunWithoutLink)
    } else {
        Ok(())
    }
}

/// A valid command line for the compiler proper has exactly one input, and an
/// output; and any valid command line has an input.
pub proof fn valid_command_lines_have_inputs(cli: CliView)
    requires
        validity(cli) is Ok,
    ensures
        cli.inputs.len() > 0,
        cli.cc1 ==> cli.inputs.len() == 1 && cli.output is Some,
{
}

/// Return what a raw argument means.
pub fn find_raw_option(arg: &[u8], auto_run: bool) -> (r: Option<RawOption>)
    ensures
        r == raw_option(arg@, auto_run),
{
    proof {
        reveal(raw_option);
    }
    if auto_run && same_bytes(arg, "--".as_bytes()) {
        Some(RawOption::Rest)
    } else if same_bytes(arg, "-run".as_bytes()) {
        Some(RawOption::Run)
    } else if same_bytes(arg, "-save-temps".as_bytes()) {
        Some(RawOption::SaveTemps)
    } else if same_bytes(arg, "-###".as_bytes()) {
        Some(RawOption::PrintSubprocessCommands)
    } else if same_bytes(arg, "-pass-exit-codes".as_bytes()) {
        Some(RawOption::PassExitCodes)
    } else if same_bytes(arg, "-cc1".as_bytes()) {
        Some(RawOption::Cc1)
    } else {
        None
    }
}

/// Return the option of a letter.
pub fn find_short_option(letter: char) -> (r: Option<CliOption>)
    ensures
        r == short_option(letter),
{
    match letter {
        'o' => Some(CliOption::Output),
        'I' => Some(CliOption::IncludeDir),
        'E' => Some(CliOption::PreprocessOnly),
        'S' => Some(CliOption::CompileOnly),
        'c' => Some(CliOption::AssembleOnly),
        'B' => Some(CliOption::ToolSearchPath),
        'h' => Some(CliOption::Help),
        _ => None,
    }
}

/// Return the option of a word.
pub fn find_long_option(word: &[u8]) -> (r: Option<CliOption>)
    ensures
        r == long_option(word@),
{
    if same_bytes(word, "help".as_bytes()) {
        Some(CliOption::Help)
    } else if same_bytes(word, "pass-exit-codes".as_bytes()) {
        Some(CliOption::PassExitCodes)
    } else {
        None
    }
}

impl CliOption {
    /// Return whether the option is followed by a value.
    pub fn takes_value(self) -> (r: bool)
        ensures
            r == takes_value(self),
    {
        match self {
            CliOption::Output | CliOption::IncludeDir | CliOption::ToolSearchPath => true,
            _ => false,
        }
    }
}

impl Cli {
    pub open spec fn view(&self) -> CliView {
        CliView {
            inputs: input_views(self.inputs@),
            output: path_view(self.output),
            includes: name_views(self.includes@),
            preprocess_only: self.preprocess_only,
            compile_only: self.compile_only,
            assemble_only: self.assemble_only,
            auto_run: args_view(self.auto_run),
            tool_search_paths: name_views(self.tool_search_paths@),
            save_temps: self.save_temps,
            print_subprocess_commands: self.print_subprocess_commands,
            pass_exit_codes: self.pass_exit_codes,
            cc1: self.cc1,
        }
    }

    /// An empty command line.
    pub fn new() -> (r: Cli)
        ensures
            r@ == (CliView {
                inputs: Seq::empty(),
                output: None,
                includes: Seq::empty(),
                preprocess_only: false,
                compile_only: false,
                assemble_only: false,
                auto_run: None,
                tool_search_paths: Seq::empty(),
                save_temps: false,
                print_subprocess_commands: false,
                pass_exit_codes: false,
                cc1: false,
            }),
    {
        let r = Cli {
            inputs: Vec::new(),
            output: None,
            includes: Vec::new(),
            preprocess_only: false,
            compile_only: false,
            assemble_only: false,
            auto_run: None,
            tool_search_paths: Vec::new(),
            save_temps: false,
            print_subprocess_commands: false,
            pass_exit_codes: false,
            cc1: false,
        };
        assert(r@.inputs =~= Seq::<CliInputView>::empty());
        assert(r@.includes =~= Seq::<Seq<u8>>::empty());
        assert(r@.tool_search_paths =~= Seq::<Seq<u8>>::empty());
        r
    }

    /// Add an option, and its value if it has one.
    pub fn add_option(&mut self, option: CliOption, value: Vec<u8>)
        ensures
            final(self)@ == with_option(old(self)@, option, value@),
    {
        let ghost bytes = value@;
        match option {
            CliOption::Output => {
                self.output = Some(value);
            },
            CliOption::IncludeDir => {
                self.includes.push(value);
                assert(self@.includes =~= old(self)@.includes.push(bytes));
            },
            CliOption::PreprocessOnly => {
                self.preprocess_only = true;
            },
            CliOption::CompileOnly => {
                self.compile_only = true;
            },
            CliOption::AssembleOnly => {
                self.assemble_only = true;
            },
            CliOption::ToolSearchPath => {
                self.tool_search_paths.push(value);
                assert(self@.tool_search_paths =~= old(self)@.tool_search_paths.push(bytes));
            },
            CliOption::PassExitCodes => {
                self.pass_exit_codes = true;
            },
            CliOption::Help => {},
        }
    }

    /// Add a raw argument; `rest` are the arguments after "--".
    pub fn add_raw(&mut self, option: RawOption, rest: Vec<Vec<u8>>)
        ensures
            final(self)@ == with_raw(old(self)@, option, name_views(rest@)),
    {
        match option {
            RawOption::Rest => {
                let mut rest = rest;
                let ghost added = name_views(rest@);
                match self.auto_run.take() {
                    Some(args) => {
                        let mut args = args;
                        let ghost before = name_views(args@);
                        args.append(&mut rest);
                        assert(name_views(args@) =~= before + added);
                        self.auto_run = Some(args);
                    },
                    None => {},
                }
            },
            RawOption::Run => {
                let none: Vec<Vec<u8>> = Vec::new();
                assert(name_views(none@) =~= Seq::<Seq<u8>>::empty());
                self.auto_run = Some(none);
            },
            RawOption::SaveTemps => {
                self.save_temps = true;
            },
            RawOption::PrintSubprocessCommands => {
                self.print_subprocess_commands = true;
            },
            RawOption::PassExitCodes => {
                self.pass_exit_codes = true;
            },
            RawOption::Cc1 => {
                self.cc1 = true;
            },
        }
    }

    /// Add an input by its path and the extension in it.
    pub fn add_input(&mut self, path: Vec<u8>, extension: Option<&[u8]>)
        ensures
            final(self)@ == (CliView {
                inputs: old(self)@.inputs.push(
                    CliInputView {
                        path: path@,
                        kind: input_kind(
                            path@,
                            match extension {
                                Some(extension) => Some(extension@),
                                None => None,
                            },
                        ),
                    },
                ),
                ..old(self)@
            }),
    {
        let kind = if same_bytes(path.as_slice(), "-".as_bytes()) {
            CliInputKind::C
        } else {
            match extension {
                Some(extension) => if same_bytes(extension, "c".as_bytes()) {
                    CliInputKind::C
                } else if same_bytes(extension, "s".as_bytes()) {
                    CliInputKind::Assembler
                } else {
                    CliInputKind::Object
                },
                None => CliInputKind::Object,
            }
        };
        let ghost added = CliInputView { path: path@, kind };
        self.inputs.push(CliInput { path, kind });
        assert(self@.inputs =~= old(self)@.inputs.push(added));
    }

    /// Validate the parsed CLI options and arguments.
    pub fn validate(&self) -> (r: Result<(), CliError>)
        ensures
            r == validity(self@),
    {
        if self.cc1 {
            if self.inputs.len() != 1 {
                return Err(CliError::Cc1Inputs);
            }
            if self.output.is_none() {
                return Err(CliError::Cc1Output);
            }
        }
        if !self.cc1 && !self.preprocess_only && !self.compile_only {
            if let Some(output) = &self.output {
                if same_bytes(output.as_slice(), "-".as_bytes()) {
                    return Err(CliError::OutputToStdout);
                }
            }
        }
        if self.inputs.len() == 0 {
            return Err(CliError::NoInput);
        }
        let stops_early = self.preprocess_only || self.compile_only || self.assemble_only;
        if self.inputs.len() > 1 && self.output.is_some() && stops_early {
            return Err(CliError::OutputWithMultipleFiles);
        }
        if self.auto_run.is_some() && stops_early {
            return Err(CliError::RunWithoutLink);
        }
        Ok(())
    }
}

/// Where the first of some things is that were found; `None` if none was.
pub open spec fn first_true(found: Seq<bool>, k: nat) -> Option<nat>
    decreases found.len() - k,
{
    if k >= found.len() {
        None
    } else if found[k as int] {
        Some(k)
    } else {
        first_true(found, k + 1)
    }
}

/// Return where the first of some things is that were found.
pub fn first_found(found: &Vec<bool>) -> (r: Option<usize>)
    ensures
        first_true(found@, 0) == (match r {
            Some(k) => Some(k as nat),
            None => None,
        }),
{
    let mut k: usize = 0;
    while k < found.len()
        invariant
            k <= found.len(),
            first_true(found@, 0) == first_true(found@, k as nat),
        decreases found.len() - k,
    {
        if found[k] {
            return Some(k);
        }
        k += 1;
    }
    None
}

} // verus!
