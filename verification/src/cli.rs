//! Command-line configuration: the parsed arguments and the decisions
//! made from them. Parsing itself and all input/output live with the
//! surrounding program; this module holds the plain values and rules.

use vstd::prelude::*;

verus! {

/// Logging verbosity, most to least verbose.
#[derive(Clone, Copy, Debug, PartialEq, Eq, Structural)]
pub enum LogLevel {
    Trace,
    Debug,
    Info,
    Warn,
    Error,
}

/// Where the program text comes from.
#[derive(Clone, Copy, Debug, PartialEq, Eq, Structural)]
pub enum ProgramSource {
    /// Code given inline on the command line.
    Inline,
    /// A program file named on the command line.
    File,
    /// Standard input.
    Stdin,
}

/// The program's parsed command-line arguments.
pub struct Args {
    /// Path to a program to execute.
    pub path: Option<String>,
    /// Code to run; overrides files and standard input.
    pub code: Option<String>,
    /// Enter the interactive prompt after executing the program.
    pub repl: bool,
    /// Verbose output: equivalent to the trace log level.
    pub verbose: bool,
    /// Disassemble the input program.
    pub disassemble: bool,
    /// Log level to use.
    pub level: LogLevel,
}

impl Args {
    /// Assemble arguments from their parts.
    pub fn new(
        path: Option<String>,
        code: Option<String>,
        repl: bool,
        verbose: bool,
        disassemble: bool,
        level: LogLevel,
    ) -> (args: Args)
        ensures
            args.path == path,
            args.code == code,
            args.repl == repl,
            args.verbose == verbose,
            args.disassemble == disassemble,
            args.level == level,
    {
        Args { path, code, repl, verbose, disassemble, level }
    }

    /// The log level the arguments ask for.
    pub fn log_level(&self) -> (level: LogLevel)
        ensures
            level == self.level,
    {
        self.level
    }

    /// The level logging is initialized with: the verbose switch
    /// forces the trace level, whatever level was chosen.
    pub fn effective_log_level(&self) -> (level: LogLevel)
        ensures
            level == if self.verbose {
                LogLevel::Trace
            } else {
                self.level
            },
    {
        if self.verbose {
            LogLevel::Trace
        } else {
            self.level
        }
    }

    /// Where the program text is read from: inline code overrides a
    /// program file, and a program file overrides standard input.
    pub fn program_source(&self) -> (source: ProgramSource)
        ensures
            source == if self.code is Some {
                ProgramSource::Inline
            } else if self.path is Some {
                ProgramSource::File
            } else {
                ProgramSource::Stdin
            },
    {
        if self.code.is_some() {
            ProgramSource::Inline
        } else if self.path.is_some() {
            ProgramSource::File
        } else {
            ProgramSource::Stdin
        }
    }
}

} // verus!
