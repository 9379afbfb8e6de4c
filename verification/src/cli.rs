//! The run modes the command line denotes, decided from already-parsed
//! flag values: filtering manifests to a script, compiling-and-running
//! directly, treating the input as a plain shell script, or running a
//! single code or data entry.

use vstd::prelude::*;

verus! {

/// Where a manifest or script is read from: a named file, or standard
/// input.
#[derive(Clone)]
pub enum Input {
    File(String),
    StdIO,
}

#[verifier::ext_equal]
pub enum InputV {
    File(Seq<char>),
    StdIO,
}

impl View for Input {
    type V = InputV;

    open spec fn view(&self) -> InputV {
        match *self {
            Input::File(s) => InputV::File(s@),
            Input::StdIO => InputV::StdIO,
        }
    }
}

/// `-` names standard input; any other string names a file.
pub open spec fn spec_input_of(s: Seq<char>) -> InputV {
    if s == "-"@ {
        InputV::StdIO
    } else {
        InputV::File(s)
    }
}

/// An absent string also names standard input.
pub open spec fn spec_input_of_opt(s: Option<Seq<char>>) -> InputV {
    match s {
        Some(v) => spec_input_of(v),
        None => InputV::StdIO,
    }
}

impl Input {
    /// The input a string names.
    pub fn of_string(s: String) -> (r: Input)
        ensures
            r@ == spec_input_of(s@),
    {
        if crate::str_eq(s.as_str(), "-") {
            Input::StdIO
        } else {
            Input::File(s)
        }
    }

    /// The input an optional string names.
    pub fn of_option(s: Option<String>) -> (r: Input)
        ensures
            r@ == spec_input_of_opt(s.deep_view()),
    {
        match s {
            Some(v) => Input::of_string(v),
            None => Input::StdIO,
        }
    }
}

/// What a run does: filter manifests into a script, treat the input as a
/// shell script, compile-and-run directly (`Execute*`), or run one code or
/// data entry.
pub enum Mode {
    Filter(Vec<Input>),
    Shell(Input),
    Execute(Input, Vec<String>),
    ExecuteShell(Input, Vec<String>),
    Code(String, Vec<String>),
    Data(String, Option<String>),
}

#[verifier::ext_equal]
pub enum ModeV {
    Filter(Seq<InputV>),
    Shell(InputV),
    Execute(InputV, Seq<Seq<char>>),
    ExecuteShell(InputV, Seq<Seq<char>>),
    Code(Seq<char>, Seq<Seq<char>>),
    Data(Seq<char>, Option<Seq<char>>),
}

impl View for Mode {
    type V = ModeV;

    open spec fn view(&self) -> ModeV {
        match *self {
            Mode::Filter(v) => ModeV::Filter(Seq::new(v@.len(), |i: int| v@[i]@)),
            Mode::Shell(i) => ModeV::Shell(i@),
            Mode::Execute(i, a) => ModeV::Execute(i@, a.deep_view()),
            Mode::ExecuteShell(i, a) => ModeV::ExecuteShell(i@, a.deep_view()),
            Mode::Code(c, a) => ModeV::Code(c@, a.deep_view()),
            Mode::Data(u, d) => ModeV::Data(u@, d.deep_view()),
        }
    }
}

/// An already-parsed subcommand: run one code entry by name, or one data
/// fetch with an optional destination.
pub enum SubArgs {
    Code { cmd: String, args: Vec<String> },
    Data { url: String, destination: Option<String> },
}

#[verifier::ext_equal]
pub enum SubArgsV {
    Code(Seq<char>, Seq<Seq<char>>),
    Data(Seq<char>, Option<Seq<char>>),
}

impl View for SubArgs {
    type V = SubArgsV;

    open spec fn view(&self) -> SubArgsV {
        match *self {
            SubArgs::Code { cmd, args } => SubArgsV::Code(cmd@, args.deep_view()),
            SubArgs::Data { url, destination } => SubArgsV::Data(url@, destination.deep_view()),
        }
    }
}

pub open spec fn spec_sub_view(s: Option<SubArgs>) -> Option<SubArgsV> {
    match s {
        Some(a) => Some(a@),
        None => None,
    }
}

/// The mode the parsed command line denotes.  A subcommand wins; otherwise
/// the first free string (or standard input) is the program, the remaining
/// strings its arguments, and the `-f`/`-s` flags pick the mode; with
/// neither flag every string names a manifest to filter.
pub open spec fn spec_mode_of(
    execute: bool,
    shell: bool,
    strings: Seq<Seq<char>>,
    sub: Option<SubArgsV>,
) -> ModeV {
    match sub {
        Some(SubArgsV::Code(c, a)) => ModeV::Code(c, a),
        Some(SubArgsV::Data(u, d)) => ModeV::Data(u, d),
        None => {
            let cmd = if strings.len() > 0 {
                spec_input_of(strings[0])
            } else {
                InputV::StdIO
            };
            let argv = if strings.len() > 0 {
                strings.skip(1)
            } else {
                Seq::empty()
            };
            if execute && shell {
                ModeV::ExecuteShell(cmd, argv)
            } else if execute {
                ModeV::Execute(cmd, argv)
            } else if shell {
                ModeV::Shell(cmd)
            } else {
                ModeV::Filter(Seq::new(strings.len(), |i: int| spec_input_of(strings[i])))
            }
        },
    }
}

impl Mode {
    /// Decide the run mode from the parsed command line.  The shell mode
    /// without `-f` accepts at most one free string.
    pub fn of_args(execute: bool, shell: bool, strings: Vec<String>, sub: Option<SubArgs>) -> (m:
        Mode)
        requires
            shell && !execute && sub is None ==> strings@.len() <= 1,
        ensures
            m@ == spec_mode_of(execute, shell, strings.deep_view(), spec_sub_view(sub)),
    {
        match sub {
            Some(SubArgs::Code { cmd, args }) => Mode::Code(cmd, args),
            Some(SubArgs::Data { url, destination }) => Mode::Data(url, destination),
            None => {
                if execute || shell {
                    let argv = crate::tail(&strings);
                    let cmd = if strings.len() > 0 {
                        let first = strings[0].clone();
                        Input::of_string(first)
                    } else {
                        Input::StdIO
                    };
                    proof {
                        if strings@.len() == 0 {
                            assert(argv.deep_view() =~= Seq::<Seq<char>>::empty());
                        }
                    }
                    if execute && shell {
                        Mode::ExecuteShell(cmd, argv)
                    } else if execute {
                        Mode::Execute(cmd, argv)
                    } else {
                        Mode::Shell(cmd)
                    }
                } else {
                    let mut inputs: Vec<Input> = Vec::new();
                    let mut i: usize = 0;
                    while i < strings.len()
                        invariant
                            i <= strings@.len(),
                            strings.deep_view().len() == strings@.len(),
                            inputs@.len() == i,
                            forall|j: int|
                                0 <= j < i ==> #[trigger] inputs@[j]@ == spec_input_of(
                                    strings.deep_view()[j],
                                ),
                        decreases strings.len() - i,
                    {
                        let s = strings[i].clone();
                        inputs.push(Input::of_string(s));
                        i = i + 1;
                    }
                    let m = Mode::Filter(inputs);
                    proof {
                        assert(m@ =~= spec_mode_of(
                            execute,
                            shell,
                            strings.deep_view(),
                            spec_sub_view(None),
                        ));
                    }
                    m
                }
            },
        }
    }
}

} // verus!
