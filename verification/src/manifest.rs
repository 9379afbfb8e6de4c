//! The in-memory shape of a validated manifest: ordered code entries and
//! ordered data entries, an optional working-directory override, an
//! environment overlay, and an optional label.  Entry order is significant
//! and preserved end-to-end; the structure is immutable once built.

use vstd::prelude::*;

use crate::sources::Source;
use crate::sources::SourceV;

verus! {

/// Kinds of program:
/// * a simple shell word, or
/// * a reference to a file source that must be prepared and extracted to
///   yield an executable path before the step can run.
pub enum Cmd {
    Word(String),
    Source(Source),
}

/// One executable step: a command plus its ordered arguments.
pub struct Code {
    pub cmd: Cmd,
    pub args: Vec<String>,
}

/// One materialization step: a source plus an optional destination path.
/// An absent destination means the run's working directory.
pub struct Data {
    pub destination: Option<String>,
    pub source: Source,
}

/// The validated, ordered description of code and data steps to execute.
/// The environment overlay maps a name to a value, or to nothing for an
/// explicit unset.
pub struct Manifest {
    pub pwd: Option<String>,
    pub env: Vec<(String, Option<String>)>,
    pub code: Vec<Code>,
    pub data: Vec<Data>,
    pub label: Option<String>,
}

#[verifier::ext_equal]
pub enum CmdV {
    Word(Seq<char>),
    Source(SourceV),
}

#[verifier::ext_equal]
pub struct CodeV {
    pub cmd: CmdV,
    pub args: Seq<Seq<char>>,
}

#[verifier::ext_equal]
pub struct DataV {
    pub destination: Option<Seq<char>>,
    pub source: SourceV,
}

#[verifier::ext_equal]
pub struct ManifestV {
    pub pwd: Option<Seq<char>>,
    pub env: Seq<(Seq<char>, Option<Seq<char>>)>,
    pub code: Seq<CodeV>,
    pub data: Seq<DataV>,
    pub label: Option<Seq<char>>,
}

impl View for Cmd {
    type V = CmdV;

    open spec fn view(&self) -> CmdV {
        match *self {
            Cmd::Word(w) => CmdV::Word(w@),
            Cmd::Source(s) => CmdV::Source(s@),
        }
    }
}

impl View for Code {
    type V = CodeV;

    open spec fn view(&self) -> CodeV {
        CodeV { cmd: self.cmd@, args: self.args.deep_view() }
    }
}

impl View for Data {
    type V = DataV;

    open spec fn view(&self) -> DataV {
        DataV { destination: self.destination.deep_view(), source: self.source@ }
    }
}

impl View for Manifest {
    type V = ManifestV;

    open spec fn view(&self) -> ManifestV {
        ManifestV {
            pwd: self.pwd.deep_view(),
            env: Seq::new(self.env@.len(), |i: int| (self.env@[i].0@, self.env@[i].1.deep_view())),
            code: Seq::new(self.code@.len(), |i: int| self.code@[i]@),
            data: Seq::new(self.data@.len(), |i: int| self.data@[i]@),
            label: self.label.deep_view(),
        }
    }
}

impl Manifest {
    /// A manifest with the given steps and no overrides.
    pub fn new(code: Vec<Code>, data: Vec<Data>) -> (m: Manifest)
        ensures
            m@.pwd is None,
            m@.env.len() == 0,
            m@.label is None,
            m@.code == Seq::new(code@.len(), |i: int| code@[i]@),
            m@.data == Seq::new(data@.len(), |i: int| data@[i]@),
    {
        Manifest { pwd: None, env: Vec::new(), code, data, label: None }
    }
}

} // verus!
