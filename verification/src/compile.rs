//! The compiler/executor: walks a manifest, resolves each source-backed
//! command to a local path, and produces the run's plan — the ordered data
//! materializations, the sources commands need, and the argument vectors —
//! which is either rendered to a standalone script or driven directly with
//! first-failure-terminates semantics.

use vstd::prelude::*;
use vstd::string::StringExecFns;

use crate::bash::and_chain;
use crate::bash::first_fail;
use crate::bash::frag_eval;
use crate::bash::lemma_chain_short_circuit;
use crate::bash::plan_launched;
use crate::bash::plan_status;
use crate::bash::render;
use crate::bash::spec_and_chain;
use crate::bash::spec_render;
use crate::manifest::Cmd;
use crate::manifest::CmdV;
use crate::manifest::Code;
use crate::manifest::CodeV;
use crate::manifest::Data;
use crate::manifest::DataV;
use crate::manifest::Manifest;
use crate::sources::cache_key;
use crate::sources::spec_cache_key;
use crate::sources::InlineFile;
use crate::sources::LinkSource;
use crate::sources::Source;
use crate::sources::SourceV;

verus! {

// ---------------------------------------------------------------------------
// Destination defaulting.
// ---------------------------------------------------------------------------
/// Where a data entry is extracted: its destination when it names one, else
/// the run's working directory.
pub open spec fn spec_extract_target(dest: Option<Seq<char>>, workdir: Seq<char>) -> Seq<char> {
    match dest {
        Some(d) => d,
        None => workdir,
    }
}

/// The path a data entry's extraction targets.
pub fn extract_target(dest: &Option<String>, workdir: &str) -> (t: String)
    ensures
        t@ == spec_extract_target(dest.deep_view(), workdir@),
{
    match dest {
        Some(d) => d.clone(),
        None => workdir.to_owned(),
    }
}

// ---------------------------------------------------------------------------
// Duplicating plan pieces out of the borrowed manifest.
// ---------------------------------------------------------------------------
fn dup_bytes(v: &Vec<u8>) -> (r: Vec<u8>)
    ensures
        r@ == v@,
{
    let mut r: Vec<u8> = Vec::new();
    let mut i: usize = 0;
    while i < v.len()
        invariant
            i <= v.len(),
            r@ == v@.take(i as int),
        decreases v.len() - i,
    {
        r.push(v[i]);
        proof {
            assert(r@ =~= v@.take(i as int + 1));
        }
        i = i + 1;
    }
    proof {
        assert(v@.take(v@.len() as int) =~= v@);
    }
    r
}

fn dup_source(s: &Source) -> (r: Source)
    ensures
        r@ == s@,
{
    match s {
        Source::Inline(f) => Source::Inline(
            InlineFile { data: dup_bytes(&f.data), formerly: f.formerly },
        ),
        Source::Link(l) => Source::Link(LinkSource { url: l.url.clone() }),
    }
}

fn dup_data(d: &Data) -> (r: Data)
    ensures
        r@ == d@,
{
    let dest = match &d.destination {
        Some(p) => Some(p.clone()),
        None => None,
    };
    Data { destination: dest, source: dup_source(&d.source) }
}

// ---------------------------------------------------------------------------
// Resolving commands.
// ---------------------------------------------------------------------------
/// The local file name a source-backed command is extracted to: the cache
/// key of its URL, or a fixed name for an inline payload.
pub open spec fn spec_resolved_name(s: SourceV) -> Seq<char> {
    match s {
        SourceV::Link(u) => spec_cache_key(u),
        SourceV::Inline(_, _) => "payload"@,
    }
}

/// The shell word a command resolves to: a literal word stands as is; a
/// source-backed command becomes the relative path of its extracted file.
pub open spec fn spec_cmd_word(c: CmdV) -> Seq<char> {
    match c {
        CmdV::Word(w) => w,
        CmdV::Source(s) => "./"@ + spec_resolved_name(s),
    }
}

/// The argument vector of one code entry: the resolved command word
/// followed by the entry's arguments, in order.
pub open spec fn spec_argv_of(c: CodeV) -> Seq<Seq<char>> {
    seq![spec_cmd_word(c.cmd)] + c.args
}

/// The argument vectors of a whole code section, in manifest order.
pub open spec fn spec_plan_argvs(code: Seq<CodeV>) -> Seq<Seq<Seq<char>>> {
    Seq::new(code.len(), |i: int| spec_argv_of(code[i]))
}

/// The sources that must be prepared and extracted to run the code
/// section's source-backed commands, in manifest order, each with the local
/// file name it must land at.
pub open spec fn spec_code_sources(code: Seq<CodeV>) -> Seq<(SourceV, Seq<char>)>
    decreases code.len(),
{
    if code.len() == 0 {
        Seq::empty()
    } else {
        spec_code_sources(code.drop_last()) + (match code.last().cmd {
            CmdV::Source(s) => seq![(s, spec_resolved_name(s))],
            CmdV::Word(_) => Seq::empty(),
        })
    }
}

fn resolved_name(s: &Source) -> (r: String)
    ensures
        r@ == spec_resolved_name(s@),
{
    match s {
        Source::Link(l) => cache_key(l.url.as_str()),
        Source::Inline(_) => "payload".to_owned(),
    }
}

fn argv_of_code(c: &Code) -> (r: Vec<String>)
    ensures
        r.deep_view() == spec_argv_of(c@),
{
    let word = match &c.cmd {
        Cmd::Word(w) => w.clone(),
        Cmd::Source(s) => {
            let mut p = "./".to_owned();
            let name = resolved_name(s);
            p.append(name.as_str());
            p
        },
    };
    let mut r: Vec<String> = Vec::new();
    let ghost e0 = r@;
    r.push(word);
    proof {
        crate::lemma_deep_view_push(e0, r@, word);
        assert(r.deep_view() =~= seq![spec_cmd_word(c@.cmd)]);
    }
    let mut i: usize = 0;
    while i < c.args.len()
        invariant
            i <= c.args@.len(),
            r.deep_view() =~= seq![spec_cmd_word(c@.cmd)] + c.args.deep_view().take(i as int),
            c.args.deep_view().len() == c.args@.len(),
        decreases c.args.len() - i,
    {
        let a = c.args[i].clone();
        let ghost pre = r@;
        r.push(a);
        proof {
            crate::lemma_deep_view_push(pre, r@, a);
            assert(a.deep_view() == c.args.deep_view()[i as int]);
            assert(r.deep_view() =~= seq![spec_cmd_word(c@.cmd)] + c.args.deep_view().take(
                i as int + 1,
            ));
        }
        i = i + 1;
    }
    proof {
        assert(c.args.deep_view().take(c.args@.len() as int) =~= c.args.deep_view());
        assert(r.deep_view() =~= spec_argv_of(c@));
    }
    r
}

// ---------------------------------------------------------------------------
// The compiled plan.
// ---------------------------------------------------------------------------
/// The executable plan a manifest compiles to: the data materializations in
/// manifest order, the sources the code section's commands need, and the
/// commands' argument vectors in manifest order.
pub struct Plan {
    pub data: Vec<Data>,
    pub code_sources: Vec<(Source, String)>,
    pub argvs: Vec<Vec<String>>,
}

impl Plan {
    pub open spec fn sources_view(self) -> Seq<(SourceV, Seq<char>)> {
        Seq::new(self.code_sources@.len(), |i: int| (self.code_sources@[i].0@, self.code_sources@[i].1@))
    }
}

/// Compile a manifest into its plan.  Every entry of both sections is
/// carried over, in manifest order; nothing is deduplicated.
pub fn compile(m: &Manifest) -> (p: Plan)
    ensures
        p.data@.len() == m@.data.len(),
        forall|i: int| 0 <= i < m@.data.len() ==> #[trigger] p.data@[i]@ == m@.data[i],
        p.argvs.deep_view() == spec_plan_argvs(m@.code),
        p.sources_view() == spec_code_sources(m@.code),
{
    let mut data: Vec<Data> = Vec::new();
    let mut i: usize = 0;
    while i < m.data.len()
        invariant
            i <= m.data@.len(),
            m@.data.len() == m.data@.len(),
            data@.len() == i,
            forall|j: int| 0 <= j < i ==> #[trigger] data@[j]@ == m@.data[j],
        decreases m.data.len() - i,
    {
        let d = dup_data(&m.data[i]);
        proof {
            assert(m@.data[i as int] == m.data@[i as int]@);
        }
        data.push(d);
        i = i + 1;
    }
    let mut argvs: Vec<Vec<String>> = Vec::new();
    let mut code_sources: Vec<(Source, String)> = Vec::new();
    let mut k: usize = 0;
    while k < m.code.len()
        invariant
            k <= m.code@.len(),
            m@.code.len() == m.code@.len(),
            argvs.deep_view() =~= spec_plan_argvs(m@.code.take(k as int)),
            Seq::new(
                code_sources@.len(),
                |i: int| (code_sources@[i].0@, code_sources@[i].1@),
            ) =~= spec_code_sources(m@.code.take(k as int)),
        decreases m.code.len() - k,
    {
        let c = &m.code[k];
        proof {
            assert(m@.code[k as int] == m.code@[k as int]@);
        }
        let a = argv_of_code(c);
        let ghost pre = argvs@;
        argvs.push(a);
        proof {
            crate::lemma_deep_view_push(pre, argvs@, a);
            assert(m@.code.take(k as int + 1).drop_last() =~= m@.code.take(k as int));
            assert forall|j: int| 0 <= j < k as int + 1 implies #[trigger] spec_plan_argvs(
                m@.code.take(k as int + 1),
            )[j] == argvs.deep_view()[j] by {
                assert(m@.code.take(k as int + 1)[j] == m@.code[j]);
            }
            assert(argvs.deep_view() =~= spec_plan_argvs(m@.code.take(k as int + 1)));
        }
        match &c.cmd {
            Cmd::Source(s) => {
                let ghost cpre = code_sources@;
                code_sources.push((dup_source(s), resolved_name(s)));
                proof {
                    assert(code_sources@.drop_last() == cpre);
                    assert(m@.code.take(k as int + 1).last() == m@.code[k as int]);
                    assert(Seq::new(
                        code_sources@.len(),
                        |i: int| (code_sources@[i].0@, code_sources@[i].1@),
                    ) =~= spec_code_sources(m@.code.take(k as int + 1)));
                }
            },
            Cmd::Word(_) => {
                proof {
                    assert(m@.code.take(k as int + 1).last() == m@.code[k as int]);
                    assert(Seq::new(
                        code_sources@.len(),
                        |i: int| (code_sources@[i].0@, code_sources@[i].1@),
                    ) =~= spec_code_sources(m@.code.take(k as int + 1)));
                }
            },
        }
        k = k + 1;
    }
    proof {
        assert(m@.code.take(m@.code.len() as int) =~= m@.code);
        assert(m@.data.len() == data@.len());
    }
    Plan { data, code_sources, argvs }
}

// ---------------------------------------------------------------------------
// Script generation.
// ---------------------------------------------------------------------------
/// The text a code section compiles to: the interpreter directive alone for
/// an empty section — an effectively empty script — else the AND-chain of
/// every command, so the script itself halts at the first failure.
pub open spec fn spec_script(code: Seq<CodeV>) -> Seq<char> {
    if code.len() == 0 {
        "#!/bin/sh\n"@
    } else {
        "#!/bin/sh\n"@ + spec_render(spec_and_chain(spec_plan_argvs(code))) + "\n"@
    }
}

/// Render a manifest's code section to a standalone POSIX script.
pub fn script(m: &Manifest) -> (s: String)
    ensures
        s@ == spec_script(m@.code),
{
    let plan = compile(m);
    let mut s = "#!/bin/sh\n".to_owned();
    if plan.argvs.len() == 0 {
        proof {
            assert(spec_plan_argvs(m@.code).len() == m@.code.len());
        }
        return s;
    }
    let chain = and_chain(plan.argvs);
    let body = render(&chain);
    s.append(body.as_str());
    s.append("\n");
    s
}

// ---------------------------------------------------------------------------
// Direct execution.
// ---------------------------------------------------------------------------
proof fn lemma_first_fail_all_zero(st: Seq<u32>)
    requires
        forall|i: int| 0 <= i < st.len() ==> st[i] == 0,
    ensures
        first_fail(st) is None,
    decreases st.len(),
{
    if st.len() > 0 {
        lemma_first_fail_all_zero(st.skip(1));
    }
}

proof fn lemma_first_fail_at_last(st: Seq<u32>)
    requires
        st.len() > 0,
        st.last() != 0,
        forall|i: int| 0 <= i < st.len() - 1 ==> st[i] == 0,
    ensures
        first_fail(st) == Some(st.len() - 1),
    decreases st.len(),
{
    if st.len() > 1 {
        lemma_first_fail_at_last(st.skip(1));
    }
}

/// The running state of direct execution: the plan's argument vectors, how
/// many commands have been launched, and the first failing status if one
/// has occurred.  The ghost record of reported statuses ties the state to
/// the plan semantics.
pub struct Run {
    pub argvs: Vec<Vec<String>>,
    pub launched: usize,
    pub failure: Option<u32>,
    pub statuses: Ghost<Seq<u32>>,
}

impl Run {
    pub open spec fn wf(self) -> bool {
        &&& self.statuses@.len() <= self.argvs@.len()
        &&& self.launched == self.statuses@.len()
        &&& match self.failure {
            None => forall|i: int| 0 <= i < self.statuses@.len() ==> self.statuses@[i] == 0,
            Some(e) => self.statuses@.len() > 0 && self.statuses@.last() == e && e != 0 && (
            forall|i: int| 0 <= i < self.statuses@.len() - 1 ==> self.statuses@[i] == 0),
        }
    }

    /// Begin a run of the given plan: nothing launched, nothing failed.
    pub fn new(argvs: Vec<Vec<String>>) -> (r: Run)
        ensures
            r.wf(),
            r.argvs == argvs,
            r.statuses@ == Seq::<u32>::empty(),
            r.launched == 0,
            r.failure is None,
    {
        Run { argvs, launched: 0, failure: None, statuses: Ghost(Seq::empty()) }
    }

    /// The next command to launch: the first entry not yet run, unless a
    /// failure has already stopped the run or every entry has run.
    pub fn next_command(&self) -> (r: Option<&Vec<String>>)
        requires
            self.wf(),
        ensures
            match r {
                Some(a) => self.failure is None && self.launched < self.argvs@.len() && *a
                    == self.argvs@[self.launched as int],
                None => self.failure is Some || self.launched == self.argvs@.len(),
            },
    {
        match self.failure {
            Some(_) => None,
            None => {
                if self.launched < self.argvs.len() {
                    Some(&self.argvs[self.launched])
                } else {
                    None
                }
            },
        }
    }

    /// Record the status the launched command exited with.  A non-zero
    /// status becomes the run's failure and stops the run: nothing after
    /// the failing entry executes.
    pub fn report(&mut self, status: u32)
        requires
            old(self).wf(),
            old(self).failure is None,
            old(self).launched < old(self).argvs@.len(),
        ensures
            final(self).wf(),
            final(self).argvs == old(self).argvs,
            final(self).statuses@ == old(self).statuses@.push(status),
            final(self).launched == old(self).launched + 1,
            final(self).failure == if status != 0 {
                Some(status)
            } else {
                None::<u32>
            },
    {
        let _n: usize = self.argvs.len();
        self.launched = self.launched + 1;
        proof {
            self.statuses@ = self.statuses@.push(status);
        }
        if status != 0 {
            self.failure = Some(status);
        }
    }

    /// The run's terminal status, once no command is left to launch: the
    /// first failing status, or success when every entry succeeded or the
    /// plan was empty.  Equals the plan semantics of the reported statuses.
    pub fn outcome(&self) -> (r: Option<u32>)
        requires
            self.wf(),
        ensures
            match r {
                Some(st) => (self.failure is Some || self.launched == self.argvs@.len()) && st
                    == plan_status(self.statuses@),
                None => self.failure is None && self.launched < self.argvs@.len(),
            },
    {
        match self.failure {
            Some(e) => {
                proof {
                    lemma_first_fail_at_last(self.statuses@);
                }
                Some(e)
            },
            None => {
                if self.launched == self.argvs.len() {
                    proof {
                        lemma_first_fail_all_zero(self.statuses@);
                    }
                    Some(0)
                } else {
                    None
                }
            },
        }
    }
}

/// Script generation and direct execution agree on a compiled code
/// section.  Against any statuses its commands would return, the AND-chain
/// the script renders launches exactly the entries up to and including the
/// first failing one — after a failing entry nothing executes — and its
/// status is the first failing status, or success; `Run` reports the same
/// `plan_status` and launches the same `plan_launched` entries.
pub proof fn lemma_script_direct_agree(code: Seq<CodeV>, st: Seq<u32>)
    requires
        code.len() > 0,
        st.len() == code.len(),
    ensures
        frag_eval(spec_and_chain(spec_plan_argvs(code)), st) == Some(
            (plan_status(st), plan_launched(st)),
        ),
{
    lemma_chain_short_circuit(spec_plan_argvs(code), st);
}

/// An empty manifest is a valid no-op: its compiled script is the
/// interpreter directive alone, its plan launches nothing, and direct
/// execution succeeds trivially.
pub proof fn lemma_empty_manifest(code: Seq<CodeV>)
    requires
        code.len() == 0,
    ensures
        spec_script(code) == "#!/bin/sh\n"@,
        spec_plan_argvs(code).len() == 0,
        spec_code_sources(code).len() == 0,
        first_fail(Seq::<u32>::empty()) is None,
        plan_status(Seq::<u32>::empty()) == 0u32,
{
    assert(spec_plan_argvs(code).len() == 0);
}

} // verus!
