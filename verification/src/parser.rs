//! Reading a textual manifest: the YAML text is scanned by an outside
//! parser, its last document is checked to be a dictionary, and the
//! dictionary's `code` and `data` sections are validated into a `Manifest`.

use vstd::prelude::*;
use vstd::string::StrSliceExecFns;

use crate::manifest::Cmd;
use crate::manifest::CmdV;
use crate::manifest::Code;
use crate::manifest::CodeV;
use crate::manifest::Data;
use crate::manifest::DataV;
use crate::manifest::Manifest;
use crate::manifest::ManifestV;
use crate::sources::LinkSource;
use crate::sources::Source;
use crate::sources::SourceV;

verus! {

/// The logical shape of a parsed document: scalars, ordered lists, ordered
/// key/value dictionaries, and anything else (which no manifest may
/// contain).
pub enum Node {
    Scalar(String),
    List(Vec<Node>),
    Dict(Vec<(Node, Node)>),
    Other,
}

impl Node {
    pub fn is_dict(&self) -> (r: bool)
        ensures
            r == (*self is Dict),
    {
        match self {
            Node::Dict(_) => true,
            _ => false,
        }
    }
}

/// Why a manifest was rejected: its root is not a dictionary, an entry in
/// one of its sections is malformed, or the text could not be scanned at
/// all.
#[derive(PartialEq, Eq, Structural, Clone, Copy, Debug)]
pub enum ParseError {
    NotADict,
    BadEntry,
    Scan,
}

impl ParseError {
    /// A human-readable account of the error.
    pub fn description(&self) -> (r: &'static str)
        ensures
            *self == ParseError::NotADict ==> r@ == "Root YAML was not a dictionary."@,
            *self == ParseError::BadEntry ==> r@ == "Malformed manifest entry."@,
            *self == ParseError::Scan ==> r@ == "Manifest text could not be scanned."@,
    {
        match self {
            ParseError::NotADict => "Root YAML was not a dictionary.",
            ParseError::BadEntry => "Malformed manifest entry.",
            ParseError::Scan => "Manifest text could not be scanned.",
        }
    }
}

#[verifier::external_type_specification]
#[verifier::external_body]
pub struct ExYaml(yaml_rust::Yaml);

/// The documents the YAML text denotes, as logical nodes, or nothing when
/// the text cannot be scanned.  A function of the text alone.
pub uninterp spec fn yaml_docs(s: Seq<char>) -> Option<Seq<Node>>;

/// Relies on yaml_rust::Yaml: the parsed document tree is carried over
/// variant for variant — strings to scalars, arrays to lists, hashes (whose
/// insertion order yaml_rust keeps) to dictionaries in that order, anything
/// else to `Other`.
#[verifier::external_body]
fn node_of_yaml(y: yaml_rust::Yaml) -> Node {
    match y {
        yaml_rust::Yaml::String(s) => Node::Scalar(s),
        yaml_rust::Yaml::Array(v) => Node::List(v.into_iter().map(node_of_yaml).collect()),
        yaml_rust::Yaml::Hash(h) => Node::Dict(
            h.into_iter().map(|p| (node_of_yaml(p.0), node_of_yaml(p.1))).collect(),
        ),
        _ => Node::Other,
    }
}

/// Relies on yaml_rust::YamlLoader::load_from_str: scanning the text yields
/// its sequence of documents — a function of the text alone — and a scan
/// error yields none.
#[verifier::external_body]
fn load_docs(text: &str) -> (r: Option<Vec<Node>>)
    ensures
        match r {
            Some(v) => yaml_docs(text@) == Some(v@),
            None => yaml_docs(text@) is None,
        },
{
    match yaml_rust::YamlLoader::load_from_str(text) {
        Ok(docs) => Some(docs.into_iter().map(node_of_yaml).collect()),
        Err(_) => None,
    }
}

/// Scan a manifest text and return its last document, which must be a
/// dictionary; an empty text or a non-dictionary root is rejected before
/// any preparation begins.
pub fn load(manifest: &str) -> (r: Result<Node, ParseError>)
    ensures
        match yaml_docs(manifest@) {
            None => r == Err::<Node, ParseError>(ParseError::Scan),
            Some(docs) => if docs.len() > 0 && docs.last() is Dict {
                r == Ok::<Node, ParseError>(docs.last())
            } else {
                r == Err::<Node, ParseError>(ParseError::NotADict)
            },
        },
{
    match load_docs(manifest) {
        None => Err(ParseError::Scan),
        Some(mut docs) => {
            match docs.pop() {
                None => Err(ParseError::NotADict),
                Some(doc) => {
                    if doc.is_dict() {
                        Ok(doc)
                    } else {
                        Err(ParseError::NotADict)
                    }
                },
            }
        },
    }
}

// ---------------------------------------------------------------------------
// Shape of a manifest dictionary.
// ---------------------------------------------------------------------------
/// Whether a command word is a URL: it contains `://` after a non-empty
/// scheme.
pub open spec fn spec_is_url(s: Seq<char>) -> bool {
    exists|i: int|
        1 <= i && i + 3 <= s.len() && (#[trigger] s[i]) == ':' && s[i + 1] == '/' && s[i + 2]
            == '/'
}

pub fn is_url(s: &str) -> (r: bool)
    ensures
        r == spec_is_url(s@),
{
    let n = s.unicode_len();
    if n < 4 {
        return false;
    }
    let mut i: usize = 1;
    while i <= n - 3
        invariant
            1 <= i,
            4 <= n,
            n == s@.len(),
            forall|j: int|
                1 <= j < i ==> !((#[trigger] s@[j]) == ':' && s@[j + 1] == '/' && s@[j + 2]
                    == '/'),
        decreases n - i,
    {
        if s.get_char(i) == ':' && s.get_char(i + 1) == '/' && s.get_char(i + 2) == '/' {
            return true;
        }
        i = i + 1;
    }
    false
}

/// The command a word denotes: a URL is a link-addressed source to fetch;
/// any other word is a program name used as is.
pub open spec fn spec_cmd_of(w: Seq<char>) -> CmdV {
    if spec_is_url(w) {
        CmdV::Source(SourceV::Link(w))
    } else {
        CmdV::Word(w)
    }
}

pub fn cmd_of_word(w: &String) -> (c: Cmd)
    ensures
        c@ == spec_cmd_of(w@),
{
    if is_url(w.as_str()) {
        Cmd::Source(Source::Link(LinkSource { url: w.clone() }))
    } else {
        Cmd::Word(w.clone())
    }
}

/// The first value under a scalar key, in dictionary order.
pub open spec fn spec_lookup(pairs: Seq<(Node, Node)>, key: Seq<char>) -> Option<Node>
    decreases pairs.len(),
{
    if pairs.len() == 0 {
        None
    } else if pairs[0].0 matches Node::Scalar(s) && s@ == key {
        Some(pairs[0].1)
    } else {
        spec_lookup(pairs.skip(1), key)
    }
}

fn lookup<'a>(pairs: &'a Vec<(Node, Node)>, key: &str) -> (r: Option<&'a Node>)
    ensures
        match r {
            Some(n) => spec_lookup(pairs@, key@) == Some(*n),
            None => spec_lookup(pairs@, key@) is None,
        },
{
    proof {
        assert(pairs@.skip(0) =~= pairs@);
    }
    let mut i: usize = 0;
    while i < pairs.len()
        invariant
            i <= pairs.len(),
            spec_lookup(pairs@, key@) == spec_lookup(pairs@.skip(i as int), key@),
        decreases pairs.len() - i,
    {
        proof {
            assert(pairs@.skip(i as int)[0] == pairs@[i as int]);
            assert(pairs@.skip(i as int).skip(1) =~= pairs@.skip(i as int + 1));
        }
        let hit = match &pairs[i].0 {
            Node::Scalar(s) => crate::str_eq(s.as_str(), key),
            _ => false,
        };
        if hit {
            return Some(&pairs[i].1);
        }
        i = i + 1;
    }
    proof {
        assert(pairs@.skip(pairs@.len() as int) =~= Seq::<(Node, Node)>::empty());
    }
    None
}

/// A well-formed code entry: a single word, or a non-empty list of words
/// whose first element is the command.
pub open spec fn code_entry_ok(n: Node) -> bool {
    match n {
        Node::Scalar(_) => true,
        Node::List(v) => v@.len() > 0 && (forall|i: int| 0 <= i < v@.len() ==> v@[i] is Scalar),
        _ => false,
    }
}

pub open spec fn spec_code_of(n: Node) -> CodeV {
    match n {
        Node::Scalar(s) => CodeV { cmd: spec_cmd_of(s@), args: Seq::empty() },
        Node::List(v) => CodeV {
            cmd: spec_cmd_of(v@[0]->Scalar_0@),
            args: Seq::new((v@.len() - 1) as nat, |i: int| v@[i + 1]->Scalar_0@),
        },
        _ => arbitrary(),
    }
}

/// A well-formed data entry: a single source word, or a one-pair mapping of
/// source to destination.
pub open spec fn data_entry_ok(n: Node) -> bool {
    match n {
        Node::Scalar(_) => true,
        Node::Dict(ps) => ps@.len() == 1 && ps@[0].0 is Scalar && ps@[0].1 is Scalar,
        _ => false,
    }
}

pub open spec fn spec_data_of(n: Node) -> DataV {
    match n {
        Node::Scalar(s) => DataV { destination: None, source: SourceV::Link(s@) },
        Node::Dict(ps) => DataV {
            destination: Some(ps@[0].1->Scalar_0@),
            source: SourceV::Link(ps@[0].0->Scalar_0@),
        },
        _ => arbitrary(),
    }
}

/// A section is either absent (an empty sequence of steps) or a list of
/// well-formed entries.
pub open spec fn code_section_ok(o: Option<Node>) -> bool {
    match o {
        None => true,
        Some(n) => n matches Node::List(v) && (forall|i: int|
            0 <= i < v@.len() ==> code_entry_ok(v@[i])),
    }
}

pub open spec fn data_section_ok(o: Option<Node>) -> bool {
    match o {
        None => true,
        Some(n) => n matches Node::List(v) && (forall|i: int|
            0 <= i < v@.len() ==> data_entry_ok(v@[i])),
    }
}

pub open spec fn spec_code_section(o: Option<Node>) -> Seq<CodeV> {
    match o {
        None => Seq::empty(),
        Some(n) => Seq::new(n->List_0@.len(), |i: int| spec_code_of(n->List_0@[i])),
    }
}

pub open spec fn spec_data_section(o: Option<Node>) -> Seq<DataV> {
    match o {
        None => Seq::empty(),
        Some(n) => Seq::new(n->List_0@.len(), |i: int| spec_data_of(n->List_0@[i])),
    }
}

/// The expected dictionary shape: optional `code` and `data` keys, each a
/// list of well-formed entries; unknown keys are ignored and absent keys
/// default to empty sequences.
pub open spec fn manifest_shape_ok(doc: Node) -> bool {
    &&& doc is Dict
    &&& code_section_ok(spec_lookup(doc->Dict_0@, "code"@))
    &&& data_section_ok(spec_lookup(doc->Dict_0@, "data"@))
}

/// The manifest a well-shaped dictionary denotes.
pub open spec fn spec_manifest_of(doc: Node) -> ManifestV {
    ManifestV {
        pwd: None,
        env: Seq::empty(),
        code: spec_code_section(spec_lookup(doc->Dict_0@, "code"@)),
        data: spec_data_section(spec_lookup(doc->Dict_0@, "data"@)),
        label: None,
    }
}

fn code_of_entry(n: &Node) -> (r: Result<Code, ParseError>)
    ensures
        match r {
            Ok(c) => code_entry_ok(*n) && c@ == spec_code_of(*n),
            Err(e) => !code_entry_ok(*n) && e == ParseError::BadEntry,
        },
{
    match n {
        Node::Scalar(s) => Ok(Code { cmd: cmd_of_word(s), args: Vec::new() }),
        Node::List(v) => {
            if v.len() == 0 {
                return Err(ParseError::BadEntry);
            }
            let head = match &v[0] {
                Node::Scalar(s) => s,
                _ => {
                    return Err(ParseError::BadEntry);
                },
            };
            let cmd = cmd_of_word(head);
            let mut args: Vec<String> = Vec::new();
            let mut i: usize = 1;
            while i < v.len()
                invariant
                    1 <= i <= v@.len(),
                    *n is List,
                    n->List_0@ == v@,
                    forall|j: int| 0 <= j < i ==> v@[j] is Scalar,
                    args.deep_view() =~= Seq::new(
                        (i - 1) as nat,
                        |k: int| v@[k + 1]->Scalar_0@,
                    ),
                decreases v.len() - i,
            {
                match &v[i] {
                    Node::Scalar(s) => {
                        let sc = s.clone();
                        let ghost pre = args@;
                        args.push(sc);
                        proof {
                            crate::lemma_deep_view_push(pre, args@, sc);
                            assert(args.deep_view() =~= Seq::new(
                                i as nat,
                                |k: int| v@[k + 1]->Scalar_0@,
                            ));
                        }
                    },
                    _ => {
                        proof {
                            assert(!(v@[i as int] is Scalar));
                            assert(!code_entry_ok(*n));
                        }
                        return Err(ParseError::BadEntry);
                    },
                }
                i = i + 1;
            }
            let c = Code { cmd, args };
            proof {
                assert(c@.args =~= spec_code_of(*n).args);
                assert(c@ =~= spec_code_of(*n));
            }
            Ok(c)
        },
        _ => Err(ParseError::BadEntry),
    }
}

fn data_of_entry(n: &Node) -> (r: Result<Data, ParseError>)
    ensures
        match r {
            Ok(d) => data_entry_ok(*n) && d@ == spec_data_of(*n),
            Err(e) => !data_entry_ok(*n) && e == ParseError::BadEntry,
        },
{
    match n {
        Node::Scalar(s) => Ok(
            Data { destination: None, source: Source::Link(LinkSource { url: s.clone() }) },
        ),
        Node::Dict(ps) => {
            if ps.len() != 1 {
                return Err(ParseError::BadEntry);
            }
            let src = match &ps[0].0 {
                Node::Scalar(s) => s,
                _ => {
                    return Err(ParseError::BadEntry);
                },
            };
            let dst = match &ps[0].1 {
                Node::Scalar(s) => s,
                _ => {
                    return Err(ParseError::BadEntry);
                },
            };
            Ok(
                Data {
                    destination: Some(dst.clone()),
                    source: Source::Link(LinkSource { url: src.clone() }),
                },
            )
        },
        _ => Err(ParseError::BadEntry),
    }
}

/// Validate a parsed document into a manifest.  A non-dictionary root is a
/// `NotADict` error; a malformed entry in either section is a `BadEntry`
/// error; otherwise the manifest holds exactly the document's code and data
/// steps, in document order.
pub fn manifest_of(doc: &Node) -> (r: Result<Manifest, ParseError>)
    ensures
        match r {
            Ok(m) => manifest_shape_ok(*doc) && m@ == spec_manifest_of(*doc),
            Err(e) => !manifest_shape_ok(*doc) && (e == ParseError::NotADict <==> !(*doc
                is Dict)) && (e == ParseError::BadEntry <==> *doc is Dict),
        },
{
    let pairs = match doc {
        Node::Dict(ps) => ps,
        _ => {
            return Err(ParseError::NotADict);
        },
    };
    proof {
        assert(pairs@ == doc->Dict_0@);
    }
    let mut code: Vec<Code> = Vec::new();
    match lookup(pairs, "code") {
        None => {},
        Some(sec) => {
            let items = match sec {
                Node::List(v) => v,
                _ => {
                    return Err(ParseError::BadEntry);
                },
            };
            let mut i: usize = 0;
            while i < items.len()
                invariant
                    i <= items@.len(),
                    *doc is Dict,
                    spec_lookup(doc->Dict_0@, "code"@) == Some(*sec),
                    *sec matches Node::List(v) && v@ == items@,
                    forall|j: int| 0 <= j < i ==> code_entry_ok(items@[j]),
                    code@.len() == i,
                    forall|j: int| 0 <= j < i ==> #[trigger] code@[j]@ == spec_code_of(items@[j]),
                decreases items.len() - i,
            {
                match code_of_entry(&items[i]) {
                    Ok(c) => {
                        code.push(c);
                    },
                    Err(e) => {
                        proof {
                            assert(!code_entry_ok(items@[i as int]));
                            assert(!code_section_ok(spec_lookup(doc->Dict_0@, "code"@)));
                        }
                        return Err(e);
                    },
                }
                i = i + 1;
            }
        },
    }
    let mut data: Vec<Data> = Vec::new();
    match lookup(pairs, "data") {
        None => {},
        Some(sec) => {
            let items = match sec {
                Node::List(v) => v,
                _ => {
                    return Err(ParseError::BadEntry);
                },
            };
            let mut i: usize = 0;
            while i < items.len()
                invariant
                    i <= items@.len(),
                    *doc is Dict,
                    spec_lookup(doc->Dict_0@, "data"@) == Some(*sec),
                    *sec matches Node::List(v) && v@ == items@,
                    forall|j: int| 0 <= j < i ==> data_entry_ok(items@[j]),
                    data@.len() == i,
                    forall|j: int| 0 <= j < i ==> #[trigger] data@[j]@ == spec_data_of(items@[j]),
                decreases items.len() - i,
            {
                match data_of_entry(&items[i]) {
                    Ok(d) => {
                        data.push(d);
                    },
                    Err(e) => {
                        proof {
                            assert(!data_entry_ok(items@[i as int]));
                            assert(!data_section_ok(spec_lookup(doc->Dict_0@, "data"@)));
                        }
                        return Err(e);
                    },
                }
                i = i + 1;
            }
        },
    }
    let m = Manifest::new(code, data);
    proof {
        assert(m@.code =~= spec_code_section(spec_lookup(doc->Dict_0@, "code"@)));
        assert(m@.data =~= spec_data_section(spec_lookup(doc->Dict_0@, "data"@)));
        assert(m@ =~= spec_manifest_of(*doc));
    }
    Ok(m)
}

} // verus!
