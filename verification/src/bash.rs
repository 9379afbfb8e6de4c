//! The shell-logic intermediate representation: an argument vector,
//! AND-sequencing, OR-fallback, and an enclosing wrapper, together with a
//! renderer to POSIX shell text and a specification-level evaluator that
//! gives direct execution the same short-circuit semantics.

use vstd::prelude::*;
use vstd::string::StrSliceExecFns;
use vstd::string::StringExecFns;

verus! {

/// One node of shell logic. `ArgV` is the atomic unit: a concrete argument
/// vector. `And(a, b)` runs `b` only if `a` succeeds, `Or(a, b)` runs `b`
/// only if `a` fails, and `Wraps(outer, inner)` runs `outer` to establish an
/// enclosing context (in a subshell, so the context is scoped) and then runs
/// `inner`, whose status is the composite's status.
pub enum Fragment {
    ArgV(Vec<String>),
    And(Box<Fragment>, Box<Fragment>),
    Or(Box<Fragment>, Box<Fragment>),
    Wraps(Box<Fragment>, Box<Fragment>),
}

/// The mathematical shape of a `Fragment`: every argument is a sequence of
/// characters.
#[verifier::ext_equal]
pub enum FragV {
    ArgV(Seq<Seq<char>>),
    And(Box<FragV>, Box<FragV>),
    Or(Box<FragV>, Box<FragV>),
    Wraps(Box<FragV>, Box<FragV>),
}

pub open spec fn frag_view(f: Fragment) -> FragV
    decreases f,
{
    match f {
        Fragment::ArgV(ws) => FragV::ArgV(ws.deep_view()),
        Fragment::And(a, b) => FragV::And(Box::new(frag_view(*a)), Box::new(frag_view(*b))),
        Fragment::Or(a, b) => FragV::Or(Box::new(frag_view(*a)), Box::new(frag_view(*b))),
        Fragment::Wraps(o, i) => FragV::Wraps(Box::new(frag_view(*o)), Box::new(frag_view(*i))),
    }
}

impl View for Fragment {
    type V = FragV;

    open spec fn view(&self) -> FragV {
        frag_view(*self)
    }
}

// ---------------------------------------------------------------------------
// Quoting: each argument is wrapped in single quotes; an embedded single
// quote becomes `'\''` (close, escaped quote, reopen).
// ---------------------------------------------------------------------------
pub open spec fn spec_quote_char(c: char) -> Seq<char> {
    if c == '\'' {
        seq!['\'', '\\', '\'', '\'']
    } else {
        seq![c]
    }
}

pub open spec fn spec_quote_body(s: Seq<char>) -> Seq<char>
    decreases s.len(),
{
    if s.len() == 0 {
        Seq::empty()
    } else {
        spec_quote_char(s[0]) + spec_quote_body(s.skip(1))
    }
}

/// The rendered form of one argument: `'` + escaped body + `'`.
pub open spec fn spec_quoted(s: Seq<char>) -> Seq<char> {
    seq!['\''] + spec_quote_body(s) + seq!['\'']
}

/// The rendered form of an argument vector: quoted words joined by single
/// spaces.
pub open spec fn spec_render_words(ws: Seq<Seq<char>>) -> Seq<char>
    decreases ws.len(),
{
    if ws.len() == 0 {
        Seq::empty()
    } else if ws.len() == 1 {
        spec_quoted(ws[0])
    } else {
        spec_quoted(ws[0]) + seq![' '] + spec_render_words(ws.skip(1))
    }
}

proof fn lemma_quote_body_snoc(s: Seq<char>)
    requires
        s.len() > 0,
    ensures
        spec_quote_body(s) == spec_quote_body(s.drop_last()) + spec_quote_char(s.last()),
    decreases s.len(),
{
    if s.len() == 1 {
        assert(s.drop_last() =~= Seq::<char>::empty());
        assert(s.skip(1) =~= Seq::<char>::empty());
        assert(spec_quote_body(s) =~= spec_quote_body(s.drop_last()) + spec_quote_char(s.last()));
    } else {
        lemma_quote_body_snoc(s.skip(1));
        assert(s.skip(1).drop_last() =~= s.drop_last().skip(1));
        assert(s.skip(1).last() == s.last());
        assert(s.drop_last()[0] == s[0]);
        assert(spec_quote_body(s) =~= spec_quote_body(s.drop_last()) + spec_quote_char(s.last()));
    }
}

/// Relies on `String::push`: appends the given character to the end of the
/// string.
#[verifier::external_body]
pub(crate) fn push_char(s: &mut String, c: char)
    ensures
        final(s)@ == old(s)@.push(c),
{
    s.push(c);
}

/// Quote one argument so that a POSIX shell reads back exactly its
/// characters.
pub fn shell_quote(w: &str) -> (r: String)
    ensures
        r@ == spec_quoted(w@),
{
    let n = w.unicode_len();
    let mut r = String::new();
    push_char(&mut r, '\'');
    let mut i: usize = 0;
    while i < n
        invariant
            i <= n,
            n == w@.len(),
            r@ == seq!['\''] + spec_quote_body(w@.take(i as int)),
        decreases n - i,
    {
        let c = w.get_char(i);
        if c == '\'' {
            push_char(&mut r, '\'');
            push_char(&mut r, '\\');
            push_char(&mut r, '\'');
            push_char(&mut r, '\'');
        } else {
            push_char(&mut r, c);
        }
        proof {
            lemma_quote_body_snoc(w@.take(i + 1 as int));
            assert(w@.take(i + 1 as int).drop_last() =~= w@.take(i as int));
            assert(w@.take(i + 1 as int).last() == w@[i as int]);
            assert(r@ =~= seq!['\''] + spec_quote_body(w@.take(i + 1 as int)));
        }
        i = i + 1;
    }
    push_char(&mut r, '\'');
    proof {
        assert(w@.take(n as int) =~= w@);
        assert(r@ =~= spec_quoted(w@));
    }
    r
}

proof fn lemma_render_words_snoc(ws: Seq<Seq<char>>, w: Seq<char>)
    ensures
        spec_render_words(ws.push(w)) == if ws.len() == 0 {
            spec_quoted(w)
        } else {
            spec_render_words(ws) + seq![' '] + spec_quoted(w)
        },
    decreases ws.len(),
{
    if ws.len() == 0 {
        assert(ws.push(w).len() == 1);
        assert(ws.push(w)[0] == w);
    } else {
        lemma_render_words_snoc(ws.skip(1), w);
        assert(ws.push(w).skip(1) =~= ws.skip(1).push(w));
        assert(ws.push(w)[0] == ws[0]);
        if ws.len() == 1 {
            assert(spec_render_words(ws.push(w)) =~= spec_render_words(ws) + seq![' ']
                + spec_quoted(w));
        } else {
            assert(spec_render_words(ws.push(w)) =~= spec_render_words(ws) + seq![' ']
                + spec_quoted(w));
        }
    }
}

/// Render an argument vector: each word quoted, words joined by spaces.
pub fn render_argv(ws: &Vec<String>) -> (r: String)
    ensures
        r@ == spec_render_words(ws.deep_view()),
{
    let mut r = String::new();
    let mut i: usize = 0;
    while i < ws.len()
        invariant
            i <= ws.len(),
            r@ == spec_render_words(ws.deep_view().take(i as int)),
            ws.deep_view().len() == ws.len(),
        decreases ws.len() - i,
    {
        if i > 0 {
            push_char(&mut r, ' ');
        }
        let q = shell_quote(ws[i].as_str());
        r.append(q.as_str());
        proof {
            lemma_render_words_snoc(ws.deep_view().take(i as int), ws.deep_view()[i as int]);
            assert(ws.deep_view().take(i as int).push(ws.deep_view()[i as int]) =~= ws.deep_view()
                .take(i + 1 as int));
        }
        i = i + 1;
    }
    proof {
        assert(ws.deep_view().take(ws.len() as int) =~= ws.deep_view());
    }
    r
}

/// The rendered shell text of a whole fragment tree.
pub open spec fn spec_render(f: FragV) -> Seq<char>
    decreases f,
{
    match f {
        FragV::ArgV(ws) => spec_render_words(ws),
        FragV::And(a, b) => spec_render(*a) + " && "@ + spec_render(*b),
        FragV::Or(a, b) => spec_render(*a) + " || "@ + spec_render(*b),
        FragV::Wraps(o, i) => "( "@ + spec_render(*o) + " ; "@ + spec_render(*i) + " )"@,
    }
}

/// Render a fragment to POSIX shell source with equivalent control flow:
/// `And` as `&&`, `Or` as `||`, `Wraps` as a subshell whose last command is
/// the inner fragment, so the composite's status is the inner's.
pub fn render(f: &Fragment) -> (r: String)
    ensures
        r@ == spec_render(f@),
    decreases *f,
{
    match f {
        Fragment::ArgV(ws) => render_argv(ws),
        Fragment::And(a, b) => {
            let mut r = render(a);
            r.append(" && ");
            let rb = render(b);
            r.append(rb.as_str());
            r
        },
        Fragment::Or(a, b) => {
            let mut r = render(a);
            r.append(" || ");
            let rb = render(b);
            r.append(rb.as_str());
            r
        },
        Fragment::Wraps(o, i) => {
            let mut r = "( ".to_owned();
            let ro = render(o);
            r.append(ro.as_str());
            r.append(" ; ");
            let ri = render(i);
            r.append(ri.as_str());
            r.append(" )");
            r
        },
    }
}

// ---------------------------------------------------------------------------
// Reading rendered text back: a specification of how a POSIX shell splits
// the rendered form into words again.  Inside single quotes every character
// but `'` is literal; a closing quote followed by `\''` continues the same
// word with a literal quote.
// ---------------------------------------------------------------------------
/// Parse the remainder of a single-quoted word, after its opening quote.
/// Returns the word's characters and the unconsumed rest.
pub open spec fn parse_quoted_tail(t: Seq<char>) -> Option<(Seq<char>, Seq<char>)>
    decreases t.len(),
{
    if t.len() == 0 {
        None
    } else if t[0] == '\'' {
        let r = t.skip(1);
        if r.len() >= 3 && r[0] == '\\' && r[1] == '\'' && r[2] == '\'' {
            match parse_quoted_tail(r.skip(3)) {
                Some(p) => Some((seq!['\''] + p.0, p.1)),
                None => None,
            }
        } else {
            Some((Seq::empty(), r))
        }
    } else {
        match parse_quoted_tail(t.skip(1)) {
            Some(p) => Some((seq![t[0]] + p.0, p.1)),
            None => None,
        }
    }
}

/// Parse one quoted word at the front of the text.
pub open spec fn parse_word(t: Seq<char>) -> Option<(Seq<char>, Seq<char>)> {
    if t.len() > 0 && t[0] == '\'' {
        parse_quoted_tail(t.skip(1))
    } else {
        None
    }
}

pub proof fn lemma_parse_quoted_tail_shrinks(t: Seq<char>)
    ensures
        parse_quoted_tail(t) matches Some(p) ==> p.1.len() < t.len(),
    decreases t.len(),
{
    if t.len() == 0 {
    } else if t[0] == '\'' {
        let r = t.skip(1);
        if r.len() >= 3 && r[0] == '\\' && r[1] == '\'' && r[2] == '\'' {
            lemma_parse_quoted_tail_shrinks(r.skip(3));
        }
    } else {
        lemma_parse_quoted_tail_shrinks(t.skip(1));
    }
}

/// Split a full rendered line into its words: quoted words separated by
/// single spaces.  Empty text is the empty word list.
pub open spec fn parse_words(t: Seq<char>) -> Option<Seq<Seq<char>>>
    decreases t.len(),
    via parse_words_decreases
{
    if t.len() == 0 {
        Some(Seq::empty())
    } else {
        match parse_word(t) {
            Some(p) => if p.1.len() == 0 {
                Some(seq![p.0])
            } else if p.1[0] == ' ' {
                match parse_words(p.1.skip(1)) {
                    Some(ws) => Some(seq![p.0] + ws),
                    None => None,
                }
            } else {
                None
            },
            None => None,
        }
    }
}

#[via_fn]
proof fn parse_words_decreases(t: Seq<char>) {
    if t.len() > 0 {
        lemma_parse_quoted_tail_shrinks(t.skip(1));
    }
}

proof fn lemma_parse_quoted_tail_of_quote(s: Seq<char>, rest: Seq<char>)
    requires
        rest.len() == 0 || rest[0] != '\\',
    ensures
        parse_quoted_tail(spec_quote_body(s) + seq!['\''] + rest) == Some((s, rest)),
    decreases s.len(),
{
    let t = spec_quote_body(s) + seq!['\''] + rest;
    if s.len() == 0 {
        assert(t =~= seq!['\''] + rest);
        assert(t[0] == '\'');
        assert(t.skip(1) =~= rest);
        let p = parse_quoted_tail(t).unwrap();
        assert(p.0 =~= s);
    } else if s[0] == '\'' {
        lemma_parse_quoted_tail_of_quote(s.skip(1), rest);
        assert(t[0] == '\'');
        let r = t.skip(1);
        assert(r =~= seq!['\\', '\'', '\''] + spec_quote_body(s.skip(1)) + seq!['\''] + rest);
        assert(r.len() >= 3 && r[0] == '\\' && r[1] == '\'' && r[2] == '\'');
        assert(r.skip(3) =~= spec_quote_body(s.skip(1)) + seq!['\''] + rest);
        let p = parse_quoted_tail(t).unwrap();
        assert(p.0 =~= s);
    } else {
        lemma_parse_quoted_tail_of_quote(s.skip(1), rest);
        assert(t[0] == s[0]);
        assert(t.skip(1) =~= spec_quote_body(s.skip(1)) + seq!['\''] + rest);
        let p = parse_quoted_tail(t).unwrap();
        assert(p.0 =~= s);
    }
}

proof fn lemma_parse_word_of_quoted(s: Seq<char>, rest: Seq<char>)
    requires
        rest.len() == 0 || rest[0] != '\\',
    ensures
        parse_word(spec_quoted(s) + rest) == Some((s, rest)),
{
    let t = spec_quoted(s) + rest;
    assert(t[0] == '\'');
    assert(t.skip(1) =~= spec_quote_body(s) + seq!['\''] + rest);
    lemma_parse_quoted_tail_of_quote(s, rest);
}

/// Round trip: the rendered form of an argument vector, read back under the
/// quoting rules above, yields exactly the original arguments — embedded
/// spaces, quotes and other shell metacharacters survive verbatim.
pub proof fn lemma_argv_round_trip(ws: Seq<Seq<char>>)
    ensures
        parse_words(spec_render_words(ws)) == Some(ws),
    decreases ws.len(),
{
    if ws.len() == 0 {
        assert(parse_words(spec_render_words(ws)).unwrap() =~= ws);
    } else if ws.len() == 1 {
        let t = spec_render_words(ws);
        assert(t =~= spec_quoted(ws[0]) + Seq::<char>::empty());
        lemma_parse_word_of_quoted(ws[0], Seq::empty());
        assert(t.len() > 0);
        assert(parse_words(t).unwrap() =~= ws);
    } else {
        lemma_argv_round_trip(ws.skip(1));
        let t = spec_render_words(ws);
        let rest = seq![' '] + spec_render_words(ws.skip(1));
        assert(t =~= spec_quoted(ws[0]) + rest);
        lemma_parse_word_of_quoted(ws[0], rest);
        assert(rest.len() > 0 && rest[0] == ' ');
        assert(rest.skip(1) =~= spec_render_words(ws.skip(1)));
        assert(t.len() > 0);
        assert(parse_words(t).unwrap() =~= ws);
    }
}

// ---------------------------------------------------------------------------
// Reading rendered text back, executably.
// ---------------------------------------------------------------------------
fn parse_tail_from(s: &str, pos: usize) -> (r: Option<(String, usize)>)
    requires
        pos <= s@.len(),
    ensures
        match r {
            Some(p) => parse_quoted_tail(s@.skip(pos as int)) == Some((p.0@, s@.skip(p.1 as int)))
                && pos < p.1 <= s@.len(),
            None => parse_quoted_tail(s@.skip(pos as int)) is None,
        },
    decreases s@.len() - pos,
{
    let n = s.unicode_len();
    let ghost t = s@.skip(pos as int);
    if pos == n {
        proof {
            assert(t.len() == 0);
        }
        return None;
    }
    let c = s.get_char(pos);
    proof {
        assert(t[0] == s@[pos as int]);
        assert(t.skip(1) =~= s@.skip(pos as int + 1));
    }
    if c == '\'' {
        let ghost rr = t.skip(1);
        if n - pos >= 4 && s.get_char(pos + 1) == '\\' && s.get_char(pos + 2) == '\'' && s.get_char(
            pos + 3,
        ) == '\'' {
            proof {
                assert(rr.len() >= 3 && rr[0] == '\\' && rr[1] == '\'' && rr[2] == '\'');
                assert(rr.skip(3) =~= s@.skip(pos as int + 4));
            }
            match parse_tail_from(s, pos + 4) {
                Some(wp) => {
                    let (w, p) = wp;
                    let mut q = String::new();
                    push_char(&mut q, '\'');
                    q.append(w.as_str());
                    proof {
                        assert(q@ =~= seq!['\''] + w@);
                    }
                    Some((q, p))
                },
                None => None,
            }
        } else {
            proof {
                if rr.len() >= 3 && rr[0] == '\\' && rr[1] == '\'' && rr[2] == '\'' {
                    assert(n - pos >= 4 && s@[pos as int + 1] == '\\' && s@[pos as int + 2]
                        == '\'' && s@[pos as int + 3] == '\'');
                    assert(false);
                }
                assert(parse_quoted_tail(t) == Some((Seq::<char>::empty(), rr)));
            }
            let q = String::new();
            proof {
                assert(q@ =~= Seq::<char>::empty());
            }
            Some((q, pos + 1))
        }
    } else {
        match parse_tail_from(s, pos + 1) {
            Some(wp) => {
                let (w, p) = wp;
                let mut q = String::new();
                push_char(&mut q, c);
                q.append(w.as_str());
                proof {
                    assert(q@ =~= seq![t[0]] + w@);
                }
                Some((q, p))
            },
            None => None,
        }
    }
}

fn split_words_from(s: &str, pos: usize) -> (r: Option<Vec<String>>)
    requires
        pos <= s@.len(),
    ensures
        match r {
            Some(ws) => parse_words(s@.skip(pos as int)) == Some(ws.deep_view()),
            None => parse_words(s@.skip(pos as int)) is None,
        },
    decreases s@.len() - pos,
{
    let n = s.unicode_len();
    let ghost t = s@.skip(pos as int);
    if pos == n {
        let ws: Vec<String> = Vec::new();
        proof {
            assert(t.len() == 0);
            assert(ws.deep_view() =~= Seq::<Seq<char>>::empty());
        }
        return Some(ws);
    }
    let c = s.get_char(pos);
    proof {
        assert(t[0] == s@[pos as int]);
        assert(t.skip(1) =~= s@.skip(pos as int + 1));
    }
    if c != '\'' {
        return None;
    }
    match parse_tail_from(s, pos + 1) {
        None => None,
        Some(wp) => {
            let (w, p) = wp;
            let ghost rest = s@.skip(p as int);
            proof {
                assert(parse_word(t) == Some((w@, rest)));
            }
            if p == n {
                let mut ws: Vec<String> = Vec::new();
                let ghost e0 = ws@;
                ws.push(w);
                proof {
                    crate::lemma_deep_view_push(e0, ws@, w);
                    assert(rest.len() == 0);
                    assert(ws.deep_view() =~= seq![w@]);
                }
                Some(ws)
            } else {
                let d = s.get_char(p);
                proof {
                    assert(rest[0] == s@[p as int]);
                    assert(rest.skip(1) =~= s@.skip(p as int + 1));
                }
                if d == ' ' {
                    match split_words_from(s, p + 1) {
                        Some(tail_ws) => {
                            let mut ws = tail_ws;
                            let ghost pre = ws@;
                            ws.insert(0, w);
                            proof {
                                assert(ws@ == pre.insert(0, w));
                                assert forall|k: int| 0 <= k < ws@.len() implies #[trigger] ws.deep_view()[k]
                                    == (seq![w@] + parse_words(rest.skip(1)).unwrap())[k] by {
                                    if k == 0 {
                                        assert(ws@[0] == w);
                                    } else {
                                        assert(ws@[k] == pre[k - 1]);
                                    }
                                }
                                assert(ws.deep_view() =~= seq![w@] + parse_words(
                                    rest.skip(1),
                                ).unwrap());
                            }
                            Some(ws)
                        },
                        None => None,
                    }
                } else {
                    None
                }
            }
        },
    }
}

/// Split a rendered line back into its argument words, under the quoting
/// rules the renderer uses; rendering and splitting round-trip exactly.
pub fn split_words(s: &str) -> (r: Option<Vec<String>>)
    ensures
        match r {
            Some(ws) => parse_words(s@) == Some(ws.deep_view()),
            None => parse_words(s@) is None,
        },
{
    proof {
        assert(s@.skip(0) =~= s@);
    }
    split_words_from(s, 0)
}

// ---------------------------------------------------------------------------
// Direct-execution semantics: evaluating a fragment given the exit statuses
// that its argument vectors produce, in execution order.
// ---------------------------------------------------------------------------
/// Evaluate a fragment against the statuses its commands would return, in
/// the order they are launched.  The result is the fragment's status and how
/// many commands were launched; `None` means the status sequence is too
/// short to cover the commands that would run.
pub open spec fn frag_eval(f: FragV, st: Seq<u32>) -> Option<(u32, int)>
    decreases f,
{
    match f {
        FragV::ArgV(_) => if st.len() > 0 {
            Some((st[0], 1int))
        } else {
            None
        },
        FragV::And(a, b) => match frag_eval(*a, st) {
            Some(ra) => if ra.0 != 0 {
                Some(ra)
            } else {
                match frag_eval(*b, st.skip(ra.1)) {
                    Some(rb) => Some((rb.0, ra.1 + rb.1)),
                    None => None,
                }
            },
            None => None,
        },
        FragV::Or(a, b) => match frag_eval(*a, st) {
            Some(ra) => if ra.0 == 0 {
                Some(ra)
            } else {
                match frag_eval(*b, st.skip(ra.1)) {
                    Some(rb) => Some((rb.0, ra.1 + rb.1)),
                    None => None,
                }
            },
            None => None,
        },
        FragV::Wraps(o, i) => match frag_eval(*o, st) {
            Some(ro) => match frag_eval(*i, st.skip(ro.1)) {
                Some(ri) => Some((ri.0, ro.1 + ri.1)),
                None => None,
            },
            None => None,
        },
    }
}

/// The index of the first non-zero status, if any.
pub open spec fn first_fail(st: Seq<u32>) -> Option<int>
    decreases st.len(),
{
    if st.len() == 0 {
        None
    } else if st[0] != 0 {
        Some(0int)
    } else {
        match first_fail(st.skip(1)) {
            Some(k) => Some(k + 1),
            None => None,
        }
    }
}

/// The AND-chain a sequence of argument vectors compiles to: entry 0, then
/// `&&` the rest.
pub open spec fn spec_and_chain(argvs: Seq<Seq<Seq<char>>>) -> FragV
    decreases argvs.len(),
{
    if argvs.len() <= 1 {
        FragV::ArgV(argvs[0])
    } else {
        FragV::And(Box::new(FragV::ArgV(argvs[0])), Box::new(spec_and_chain(argvs.skip(1))))
    }
}

/// Build the AND-chain fragment for a non-empty plan of argument vectors.
pub fn and_chain(argvs: Vec<Vec<String>>) -> (f: Fragment)
    requires
        argvs.len() > 0,
    ensures
        f@ == spec_and_chain(argvs.deep_view()),
{
    let ghost all = argvs.deep_view();
    let mut argvs = argvs;
    proof {
        assert(all.len() == argvs.len());
    }
    let ghost pre0 = argvs@;
    let last = argvs.pop().unwrap();
    proof {
        let n = all.len() as int;
        assert(last == pre0[n - 1]);
        assert(all[n - 1] == pre0[n - 1].deep_view());
        assert(argvs.deep_view() =~= all.take(n - 1));
        assert(all.skip(n - 1) =~= seq![all[n - 1]]);
        assert(frag_view(Fragment::ArgV(last)) == spec_and_chain(all.skip(n - 1)));
    }
    let mut f = Fragment::ArgV(last);
    while argvs.len() > 0
        invariant
            argvs.len() < all.len(),
            argvs.deep_view() == all.take(argvs.len() as int),
            f@ == spec_and_chain(all.skip(argvs.len() as int)),
        decreases argvs.len(),
    {
        let ghost k = argvs.len() as int;
        let ghost pre = argvs@;
        let head = argvs.pop().unwrap();
        proof {
            assert(head == pre[k - 1]);
            assert(all.take(k)[k - 1] == pre[k - 1].deep_view());
            assert(head.deep_view() == all[k - 1]);
            assert(argvs.deep_view() =~= all.take(k - 1));
        }
        f = Fragment::And(Box::new(Fragment::ArgV(head)), Box::new(f));
        proof {
            let s = all.skip(k - 1);
            assert(s.len() >= 2);
            assert(s[0] == all[k - 1]);
            assert(s.skip(1) =~= all.skip(k));
            assert(frag_view(Fragment::ArgV(head)) == FragV::ArgV(head.deep_view()));
            assert(f@ == FragV::And(
                Box::new(FragV::ArgV(head.deep_view())),
                Box::new(spec_and_chain(all.skip(k))),
            ));
            assert(f@ == spec_and_chain(s));
        }
    }
    proof {
        assert(all.skip(0) =~= all);
    }
    f
}

pub proof fn lemma_first_fail_in_range(st: Seq<u32>)
    ensures
        first_fail(st) matches Some(k) ==> 0 <= k < st.len() && st[k] != 0,
    decreases st.len(),
{
    if st.len() > 0 && st[0] == 0 {
        lemma_first_fail_in_range(st.skip(1));
    }
}

/// The status direct execution of a plan reports: the first failing status,
/// or success when every entry succeeded.
pub open spec fn plan_status(st: Seq<u32>) -> u32 {
    match first_fail(st) {
        Some(k) => st[k],
        None => 0u32,
    }
}

/// How many entries direct execution launches: everything up to and
/// including the first failure, or all of them.
pub open spec fn plan_launched(st: Seq<u32>) -> int {
    match first_fail(st) {
        Some(k) => k + 1,
        None => st.len() as int,
    }
}

/// Sequential short-circuit: evaluating the compiled AND-chain against any
/// sequence of statuses launches exactly the entries up to and including the
/// first failure — nothing after a failing entry runs — and the chain's
/// status is the first failing status, or success.  This is the same
/// behaviour direct execution exhibits, so script generation and direct
/// execution agree.
pub proof fn lemma_chain_short_circuit(argvs: Seq<Seq<Seq<char>>>, st: Seq<u32>)
    requires
        argvs.len() > 0,
        st.len() == argvs.len(),
    ensures
        frag_eval(spec_and_chain(argvs), st) == Some((plan_status(st), plan_launched(st))),
    decreases argvs.len(),
{
    if argvs.len() == 1 {
        assert(st.len() == 1);
        assert(spec_and_chain(argvs) == FragV::ArgV(argvs[0]));
        assert(frag_eval(spec_and_chain(argvs), st) == Some((st[0], 1int)));
        if st[0] != 0 {
            assert(first_fail(st) == Some(0int));
            assert(plan_status(st) == st[0]);
            assert(plan_launched(st) == 1int);
        } else {
            assert(st.skip(1).len() == 0);
            assert(first_fail(st.skip(1)) is None);
            assert(first_fail(st) is None);
            assert(plan_status(st) == 0u32);
            assert(plan_launched(st) == 1int);
        }
    } else {
        let chain = spec_and_chain(argvs);
        assert(chain == FragV::And(
            Box::new(FragV::ArgV(argvs[0])),
            Box::new(spec_and_chain(argvs.skip(1))),
        ));
        let a = FragV::ArgV(argvs[0]);
        assert(frag_eval(a, st) == Some((st[0], 1int)));
        if st[0] != 0 {
            assert(frag_eval(chain, st) == Some((st[0], 1int)));
            assert(first_fail(st) == Some(0int));
            assert(plan_status(st) == st[0]);
            assert(plan_launched(st) == 1int);
        } else {
            lemma_chain_short_circuit(argvs.skip(1), st.skip(1));
            assert(st.skip(1).len() == st.len() - 1);
            assert(frag_eval(chain, st) == Some(
                (plan_status(st.skip(1)), 1 + plan_launched(st.skip(1))),
            ));
            match first_fail(st.skip(1)) {
                Some(k) => {
                    lemma_first_fail_in_range(st.skip(1));
                    assert(first_fail(st) == Some(k + 1));
                    assert(st.skip(1)[k] == st[k + 1]);
                    assert(plan_status(st) == plan_status(st.skip(1)));
                    assert(plan_launched(st) == 1 + plan_launched(st.skip(1)));
                },
                None => {
                    assert(first_fail(st) is None);
                    assert(plan_status(st) == 0u32);
                    assert(plan_launched(st) == 1 + plan_launched(st.skip(1)));
                },
            }
        }
    }
}

} // verus!
