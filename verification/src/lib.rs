//! A manifest-to-execution compiler: a declarative list of commands ("code")
//! and data sources ("data") is compiled into a portable shell script, or
//! driven directly with the same fail-fast semantics.

pub mod bash;
pub mod cli;
pub mod compile;
pub mod manifest;
pub mod parser;
pub mod sources;

use vstd::prelude::*;
use vstd::string::StrSliceExecFns;

verus! {

/// Pushing onto a vector pushes the element's abstraction onto the vector's.
pub proof fn lemma_deep_view_push<T: DeepView>(pre: Seq<T>, post: Seq<T>, x: T)
    requires
        post == pre.push(x),
    ensures
        Seq::new(post.len(), |i: int| post[i].deep_view()) =~= Seq::new(
            pre.len(),
            |i: int| pre[i].deep_view(),
        ).push(x.deep_view()),
{
    let a = Seq::new(post.len(), |i: int| post[i].deep_view());
    let b = Seq::new(pre.len(), |i: int| pre[i].deep_view()).push(x.deep_view());
    assert forall|k: int| 0 <= k < post.len() implies #[trigger] a[k] == b[k] by {
        if k < pre.len() {
            assert(post[k] == pre[k]);
        } else {
            assert(post[k] == x);
        }
    }
    assert(a =~= b);
}

/// Character-for-character equality of two string slices.
pub fn str_eq(a: &str, b: &str) -> (r: bool)
    ensures
        r == (a@ == b@),
{
    let na = a.unicode_len();
    let nb = b.unicode_len();
    if na != nb {
        proof {
            assert(a@.len() != b@.len());
        }
        return false;
    }
    let mut i: usize = 0;
    while i < na
        invariant
            i <= na,
            na == a@.len(),
            na == b@.len(),
            forall|j: int| 0 <= j < i ==> a@[j] == b@[j],
        decreases na - i,
    {
        if a.get_char(i) != b.get_char(i) {
            return false;
        }
        i = i + 1;
    }
    proof {
        assert(a@ =~= b@);
    }
    true
}

/// Everything after the first element of a vector.
pub fn tail(vec: &Vec<String>) -> (r: Vec<String>)
    ensures
        vec.len() == 0 ==> r.len() == 0,
        vec.len() > 0 ==> r.deep_view() == vec.deep_view().skip(1),
{
    let mut out: Vec<String> = Vec::new();
    if vec.len() == 0 {
        return out;
    }
    let mut i: usize = 1;
    while i < vec.len()
        invariant
            1 <= i <= vec.len(),
            out.deep_view() == vec.deep_view().subrange(1, i as int),
            vec.deep_view().len() == vec.len(),
        decreases vec.len() - i,
    {
        let ghost pre = out@;
        let ghost pre_dv = out.deep_view();
        out.push(vec[i].clone());
        proof {
            assert(pre_dv == vec.deep_view().subrange(1, i as int));
            assert(pre.len() == pre_dv.len());
            assert(out@ == pre.push(vec@[i as int]));
            assert forall|j: int| 0 <= j < i as int implies out.deep_view()[j]
                == vec.deep_view()[j + 1] by {
                if j < i as int - 1 {
                    assert(out@[j] == pre[j]);
                    assert(out.deep_view()[j] == pre[j].deep_view());
                    assert(pre_dv[j] == pre[j].deep_view());
                    assert(pre_dv[j] == vec.deep_view().subrange(1, i as int)[j]);
                } else {
                    assert(out@[j] == vec@[i as int]);
                    assert(out.deep_view()[j] == vec@[i as int].deep_view());
                    assert(vec.deep_view()[j + 1] == vec@[i as int].deep_view());
                }
            }
            assert(out.deep_view() =~= vec.deep_view().subrange(1, i as int + 1));
        }
        i = i + 1;
    }
    proof {
        assert(vec.deep_view().subrange(1, vec.len() as int) =~= vec.deep_view().skip(1));
    }
    out
}

} // verus!

