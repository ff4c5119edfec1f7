//! The order of the middleware chain of a request, and the `Cookie` header
//! that each hop of it sends.
use vstd::prelude::*;
use vstd::string::StringExecFns;

verus! {

/// One stage of the chain of a request.
#[derive(PartialEq, Eq, Structural)]
pub enum Stage {
    /// The client's middleware with this index.
    Global(usize),
    /// The request's own middleware with this index.
    Request(usize),
    /// Redirect following, with the most redirects allowed.
    Redirect(u16),
    /// Retrying under the request's retry policy.
    Retry,
}

/// The chain of a request: the client's middlewares, then the request's
/// own, then redirect following where redirects are allowed, then retrying
/// where a retry policy is set, closest to the transport.
pub open spec fn chain_plan(n_global: nat, n_request: nat, max_redirects: u16, has_retry: bool) -> Seq<Stage> {
    Seq::new(n_global, |i: int| Stage::Global(i as usize))
        + Seq::new(n_request, |i: int| Stage::Request(i as usize))
        + (if max_redirects > 0 { seq![Stage::Redirect(max_redirects)] } else { Seq::empty() })
        + (if has_retry { seq![Stage::Retry] } else { Seq::empty() })
}

/// The stages of the chain of a request with `n_global` client middlewares
/// and `n_request` middlewares of its own, in the order they run.
pub fn plan_chain(n_global: usize, n_request: usize, max_redirects: u16, has_retry: bool) -> (r: Vec<Stage>)
    ensures
        r@ == chain_plan(n_global as nat, n_request as nat, max_redirects, has_retry),
{
    let mut out: Vec<Stage> = Vec::new();
    let mut i: usize = 0;
    while i < n_global
        invariant
            i <= n_global,
            out@ == Seq::new(i as nat, |k: int| Stage::Global(k as usize)),
        decreases n_global - i,
    {
        out.push(Stage::Global(i));
        i = i + 1;
        proof {
            assert(out@ =~= Seq::new(i as nat, |k: int| Stage::Global(k as usize)));
        }
    }
    let ghost globals = out@;
    let mut j: usize = 0;
    while j < n_request
        invariant
            j <= n_request,
            globals == Seq::new(n_global as nat, |k: int| Stage::Global(k as usize)),
            out@ == globals + Seq::new(j as nat, |k: int| Stage::Request(k as usize)),
        decreases n_request - j,
    {
        out.push(Stage::Request(j));
        j = j + 1;
        proof {
            assert(out@ =~= globals + Seq::new(j as nat, |k: int| Stage::Request(k as usize)));
        }
    }
    let ghost middle = out@;
    if max_redirects > 0 {
        out.push(Stage::Redirect(max_redirects));
    }
    let ghost with_redirect = out@;
    if has_retry {
        out.push(Stage::Retry);
    }
    proof {
        assert(with_redirect =~= middle + (if max_redirects > 0 { seq![Stage::Redirect(max_redirects)] } else { Seq::empty() }));
        assert(out@ =~= chain_plan(n_global as nat, n_request as nat, max_redirects, has_retry));
    }
    out
}

/// The values joined with `"; "` between them.
pub open spec fn joined(values: Seq<Seq<char>>) -> Seq<char>
    decreases values.len(),
{
    if values.len() == 0 {
        Seq::empty()
    } else if values.len() == 1 {
        values[0]
    } else {
        joined(values.drop_last()) + "; "@ + values.last()
    }
}

/// The `Cookie` header value for the `name=value` texts of a request: the
/// texts joined with `"; "`.
pub fn cookie_header(values: &Vec<String>) -> (r: String)
    ensures
        r@ == joined(values@.map_values(|v: String| v@)),
{
    let mut out = String::new();
    let ghost views = values@.map_values(|v: String| v@);
    let mut i: usize = 0;
    while i < values.len()
        invariant
            i <= values@.len(),
            views == values@.map_values(|v: String| v@),
            out@ == joined(views.subrange(0, i as int)),
        decreases values@.len() - i,
    {
        let ghost pre = views.subrange(0, i as int + 1);
        proof {
            assert(pre.drop_last() =~= views.subrange(0, i as int));
        }
        if i > 0 {
            out.append("; ");
        }
        out.append(values[i].as_str());
        proof {
            if i == 0 {
                assert(out@ =~= pre[0]);
            } else {
                assert(out@ =~= joined(pre.drop_last()) + "; "@ + pre.last());
            }
        }
        i = i + 1;
    }
    proof {
        assert(views.subrange(0, values@.len() as int) =~= views);
    }
    out
}

} // verus!
