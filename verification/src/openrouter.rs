//! Interpretation of the intent classifier's answer.
//!
//! The classifier collaborator is asked, over the network, whether a piece
//! of freeform text means the session should end; its reply is a short
//! piece of text. The network call lives in the embedding program; the
//! decision — the reply counts as positive exactly when it is `1` once
//! surrounding whitespace is stripped — is made here.
use vstd::prelude::*;

verus! {

/// ASCII whitespace, as stripped from a classifier reply.
pub open spec fn spec_is_ws(c: char) -> bool {
    c == ' ' || c == '\n' || c == '\t' || c == '\r'
}

/// `t` without leading whitespace.
pub open spec fn spec_trim_start(t: Seq<char>) -> Seq<char>
    decreases t.len(),
{
    if t.len() > 0 && spec_is_ws(t[0]) {
        spec_trim_start(t.drop_first())
    } else {
        t
    }
}

/// `t` without trailing whitespace.
pub open spec fn spec_trim_end(t: Seq<char>) -> Seq<char>
    decreases t.len(),
{
    if t.len() > 0 && spec_is_ws(t.last()) {
        spec_trim_end(t.drop_last())
    } else {
        t
    }
}

/// `t` without surrounding whitespace.
pub open spec fn spec_trim(t: Seq<char>) -> Seq<char> {
    spec_trim_end(spec_trim_start(t))
}

/// A classifier reply that means "end the session".
pub open spec fn spec_reply_positive(t: Seq<char>) -> bool {
    spec_trim(t) == ("1")@
}

fn is_ws(c: char) -> (r: bool)
    ensures
        r == spec_is_ws(c),
{
    c == ' ' || c == '\n' || c == '\t' || c == '\r'
}

/// Whether the classifier's reply, stripped of surrounding whitespace, is
/// exactly `1`.
pub fn reply_indicates_sit(reply: &str) -> (r: bool)
    ensures
        r == spec_reply_positive(reply@),
{
    let n = reply.unicode_len();
    let mut lo: usize = 0;
    proof {
        assert(reply@.skip(0) =~= reply@);
    }
    while lo < n && is_ws(reply.get_char(lo))
        invariant
            n == reply@.len(),
            lo <= n,
            spec_trim_start(reply@) == spec_trim_start(reply@.skip(lo as int)),
        decreases n - lo,
    {
        proof {
            assert(reply@.skip(lo as int).drop_first() =~= reply@.skip(lo as int + 1));
        }
        lo = lo + 1;
    }
    proof {
        if lo < n {
            assert(!spec_is_ws(reply@.skip(lo as int)[0]));
        }
        assert(spec_trim_start(reply@) == reply@.skip(lo as int));
    }
    let mut hi: usize = n;
    proof {
        let u = reply@.skip(lo as int);
        assert(u.take(n as int - lo as int) =~= u);
    }
    while hi > lo && is_ws(reply.get_char(hi - 1))
        invariant
            n == reply@.len(),
            lo <= hi <= n,
            spec_trim_start(reply@) == reply@.skip(lo as int),
            spec_trim_end(reply@.skip(lo as int)) == spec_trim_end(
                reply@.skip(lo as int).take(hi as int - lo as int),
            ),
        decreases hi,
    {
        proof {
            let u = reply@.skip(lo as int);
            let v = u.take(hi as int - lo as int);
            assert(v.last() == reply@[hi as int - 1]);
            assert(v.drop_last() =~= u.take(hi as int - 1 - lo as int));
        }
        hi = hi - 1;
    }
    proof {
        let u = reply@.skip(lo as int);
        let v = u.take(hi as int - lo as int);
        if hi > lo {
            assert(v.last() == reply@[hi as int - 1]);
            assert(!spec_is_ws(v.last()));
        }
        assert(spec_trim_end(v) == v);
        assert(spec_trim(reply@) == v);
        reveal_strlit("1");
    }
    if hi - lo == 1 && reply.get_char(lo) == '1' {
        proof {
            let v = reply@.skip(lo as int).take(1);
            assert(v.len() == 1);
            assert(v[0] == reply@[lo as int]);
            assert(v =~= ("1")@);
        }
        true
    } else {
        proof {
            let v = reply@.skip(lo as int).take(hi as int - lo as int);
            if spec_trim(reply@) == ("1")@ {
                assert(v.len() == 1);
                assert(v[0] == reply@[lo as int]);
                assert(reply@[lo as int] == '1');
            }
        }
        false
    }
}

} // verus!
