//! What the transport loop reports when the service fails.
use vstd::prelude::*;
use vstd::string::StringExecFns;

verus! {

/// The messages of an error and its sources, outermost first, joined by
/// `: `.
pub open spec fn joined_sources(msgs: Seq<Seq<char>>) -> Seq<char>
    decreases msgs.len(),
{
    if msgs.len() == 0 {
        Seq::empty()
    } else if msgs.len() == 1 {
        msgs[0]
    } else {
        joined_sources(msgs.drop_last()) + ": "@ + msgs.last()
    }
}

/// The report of an error chain: the message of the error, then that of
/// each source in turn, separated by `: `. `chain` holds the messages,
/// outermost first.
pub fn display_sources(chain: &Vec<String>) -> (r: String)
    ensures
        r@ == joined_sources(chain@.map_values(|s: String| s@)),
{
    let ghost msgs = chain@.map_values(|s: String| s@);
    if chain.len() == 0 {
        return String::new();
    }
    let mut out = chain[0].clone();
    assert(msgs.subrange(0, 1).drop_last() =~= Seq::<Seq<char>>::empty());
    let mut i: usize = 1;
    while i < chain.len()
        invariant
            1 <= i <= chain@.len(),
            msgs == chain@.map_values(|s: String| s@),
            out@ == joined_sources(msgs.subrange(0, i as int)),
        decreases chain@.len() - i,
    {
        out.append(": ");
        out.append(chain[i].as_str());
        assert(msgs.subrange(0, i + 1).drop_last() =~= msgs.subrange(0, i as int));
        i = i + 1;
    }
    assert(msgs.subrange(0, chain@.len() as int) =~= msgs);
    out
}

} // verus!
