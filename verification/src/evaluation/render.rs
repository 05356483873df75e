use vstd::prelude::*;

use crate::text::{concat2, concat3, owned};
use crate::textset::views;

verus! {

/// What `format!("{:?}", s)` gives for a string: the string quoted, with the
/// characters that `str::escape_debug` escapes escaped.
pub uninterp spec fn debug_quoted(s: Seq<char>) -> Seq<char>;

/// `<str as Debug>::fmt` through `format!`: the quoted, escaped form of a string.
#[verifier::external_body]
fn debug_text(s: &str) -> (r: String)
    ensures
        r@ == debug_quoted(s@),
{
    format!("{:?}", s)
}

/// The quoted forms of the texts, separated by `, `.
pub open spec fn join_debug(items: Seq<Seq<char>>) -> Seq<char>
    decreases items.len(),
{
    if items.len() == 0 {
        seq![]
    } else if items.len() == 1 {
        debug_quoted(items[0])
    } else {
        join_debug(items.drop_last()) + ", "@ + debug_quoted(items.last())
    }
}

/// How `Debug` prints a slice of texts.
pub open spec fn render_list(items: Seq<Seq<char>>) -> Seq<char> {
    "["@ + join_debug(items) + "]"@
}

/// How `Debug` prints an ordered set of texts.
pub open spec fn render_set(items: Seq<Seq<char>>) -> Seq<char> {
    "{"@ + join_debug(items) + "}"@
}

fn join_debug_exec(items: &Vec<String>) -> (r: String)
    ensures
        r@ == join_debug(views(items@)),
{
    let mut out = owned("");
    let mut i: usize = 0;
    proof {
        reveal_strlit("");
        assert(views(items@).take(0) =~= Seq::<Seq<char>>::empty());
    }
    while i < items.len()
        invariant
            i <= items@.len(),
            out@ == join_debug(views(items@).take(i as int)),
        decreases items@.len() - i,
    {
        let q = debug_text(items[i].as_str());
        let ghost t = views(items@).take(i + 1);
        assert(t.drop_last() =~= views(items@).take(i as int));
        assert(t.last() == items@[i as int]@);
        if i == 0 {
            out = q;
            assert(t.len() == 1);
        } else {
            out = concat3(out.as_str(), ", ", q.as_str());
            proof {
                reveal_strlit(", ");
            }
        }
        i = i + 1;
    }
    assert(views(items@).take(items@.len() as int) =~= views(items@));
    out
}

/// `format!("{:?}", items)` for a slice of texts.
pub fn render_list_exec(items: &Vec<String>) -> (r: String)
    ensures
        r@ == render_list(views(items@)),
{
    let inner = join_debug_exec(items);
    proof {
        reveal_strlit("[");
        reveal_strlit("]");
    }
    concat3("[", inner.as_str(), "]")
}

/// `format!("{:?}", set)` for an ordered set of texts given in order.
pub fn render_set_exec(items: &Vec<String>) -> (r: String)
    ensures
        r@ == render_set(views(items@)),
{
    let inner = join_debug_exec(items);
    proof {
        reveal_strlit("{");
        reveal_strlit("}");
    }
    concat3("{", inner.as_str(), "}")
}

} // verus!
