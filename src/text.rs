//! Joining fragments of text with a separator.
use vstd::prelude::*;

verus! {

/// The fragments `parts` joined with `sep` between each two neighbours,
/// with no separator before the first or after the last.
pub open spec fn joined(parts: Seq<Seq<char>>, sep: Seq<char>) -> Seq<char>
    decreases parts.len(),
{
    if parts.len() == 0 {
        Seq::empty()
    } else if parts.len() == 1 {
        parts[0]
    } else {
        joined(parts.drop_last(), sep) + sep + parts.last()
    }
}

/// The character sequences of a list of strings.
pub open spec fn views(items: Seq<String>) -> Seq<Seq<char>> {
    items.map_values(|s: String| s@)
}

/// The strings of `items` separated by `", "`.
pub open spec fn comma_list(items: Seq<String>) -> Seq<char> {
    joined(views(items), ", "@)
}

/// Joins `items` with `sep` between each two of them.
pub fn join_strings(items: &Vec<String>, sep: &str) -> (r: String)
    ensures
        r@ == joined(views(items@), sep@),
{
    let mut out = String::new();
    let mut i: usize = 0;
    while i < items.len()
        invariant
            0 <= i <= items.len(),
            out@ == joined(views(items@.take(i as int)), sep@),
        decreases items.len() - i,
    {
        if i > 0 {
            out.append(sep);
        }
        out.append(items[i].as_str());
        proof {
            assert(views(items@.take(i + 1)).drop_last() =~= views(items@.take(i as int)));
        }
        i = i + 1;
    }
    proof {
        assert(items@.take(items.len() as int) =~= items@);
    }
    out
}

} // verus!
