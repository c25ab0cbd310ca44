use vstd::prelude::*;

verus! {

/// The parts joined by `sep`, in order: nothing for no parts, the part
/// itself for one, and `sep` between every two neighbours otherwise.
pub open spec fn joined(parts: Seq<Seq<char>>, sep: Seq<char>) -> Seq<char>
    decreases parts.len(),
{
    if parts.len() == 0 {
        Seq::empty()
    } else if parts.len() == 1 {
        parts[0]
    } else {
        joined(parts.drop_last(), sep) + sep + parts.last()
    }
}

/// Joining one more part extends the joined text by the separator and that
/// part, or starts it when nothing was joined yet.
pub proof fn lemma_joined_push(parts: Seq<Seq<char>>, part: Seq<char>, sep: Seq<char>)
    ensures
        joined(parts.push(part), sep) == (if parts.len() == 0 {
            part
        } else {
            joined(parts, sep) + sep + part
        }),
{
    assert(parts.push(part).drop_last() =~= parts);
}

} // verus!

verus! {

/// The text of each string in `v`, in order.
pub open spec fn views(v: Seq<String>) -> Seq<Seq<char>> {
    v.map_values(|s: String| s@)
}

} // verus!

verus! {

/// The text of an optional string.
pub open spec fn opt_view(o: Option<String>) -> Option<Seq<char>> {
    match o {
        Some(s) => Some(s@),
        None => None,
    }
}

} // verus!
