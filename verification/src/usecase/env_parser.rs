//! Variables written on one line, as in `A=1 B=2`.
use crate::entity::env::{EnvList, Pair};
use crate::entity::keyed::put;
use crate::text::{split, split_text};
use vstd::prelude::*;
use vstd::string::*;

verus! {

/// The variable that one element of the line assigns: the key stands
/// before the first `=`, the value between the first `=` and the next. An
/// element without `=` assigns nothing.
pub open spec fn element_pair(element: Seq<char>) -> Option<Pair> {
    let parts = split(element, "="@);
    if parts.len() >= 2 {
        Some((parts[0], parts[1]))
    } else {
        None
    }
}

/// `env` after the elements from position `i` on made their assignments,
/// or `None` where one of them assigns nothing.
pub open spec fn elements_assigned(env: Seq<Pair>, elements: Seq<Seq<char>>, i: int) -> Option<
    Seq<Pair>,
>
    decreases elements.len() - i,
{
    if i < 0 || i >= elements.len() {
        Some(env)
    } else {
        match element_pair(elements[i]) {
            Some(p) => elements_assigned(put(env, p.0, p.1), elements, i + 1),
            None => None,
        }
    }
}

/// The variables that a line assigns. The elements of the line are what
/// single spaces separate.
pub open spec fn line_env(s: Seq<char>) -> Option<Seq<Pair>> {
    elements_assigned(Seq::empty(), split(s, " "@), 0)
}

/// Reads the variables that a line assigns, in the order in which their
/// keys first occur; of two assignments to one key the later one counts.
///
/// Gives `None` where an element of the line holds no `=`.
pub fn parse_env(s: &str) -> (r: Option<EnvList>)
    ensures
        r.deep_view() == line_env(s@),
{
    let elements = split_text(s, " ");
    let ghost all = elements.deep_view();
    let mut result = EnvList::new();
    assert(result@ =~= Seq::<Pair>::empty());
    let mut i: usize = 0;
    while i < elements.len()
        invariant
            i <= elements.len(),
            all == elements.deep_view(),
            elements_assigned(result@, all, i as int) == line_env(s@),
        decreases elements.len() - i,
    {
        assert(all[i as int] == elements@[i as int]@);
        let parts = split_text(elements[i].as_str(), "=");
        if parts.len() < 2 {
            return None;
        }
        assert(parts.deep_view()[0] == parts@[0]@);
        assert(parts.deep_view()[1] == parts@[1]@);
        result.set(parts[0].clone(), parts[1].clone());
        i += 1;
    }
    Some(result)
}

} // verus!
