//! The logic of the plugin that searches the recently used files.
use crate::calc::first_index;
use crate::text::{ascii_lowercase, chars_of, string_of, sub_chars, to_ascii_lowercase, trim, trim_seq};
use vstd::prelude::*;

verus! {

/// The query of a search: what follows its first space, trimmed and in ASCII lower case; none
/// without a space.
pub open spec fn normalized_query(q: Seq<char>) -> Option<Seq<char>> {
    match first_index(q, ' ') {
        Some(p) => Some(ascii_lowercase(trim_seq(q.subrange(p + 1, q.len() as int)))),
        None => None,
    }
}

/// The query of a search, if it has one.
pub fn normalized(input: &str) -> (r: Option<String>)
    ensures
        match r {
            Some(s) => normalized_query(input@) == Some(s@),
            None => normalized_query(input@) is None,
        },
{
    let cs = chars_of(input);
    let mut i: usize = 0;
    while i < cs.len()
        invariant
            cs@ == input@,
            0 <= i <= cs@.len(),
            forall|j: int| 0 <= j < i ==> cs@[j] != ' ',
        decreases cs@.len() - i,
    {
        if cs[i] == ' ' {
            proof {
                assert(crate::plugin_config::is_first_pos(cs@, ' ', i as int));
                let k = choose|k: int| crate::plugin_config::is_first_pos(cs@, ' ', k);
                crate::plugin_config::lemma_first_pos_unique(cs@, ' ', k, i as int);
            }
            let t = trim(&sub_chars(&cs, i + 1, cs.len()));
            return Some(string_of(&to_ascii_lowercase(&t)));
        }
        i = i + 1;
    }
    None
}

} // verus!
