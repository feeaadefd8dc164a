//! The in-line completer that a prompt builds from a list of options.
use vstd::prelude::*;
use vstd::slice::{slice_subrange, slice_to_vec};

use crate::completion::{chars_of, completion_of, first_extension, is_prefix, starts_with};

verus! {

/// Offers, for a line, what follows it in the first stored option that
/// begins with it.
pub struct Completer {
    completions: Vec<Vec<char>>,
}

impl View for Completer {
    type V = Seq<Seq<char>>;

    closed spec fn view(&self) -> Seq<Seq<char>> {
        self.completions@.map_values(|c: Vec<char>| c@)
    }
}

impl Completer {
    /// A completer over `completions`, kept in the order given.
    pub fn from(completions: &[&str]) -> (r: Self)
        ensures
            r@.len() == completions@.len(),
            forall|k: int| 0 <= k < completions@.len() ==> r@[k] == (#[trigger] completions@[k])@,
    {
        let mut list: Vec<Vec<char>> = Vec::new();
        let mut i: usize = 0;
        while i < completions.len()
            invariant
                i <= completions@.len(),
                list@.len() == i,
                forall|k: int| 0 <= k < i ==> (#[trigger] list@[k])@ == completions@[k]@,
            decreases completions.len() - i,
        {
            list.push(chars_of(completions[i]));
            i = i + 1;
        }
        Completer { completions: list }
    }

    /// The completion for `buffer`: nothing for an empty buffer, else a copy of
    /// what follows `buffer` in the first option that begins with it.
    pub fn complete_for(&self, buffer: &Vec<char>) -> (r: Option<Vec<char>>)
        ensures
            completion_of(
                self@,
                buffer@,
                match r {
                    Some(s) => Some(s@),
                    None => None,
                },
            ),
    {
        if buffer.len() == 0 {
            return None;
        }
        let mut k: usize = 0;
        while k < self.completions.len()
            invariant
                k <= self@.len(),
                buffer@.len() > 0,
                forall|j: int| 0 <= j < k ==> !is_prefix(buffer@, #[trigger] self@[j]),
            decreases self.completions.len() - k,
        {
            let option = self.completions[k].as_slice();
            if starts_with(option, buffer.as_slice()) {
                let rest = slice_to_vec(slice_subrange(option, buffer.len(), option.len()));
                assert(first_extension(self@, buffer@, k as int));
                return Some(rest);
            }
            k = k + 1;
        }
        None
    }
}

} // verus!
