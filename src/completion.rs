//! Providers of in-line completions and of drop-down suggestions.
//!
//! A `Completer` offers a suffix to append to the line; a `Suggester` offers
//! whole lines to replace it. `Basic` serves both from a fixed list of options
//! and `Lambda` turns a closure into either.
use vstd::prelude::*;
use vstd::slice::slice_subrange;

pub use crate::Context;

verus! {

/// Offers a suffix to append to the line being edited.
pub trait Completer {
    /// The completion for `context`, or `None` when there is none.
    fn complete_for<'b>(&'b self, context: &Context) -> Option<&'b [char]>;
}

/// Offers whole lines to replace the line being edited, in the order in which
/// they are to be cycled through.
pub trait Suggester {
    /// The suggestions for `context`; empty when there are none.
    fn suggest_for<'b>(&'b self, context: &Context) -> Vec<&'b [char]>;
}

/// `prefix` is a prefix of `s`.
pub open spec fn is_prefix(prefix: Seq<char>, s: Seq<char>) -> bool {
    prefix.len() <= s.len() && s.subrange(0, prefix.len() as int) == prefix
}

/// Option `k` is the first of `options` that extends `buffer`.
pub open spec fn first_extension(options: Seq<Seq<char>>, buffer: Seq<char>, k: int) -> bool {
    &&& 0 <= k < options.len()
    &&& is_prefix(buffer, options[k])
    &&& forall|j: int| 0 <= j < k ==> !is_prefix(buffer, #[trigger] options[j])
}

/// The in-line completion that a list of options gives for `buffer`: nothing
/// for an empty buffer, else what follows `buffer` in the first option that
/// begins with it, if any does.
pub open spec fn completion_of(options: Seq<Seq<char>>, buffer: Seq<char>, r: Option<Seq<char>>) -> bool {
    if buffer.len() == 0 {
        r is None
    } else {
        match r {
            None => forall|k: int| 0 <= k < options.len() ==> !is_prefix(buffer, #[trigger] options[k]),
            Some(rest) => exists|k: int|
                first_extension(options, buffer, k) && rest == options[k].subrange(
                    buffer.len() as int,
                    options[k].len() as int,
                ),
        }
    }
}

/// Whether `prefix` is a prefix of `s`.
pub fn starts_with(s: &[char], prefix: &[char]) -> (r: bool)
    ensures
        r == is_prefix(prefix@, s@),
{
    if prefix.len() > s.len() {
        return false;
    }
    let mut i: usize = 0;
    while i < prefix.len()
        invariant
            i <= prefix@.len() <= s@.len(),
            forall|j: int| 0 <= j < i ==> s@[j] == prefix@[j],
        decreases prefix.len() - i,
    {
        if s[i] != prefix[i] {
            return false;
        }
        i = i + 1;
    }
    assert(s@.subrange(0, prefix@.len() as int) =~= prefix@);
    true
}

/// The characters of `s`, one element each.
pub fn chars_of(s: &str) -> (r: Vec<char>)
    ensures
        r@ == s@,
{
    let n = s.unicode_len();
    let mut r: Vec<char> = Vec::new();
    let mut i: usize = 0;
    while i < n
        invariant
            n == s@.len(),
            i <= n,
            r@ == s@.subrange(0, i as int),
        decreases n - i,
    {
        r.push(s.get_char(i));
        i = i + 1;
    }
    r
}

/// A completer and suggester backed by a fixed list of options.
///
/// As a `Completer` it offers what follows the line in the first option that
/// begins with it; as a `Suggester` it offers every option, whatever the line.
pub struct Basic(Vec<Vec<char>>);

impl View for Basic {
    type V = Seq<Seq<char>>;

    closed spec fn view(&self) -> Seq<Seq<char>> {
        self.0@.map_values(|o: Vec<char>| o@)
    }
}

impl Basic {
    /// A provider of the given `options`, kept in the order given.
    pub fn new(options: &[&str]) -> (r: Self)
        ensures
            r@.len() == options@.len(),
            forall|k: int| 0 <= k < options@.len() ==> r@[k] == (#[trigger] options@[k])@,
    {
        let mut list: Vec<Vec<char>> = Vec::new();
        let mut i: usize = 0;
        while i < options.len()
            invariant
                i <= options@.len(),
                list@.len() == i,
                forall|k: int| 0 <= k < i ==> (#[trigger] list@[k])@ == options@[k]@,
            decreases options.len() - i,
        {
            list.push(chars_of(options[i]));
            i = i + 1;
        }
        Basic(list)
    }
}

impl Completer for Basic {
    fn complete_for<'b>(&'b self, context: &Context) -> (r: Option<&'b [char]>)
        ensures
            completion_of(
                self@,
                context.text(),
                match r {
                    Some(s) => Some(s@),
                    None => None,
                },
            ),
    {
        let buffer = context.buffer();
        if buffer.len() == 0 {
            return None;
        }
        let mut k: usize = 0;
        while k < self.0.len()
            invariant
                k <= self@.len(),
                buffer@ == context.text(),
                buffer@.len() > 0,
                forall|j: int| 0 <= j < k ==> !is_prefix(buffer@, #[trigger] self@[j]),
            decreases self.0.len() - k,
        {
            let option = self.0[k].as_slice();
            if starts_with(option, buffer) {
                let rest = slice_subrange(option, buffer.len(), option.len());
                assert(first_extension(self@, buffer@, k as int));
                return Some(rest);
            }
            k = k + 1;
        }
        None
    }
}

impl Suggester for Basic {
    fn suggest_for<'b>(&'b self, context: &Context) -> (r: Vec<&'b [char]>)
        ensures
            r@.len() == self@.len(),
            forall|k: int| 0 <= k < self@.len() ==> (#[trigger] r@[k])@ == self@[k],
    {
        let mut r: Vec<&'b [char]> = Vec::new();
        let mut k: usize = 0;
        while k < self.0.len()
            invariant
                k <= self@.len(),
                r@.len() == k,
                forall|j: int| 0 <= j < k ==> (#[trigger] r@[j])@ == self@[j],
            decreases self.0.len() - k,
        {
            let option = self.0[k].as_slice();
            r.push(option);
            k = k + 1;
        }
        r
    }
}

/// Turns a closure into a `Completer` (one that returns `Option<&[char]>`) or
/// a `Suggester` (one that returns `Vec<&[char]>`).
#[verifier::reject_recursive_types(R)]
pub struct Lambda<'a, F, R> where F: Fn(&Context) -> R {
    lambda: F,
    _phantom: std::marker::PhantomData<&'a ()>,
}

impl<'a, F, R> Lambda<'a, F, R> where F: Fn(&Context) -> R {
    /// The closure held.
    pub closed spec fn function(&self) -> F {
        self.lambda
    }

    #[verifier::type_invariant]
    spec fn callable(&self) -> bool {
        forall|c: &Context| #[trigger] self.lambda.requires((c,))
    }

    /// Wraps `lambda`, which must accept every context.
    pub fn from(lambda: F) -> (r: Self)
        requires
            forall|c: &Context| #[trigger] lambda.requires((c,)),
        ensures
            r.function() == lambda,
    {
        Lambda { lambda, _phantom: std::marker::PhantomData }
    }
}

impl<'a, F> Completer for Lambda<'a, F, Option<&'a [char]>> where
    F: Fn(&Context) -> Option<&'a [char]>,
 {
    fn complete_for<'b>(&'b self, context: &Context) -> (r: Option<&'b [char]>)
        ensures
            self.function().ensures((context,), r),
    {
        proof {
            use_type_invariant(self);
        }
        (self.lambda)(context)
    }
}

impl<'a, F> Suggester for Lambda<'a, F, Vec<&'a [char]>> where F: Fn(&Context) -> Vec<&'a [char]> {
    fn suggest_for<'b>(&'b self, context: &Context) -> (r: Vec<&'b [char]>)
        ensures
            self.function().ensures((context,), r),
    {
        proof {
            use_type_invariant(self);
        }
        (self.lambda)(context)
    }
}

} // verus!
