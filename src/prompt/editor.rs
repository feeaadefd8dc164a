//! The step function of a prompt: applies one action to the line and to the
//! completion or suggestion overlay on top of it.
use vstd::prelude::*;
use vstd::slice::{slice_subrange, slice_to_vec};

use crate::actions::{Action, Direction, Range};
use crate::completion::{Completer, Suggester};
use crate::prompt::buffer::{cut_spec, deletion_span, move_target, text_of, Buffer};
use crate::prompt::navigation::{is_next_word, next_word, word_bounds_of};

verus! {

/// What lies on top of the line without being part of it yet.
pub enum Overlay {
    /// Nothing.
    Empty,
    /// A suffix offered for appending to the line.
    Completion(Vec<char>),
    /// Lines offered to replace the line, and the one selected.
    Suggestions(Vec<Vec<char>>, usize),
}

/// What the read loop does after an action.
#[derive(Debug, PartialEq, Eq)]
pub enum Outcome {
    /// Go on reading.
    Continue,
    /// Stop, with the line read.
    Accept(String),
    /// Stop, with no line.
    Cancel,
}

/// The selection that follows `i` among `n` suggestions in `direction`,
/// wrapping around at either end.
pub open spec fn next_index(i: int, n: int, direction: Direction) -> int {
    match direction {
        Direction::Forward => (i + 1) % n,
        Direction::Backward => (i + n - 1) % n,
    }
}

/// The selection that a new cycle of `n` suggestions starts on.
pub open spec fn first_index(n: int, direction: Direction) -> int {
    match direction {
        Direction::Forward => 0,
        Direction::Backward => n - 1,
    }
}

/// The selection after `k` steps in `direction` from `i` among `n` suggestions.
pub open spec fn steps(i: int, n: int, k: nat, direction: Direction) -> int
    decreases k,
{
    if k == 0 {
        i
    } else {
        next_index(steps(i, n, (k - 1) as nat, direction), n, direction)
    }
}

/// The part of a completion that `Complete(range)` takes.
pub open spec fn completion_part(preview: Seq<char>, range: Range, taken: Seq<char>) -> bool {
    match range {
        Range::Line => taken == preview,
        Range::Single => taken == preview.subrange(0, if preview.len() > 0 {
            1int
        } else {
            0int
        }),
        Range::Word => exists|n: int|
            is_next_word(word_bounds_of(preview), 0, n) && 0 <= n <= preview.len() && taken
                == preview.subrange(0, n),
    }
}

proof fn lemma_next_index(i: int, n: int, direction: Direction, next: int)
    requires
        0 <= i < n,
        direction == Direction::Forward ==> next == (if i + 1 < n {
            i + 1
        } else {
            0
        }),
        direction == Direction::Backward ==> next == (if i > 0 {
            i - 1
        } else {
            n - 1
        }),
    ensures
        next == next_index(i, n, direction),
        0 <= next < n,
{
    if direction == Direction::Forward {
        if i + 1 < n {
            vstd::arithmetic::div_mod::lemma_small_mod((i + 1) as nat, n as nat);
        } else {
            vstd::arithmetic::div_mod::lemma_mod_self_0(n);
        }
    } else {
        if i > 0 {
            vstd::arithmetic::div_mod::lemma_mod_add_multiples_vanish(i - 1, n);
            vstd::arithmetic::div_mod::lemma_small_mod((i - 1) as nat, n as nat);
        } else {
            vstd::arithmetic::div_mod::lemma_small_mod((n - 1) as nat, n as nat);
        }
    }
}

proof fn lemma_steps_forward(i: int, n: int, k: nat)
    requires
        0 <= i < n,
    ensures
        steps(i, n, k, Direction::Forward) == (i + k) % n,
    decreases k,
{
    if k > 0 {
        lemma_steps_forward(i, n, (k - 1) as nat);
        let prev = steps(i, n, (k - 1) as nat, Direction::Forward);
        if n == 1 {
            vstd::arithmetic::div_mod::lemma_fundamental_div_mod_converse(i + k, 1, i + k, 0);
            vstd::arithmetic::div_mod::lemma_fundamental_div_mod_converse(prev + 1, 1, prev + 1, 0);
        } else {
            vstd::arithmetic::div_mod::lemma_add_mod_noop(i + k - 1, 1, n);
            vstd::arithmetic::div_mod::lemma_small_mod(1, n as nat);
        }
    } else {
        vstd::arithmetic::div_mod::lemma_small_mod(i as nat, n as nat);
    }
}

/// Cycling wraps around: from any selection among `n` suggestions, `n`
/// forward steps come back to it, and one backward step from the first
/// selects the last.
pub proof fn lemma_cycle_wraps(n: int, i: int)
    requires
        0 <= i < n,
    ensures
        steps(i, n, n as nat, Direction::Forward) == i,
        next_index(0, n, Direction::Backward) == n - 1,
{
    lemma_steps_forward(i, n, n as nat);
    vstd::arithmetic::div_mod::lemma_mod_add_multiples_vanish(i, n);
    vstd::arithmetic::div_mod::lemma_small_mod(i as nat, n as nat);
    vstd::arithmetic::div_mod::lemma_small_mod((n - 1) as nat, n as nat);
}

/// A line being edited, with its overlay.
pub struct Editor {
    buffer: Buffer,
    overlay: Overlay,
}

impl Editor {
    /// The characters of the line.
    pub closed spec fn text(&self) -> Seq<char> {
        self.buffer.text()
    }

    /// The cursor.
    pub closed spec fn position(&self) -> int {
        self.buffer.position()
    }

    /// The completion offered, if any.
    pub closed spec fn preview(&self) -> Option<Seq<char>> {
        match self.overlay {
            Overlay::Completion(c) => Some(c@),
            _ => None,
        }
    }

    /// A cycle of suggestions is under way.
    pub closed spec fn cycling(&self) -> bool {
        self.overlay is Suggestions
    }

    /// The suggestions of the cycle under way.
    pub closed spec fn choices(&self) -> Seq<Seq<char>> {
        match self.overlay {
            Overlay::Suggestions(list, _) => list@.map_values(|s: Vec<char>| s@),
            _ => Seq::empty(),
        }
    }

    /// The suggestion selected in the cycle under way.
    pub closed spec fn selected(&self) -> int {
        match self.overlay {
            Overlay::Suggestions(_, i) => i as int,
            _ => 0,
        }
    }

    /// A cycle under way has a selected suggestion.
    pub open spec fn wf(&self) -> bool {
        self.cycling() ==> 0 <= self.selected() < self.choices().len()
    }

    /// The line as it stands once a selected suggestion is taken into it.
    pub open spec fn committed_text(&self) -> Seq<char> {
        if self.cycling() {
            self.choices()[self.selected()]
        } else {
            self.text()
        }
    }

    /// The cursor as it stands once a selected suggestion is taken into the line.
    pub open spec fn committed_position(&self) -> int {
        if self.cycling() {
            self.choices()[self.selected()].len() as int
        } else {
            self.position()
        }
    }

    /// An empty line with nothing on top.
    pub fn new() -> (r: Editor)
        ensures
            r.wf(),
            r.text() == Seq::<char>::empty(),
            r.position() == 0,
            r.preview() is None,
            !r.cycling(),
    {
        Editor { buffer: Buffer::new(), overlay: Overlay::Empty }
    }

    /// The line.
    pub fn buffer(&self) -> (r: &Buffer)
        ensures
            r.text() == self.text(),
            r.position() == self.position(),
    {
        &self.buffer
    }

    /// The completion offered, if any.
    pub fn completion(&self) -> (r: Option<&[char]>)
        ensures
            match r {
                Some(s) => self.preview() == Some(s@),
                None => self.preview() is None,
            },
    {
        match &self.overlay {
            Overlay::Completion(c) => Some(c.as_slice()),
            _ => None,
        }
    }

    /// The suggestion selected, if a cycle is under way.
    pub fn suggestion(&self) -> (r: Option<&[char]>)
        requires
            self.wf(),
        ensures
            match r {
                Some(s) => self.cycling() && s@ == self.choices()[self.selected()],
                None => !self.cycling(),
            },
    {
        match &self.overlay {
            Overlay::Suggestions(list, i) => Some(list[*i].as_slice()),
            _ => None,
        }
    }

    /// Takes a selected suggestion into the line, replacing it, and ends the cycle.
    fn commit(&mut self)
        requires
            old(self).wf(),
        ensures
            final(self).text() == old(self).committed_text(),
            final(self).position() == old(self).committed_position(),
            !final(self).cycling(),
            old(self).cycling() ==> final(self).preview() is None,
            !old(self).cycling() ==> final(self).preview() == old(self).preview(),
    {
        if let Overlay::Suggestions(list, i) = &self.overlay {
            let chosen = slice_to_vec(list[*i].as_slice());
            self.buffer.overwrite(chosen.as_slice());
            self.overlay = Overlay::Empty;
        }
    }

    /// Sets the completion offered to `completion`, or clears it.
    pub fn offer(&mut self, completion: Option<&[char]>)
        ensures
            final(self).text() == old(self).text(),
            final(self).position() == old(self).position(),
            !final(self).cycling(),
            final(self).preview() == match completion {
                Some(s) => Some(s@),
                None => None::<Seq<char>>,
            },
    {
        self.overlay = match completion {
            Some(s) => Overlay::Completion(slice_to_vec(s)),
            None => Overlay::Empty,
        };
    }

    /// Asks `completer` for the completion of the line as it now stands.
    fn refresh<C: Completer>(&mut self, completer: Option<&C>)
        ensures
            final(self).text() == old(self).text(),
            final(self).position() == old(self).position(),
            !final(self).cycling(),
            completer is None ==> final(self).preview() is None,
    {
        let found = match completer {
            Some(c) => {
                let context = self.buffer.context();
                match c.complete_for(&context) {
                    Some(s) => Some(slice_to_vec(s)),
                    None => None,
                }
            },
            None => None,
        };
        match found {
            Some(v) => self.offer(Some(v.as_slice())),
            None => self.offer(None),
        }
    }

    /// Starts a cycle over `list`, selecting its first entry going forward or
    /// its last going backward; an empty list leaves everything as it was.
    pub fn start_cycle(&mut self, list: Vec<Vec<char>>, direction: Direction)
        requires
            old(self).wf(),
        ensures
            final(self).wf(),
            final(self).text() == old(self).text(),
            final(self).position() == old(self).position(),
            list@.len() == 0 ==> final(self).cycling() == old(self).cycling() && final(self).preview() == old(self).preview() && final(self).choices() == old(self).choices()
                && final(self).selected() == old(self).selected(),
            list@.len() > 0 ==> final(self).cycling() && final(self).preview() is None && final(self).choices() == list@.map_values(|s: Vec<char>| s@) && final(self).selected()
                == first_index(list@.len() as int, direction),
    {
        let n = list.len();
        if n > 0 {
            let first = match direction {
                Direction::Forward => 0,
                Direction::Backward => n - 1,
            };
            self.overlay = Overlay::Suggestions(list, first);
        }
    }

    /// Applies `action`, asking `completer` for a fresh completion after an
    /// edit and `suggester` for the list when a cycle of suggestions starts.
    ///
    /// `Write`, `Delete`, `Move` and `Accept` first take a selected
    /// suggestion into the line, then do their own work on it.
    pub fn apply<C: Completer, S: Suggester>(
        &mut self,
        action: Action,
        completer: Option<&C>,
        suggester: Option<&S>,
    ) -> (r: Outcome)
        requires
            old(self).wf(),
        ensures
            final(self).wf(),
            action is Write ==> r is Continue && !final(self).cycling() && final(self).text()
                == old(self).committed_text().insert(
                old(self).committed_position(),
                action->Write_0,
            ) && final(self).position() == old(self).committed_position() + 1,
            action is Write && old(self).cycling() ==> final(self).text() == old(self).choices()[old(self).selected()].push(action->Write_0),
            action is Delete ==> r is Continue && !final(self).cycling() && exists|
                from: int,
                to: int,
            |
                deletion_span(
                    old(self).committed_text(),
                    old(self).committed_position(),
                    action->Delete_0,
                    from,
                    to,
                ) && final(self).text() == cut_spec(old(self).committed_text(), from, to)
                    && final(self).position() == from,
            action is Move ==> r is Continue && !final(self).cycling() && final(self).text()
                == old(self).committed_text() && move_target(
                old(self).committed_text(),
                old(self).committed_position(),
                action->Move_0,
                action->Move_1,
                final(self).position(),
            ) && final(self).preview() == (if old(self).cycling() {
                None
            } else {
                old(self).preview()
            }),
            action is Complete ==> r is Continue,
            action is Complete && (old(self).cycling() || old(self).preview() is None) ==> *final(self) == *old(self),
            action is Complete && !old(self).cycling() && old(self).preview() is Some ==> !final(self).cycling() && exists|taken: Seq<char>|
                completion_part(old(self).preview()->0, action->Complete_0, taken) && final(self).text() == old(self).text() + taken && final(self).position() == final(self).text().len(),
            action is Suggest ==> r is Continue && final(self).text() == old(self).text() && final(self).position() == old(self).position(),
            action is Suggest && old(self).cycling() ==> final(self).cycling() && final(self).preview() is None && final(self).choices() == old(self).choices() && final(self).selected() == next_index(
                old(self).selected(),
                old(self).choices().len() as int,
                action->Suggest_0,
            ),
            action is Suggest && !old(self).cycling() && final(self).cycling() ==> final(self).selected() == first_index(final(self).choices().len() as int, action->Suggest_0),
            action is Accept ==> !final(self).cycling() && final(self).text() == old(self).committed_text() && r is Accept && r->Accept_0@ == old(self).committed_text(),
            (action is Write || action is Delete) && completer is None ==> final(self).preview() is None,
            action is Suggest && !old(self).cycling() && suggester is None ==> !final(self).cycling()
                && final(self).preview() == old(self).preview(),
            action is Cancel ==> r is Cancel && *final(self) == *old(self),
            action is Noop ==> r is Continue && *final(self) == *old(self),
    {
        match action {
            Action::Write(c) => {
                let ghost before = self.committed_text();
                self.commit();
                self.buffer.write(c);
                self.refresh(completer);
                Outcome::Continue
            },
            Action::Delete(scope) => {
                self.commit();
                self.buffer.delete(scope);
                self.refresh(completer);
                Outcome::Continue
            },
            Action::Move(range, direction) => {
                self.commit();
                self.buffer.move_cursor(range, direction);
                Outcome::Continue
            },
            Action::Complete(range) => {
                let ghost before = self.preview();
                let taken = match &self.overlay {
                    Overlay::Completion(preview) => {
                        let n = match range {
                            Range::Line => preview.len(),
                            Range::Single => if preview.len() > 0 {
                                1
                            } else {
                                0
                            },
                            Range::Word => next_word(0, &text_of(preview.as_slice())),
                        };
                        let part = slice_to_vec(slice_subrange(preview.as_slice(), 0, n));
                        proof {
                            let p = preview@;
                            assert(p.subrange(0, p.len() as int) == p);
                            if range == Range::Word {
                                assert(is_next_word(word_bounds_of(p), 0, n as int) && 0 <= n
                                    <= p.len() && part@ == p.subrange(0, n as int));
                            }
                        }
                        Some(part)
                    },
                    _ => None,
                };
                match taken {
                    Some(part) => {
                        self.buffer.append(part.as_slice());
                        self.refresh(completer);
                        assert(completion_part(before->0, range, part@) && self.text() == old(self).text()
                            + part@);
                    },
                    None => {},
                }
                Outcome::Continue
            },
            Action::Suggest(direction) => {
                let mut current = Overlay::Empty;
                std::mem::swap(&mut current, &mut self.overlay);
                match current {
                    Overlay::Suggestions(list, i) => {
                        let n = list.len();
                        let next = match direction {
                            Direction::Forward => if i + 1 < n {
                                i + 1
                            } else {
                                0
                            },
                            Direction::Backward => if i > 0 {
                                i - 1
                            } else {
                                n - 1
                            },
                        };
                        proof {
                            lemma_next_index(i as int, n as int, direction, next as int);
                        }
                        self.overlay = Overlay::Suggestions(list, next);
                    },
                    other => {
                        self.overlay = other;
                        let list = match suggester {
                            Some(s) => {
                                let context = self.buffer.context();
                                let found = s.suggest_for(&context);
                                let mut owned: Vec<Vec<char>> = Vec::new();
                                let mut k: usize = 0;
                                while k < found.len()
                                    invariant
                                        k <= found@.len(),
                                    decreases found.len() - k,
                                {
                                    owned.push(slice_to_vec(found[k]));
                                    k = k + 1;
                                }
                                owned
                            },
                            None => Vec::new(),
                        };
                        self.start_cycle(list, direction);
                    },
                }
                Outcome::Continue
            },
            Action::Accept => {
                self.commit();
                Outcome::Accept(self.buffer.to_string())
            },
            Action::Cancel => Outcome::Cancel,
            Action::Noop => Outcome::Continue,
        }
    }
}

} // verus!
