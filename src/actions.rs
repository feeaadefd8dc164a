//! Editing actions, key events, and how an event resolves to an action.
//!
//! An event resolves in order through an `Overrider` hook, then the caller's
//! `KeyBindings`, then the built-in table of `default_action`.
use vstd::prelude::*;

use crate::Context;

verus! {

/// Which way an action goes along the line.
#[derive(Clone, Copy, PartialEq, Eq, Structural, Debug)]
pub enum Direction {
    Forward,
    Backward,
}

/// How far an action reaches.
#[derive(Clone, Copy, PartialEq, Eq, Structural, Debug)]
pub enum Range {
    Single,
    Word,
    Line,
}

/// What a deletion removes, relative to the cursor.
#[derive(Clone, Copy, PartialEq, Eq, Structural, Debug)]
pub enum Scope {
    /// From the cursor over `Range` in `Direction`.
    Relative(Range, Direction),
    /// The word around the cursor.
    WholeWord,
    /// The whole line.
    WholeLine,
}

/// A semantic edit, whatever key produced it.
#[derive(Clone, Copy, PartialEq, Eq, Structural, Debug)]
pub enum Action {
    Write(char),
    Delete(Scope),
    Move(Range, Direction),
    Complete(Range),
    Suggest(Direction),
    Accept,
    Cancel,
    Noop,
}

/// A key of the keyboard.
#[derive(Clone, Copy, PartialEq, Eq, Structural, Debug)]
pub enum KeyCode {
    Char(char),
    Enter,
    Esc,
    Tab,
    BackTab,
    Backspace,
    Delete,
    Left,
    Right,
    Up,
    Down,
    Home,
    End,
    Other,
}

/// The modifier keys held with a key.
#[derive(Clone, Copy, PartialEq, Eq, Structural, Debug)]
pub struct Modifiers {
    pub control: bool,
    pub shift: bool,
    pub alt: bool,
}

/// A key press: a key and the modifiers held with it.
#[derive(Clone, Copy, PartialEq, Eq, Structural, Debug)]
pub struct Event {
    pub code: KeyCode,
    pub modifiers: Modifiers,
}

impl Modifiers {
    /// No modifier held.
    pub fn none() -> (r: Modifiers)
        ensures
            !r.control && !r.shift && !r.alt,
    {
        Modifiers { control: false, shift: false, alt: false }
    }

    /// The control key alone held.
    pub fn control() -> (r: Modifiers)
        ensures
            only_control(r),
    {
        Modifiers { control: true, shift: false, alt: false }
    }

    /// The shift key alone held.
    pub fn shift() -> (r: Modifiers)
        ensures
            only_shift(r),
    {
        Modifiers { control: false, shift: true, alt: false }
    }
}

/// The control key and no other modifier is held.
pub open spec fn only_control(m: Modifiers) -> bool {
    m.control && !m.shift && !m.alt
}

/// The shift key and no other modifier is held.
pub open spec fn only_shift(m: Modifiers) -> bool {
    !m.control && m.shift && !m.alt
}

/// At most the shift key is held: the key types its character.
pub open spec fn typing(m: Modifiers) -> bool {
    !m.control && !m.alt
}

impl Event {
    /// The key `code` pressed with `modifiers`.
    pub fn new(code: KeyCode, modifiers: Modifiers) -> (r: Event)
        ensures
            r == (Event { code, modifiers }),
    {
        Event { code, modifiers }
    }

    /// The key `code` pressed alone.
    pub fn from(code: KeyCode) -> (r: Event)
        ensures
            r.code == code,
            !r.modifiers.control && !r.modifiers.shift && !r.modifiers.alt,
    {
        Event { code, modifiers: Modifiers::none() }
    }
}

/// The built-in table from events to actions.
pub open spec fn default_action_spec(event: Event) -> Action {
    let m = event.modifiers;
    match event.code {
        KeyCode::Char(c) => if typing(m) {
            Action::Write(c)
        } else if only_control(m) {
            if c == 'w' {
                Action::Delete(Scope::WholeWord)
            } else if c == 'j' {
                Action::Delete(Scope::Relative(Range::Word, Direction::Backward))
            } else if c == 'k' {
                Action::Delete(Scope::Relative(Range::Word, Direction::Forward))
            } else if c == 'u' {
                Action::Delete(Scope::WholeLine)
            } else if c == 'h' {
                Action::Delete(Scope::Relative(Range::Line, Direction::Backward))
            } else if c == 'l' {
                Action::Delete(Scope::Relative(Range::Line, Direction::Forward))
            } else {
                Action::Noop
            }
        } else {
            Action::Noop
        },
        KeyCode::Enter => Action::Accept,
        KeyCode::Esc => Action::Cancel,
        KeyCode::Tab => Action::Suggest(Direction::Forward),
        KeyCode::BackTab => Action::Suggest(Direction::Backward),
        KeyCode::Backspace => Action::Delete(Scope::Relative(Range::Single, Direction::Backward)),
        KeyCode::Delete => Action::Delete(Scope::Relative(Range::Single, Direction::Forward)),
        KeyCode::Left => if only_control(m) {
            Action::Move(Range::Word, Direction::Backward)
        } else {
            Action::Move(Range::Single, Direction::Backward)
        },
        KeyCode::Right => if only_control(m) {
            Action::Move(Range::Word, Direction::Forward)
        } else if only_shift(m) {
            Action::Complete(Range::Line)
        } else {
            Action::Move(Range::Single, Direction::Forward)
        },
        KeyCode::Home => Action::Move(Range::Line, Direction::Backward),
        KeyCode::End => Action::Move(Range::Line, Direction::Forward),
        KeyCode::Up | KeyCode::Down | KeyCode::Other => Action::Noop,
    }
}

/// The action that the built-in table gives `event`.
pub fn default_action(event: Event) -> (r: Action)
    ensures
        r == default_action_spec(event),
{
    let m = event.modifiers;
    match event.code {
        KeyCode::Char(c) => if !m.control && !m.alt {
            Action::Write(c)
        } else if m.control && !m.shift && !m.alt {
            if c == 'w' {
                Action::Delete(Scope::WholeWord)
            } else if c == 'j' {
                Action::Delete(Scope::Relative(Range::Word, Direction::Backward))
            } else if c == 'k' {
                Action::Delete(Scope::Relative(Range::Word, Direction::Forward))
            } else if c == 'u' {
                Action::Delete(Scope::WholeLine)
            } else if c == 'h' {
                Action::Delete(Scope::Relative(Range::Line, Direction::Backward))
            } else if c == 'l' {
                Action::Delete(Scope::Relative(Range::Line, Direction::Forward))
            } else {
                Action::Noop
            }
        } else {
            Action::Noop
        },
        KeyCode::Enter => Action::Accept,
        KeyCode::Esc => Action::Cancel,
        KeyCode::Tab => Action::Suggest(Direction::Forward),
        KeyCode::BackTab => Action::Suggest(Direction::Backward),
        KeyCode::Backspace => Action::Delete(Scope::Relative(Range::Single, Direction::Backward)),
        KeyCode::Delete => Action::Delete(Scope::Relative(Range::Single, Direction::Forward)),
        KeyCode::Left => if m.control && !m.shift && !m.alt {
            Action::Move(Range::Word, Direction::Backward)
        } else {
            Action::Move(Range::Single, Direction::Backward)
        },
        KeyCode::Right => if m.control && !m.shift && !m.alt {
            Action::Move(Range::Word, Direction::Forward)
        } else if !m.control && m.shift && !m.alt {
            Action::Complete(Range::Line)
        } else {
            Action::Move(Range::Single, Direction::Forward)
        },
        KeyCode::Home => Action::Move(Range::Line, Direction::Backward),
        KeyCode::End => Action::Move(Range::Line, Direction::Forward),
        KeyCode::Up | KeyCode::Down | KeyCode::Other => Action::Noop,
    }
}

/// A hook that may take over an event before the key bindings and the
/// built-in table see it.
pub trait Overrider {
    /// The action to take for `event`, or `None` to let resolution go on.
    fn override_for(&self, event: Event, context: &Context) -> Option<Action>;
}

/// A table of key bindings: at most one action per event.
pub struct KeyBindings {
    entries: Vec<(Event, Action)>,
}

/// No two entries bind the same event.
pub open spec fn keys_unique(s: Seq<(Event, Action)>) -> bool {
    forall|i: int, j: int| 0 <= i < j < s.len() ==> (#[trigger] s[i]).0 != (#[trigger] s[j]).0
}

/// The map that a list of entries with unique events stands for.
pub open spec fn bindings_map(s: Seq<(Event, Action)>) -> Map<Event, Action> {
    Map::new(
        |e: Event| exists|i: int| 0 <= i < s.len() && s[i].0 == e,
        |e: Event|
            {
                let i = choose|i: int| 0 <= i < s.len() && s[i].0 == e;
                s[i].1
            },
    )
}

proof fn lemma_bindings_lookup(s: Seq<(Event, Action)>, i: int)
    requires
        keys_unique(s),
        0 <= i < s.len(),
    ensures
        bindings_map(s).contains_key(s[i].0),
        bindings_map(s)[s[i].0] == s[i].1,
{
    let e = s[i].0;
    let k = choose|k: int| 0 <= k < s.len() && s[k].0 == e;
    if k != i {
        if k < i {
        } else {
        }
    }
}

impl View for KeyBindings {
    type V = Map<Event, Action>;

    closed spec fn view(&self) -> Map<Event, Action> {
        bindings_map(self.entries@)
    }
}

impl KeyBindings {
    #[verifier::type_invariant]
    spec fn unique(&self) -> bool {
        keys_unique(self.entries@)
    }

    /// An empty table.
    pub fn new() -> (r: KeyBindings)
        ensures
            r@ == Map::<Event, Action>::empty(),
    {
        let r = KeyBindings { entries: Vec::new() };
        r
    }

    /// Binds `event` to `action`, replacing any earlier binding of `event`.
    pub fn insert(&mut self, event: Event, action: Action)
        ensures
            final(self)@ == old(self)@.insert(event, action),
    {
        proof {
            use_type_invariant(&*self);
        }
        let ghost s = self.entries@;
        let mut fresh: Vec<(Event, Action)> = Vec::new();
        let mut replaced = false;
        let mut i: usize = 0;
        while i < self.entries.len()
            invariant
                s == self.entries@,
                keys_unique(s),
                i <= s.len(),
                fresh@.len() == i,
                forall|j: int|
                    0 <= j < i ==> #[trigger] fresh@[j] == (if s[j].0 == event {
                        (event, action)
                    } else {
                        s[j]
                    }),
                replaced <==> exists|j: int| 0 <= j < i && s[j].0 == event,
            decreases s.len() - i,
        {
            if self.entries[i].0 == event {
                fresh.push((event, action));
                replaced = true;
            } else {
                fresh.push(self.entries[i]);
            }
            i = i + 1;
        }
        if !replaced {
            fresh.push((event, action));
        }
        let ghost f = fresh@;
        assert(keys_unique(f));
        assert(bindings_map(f) =~= bindings_map(s).insert(event, action)) by {
            assert forall|e: Event| #[trigger] bindings_map(f).contains_key(e) <==> bindings_map(
                s,
            ).insert(event, action).contains_key(e) by {
                if bindings_map(f).contains_key(e) && e != event {
                    let k = choose|k: int| 0 <= k < f.len() && f[k].0 == e;
                }
                if bindings_map(s).contains_key(e) {
                    let k = choose|k: int| 0 <= k < s.len() && s[k].0 == e;
                    assert(f[k].0 == e);
                }
                if e == event {
                    if replaced {
                        let k = choose|k: int| 0 <= k < s.len() && s[k].0 == event;
                    } else {
                        assert(f[s.len() as int].0 == e);
                    }
                }
            }
            assert forall|e: Event| #[trigger] bindings_map(f).contains_key(e) implies bindings_map(
                f,
            )[e] == bindings_map(s).insert(event, action)[e] by {
                let k = choose|k: int| 0 <= k < f.len() && f[k].0 == e;
                lemma_bindings_lookup(f, k);
                if e != event {
                    lemma_bindings_lookup(s, k);
                }
            }
        }
        self.entries = fresh;
    }

    /// The action bound to `event`, if any.
    pub fn get(&self, event: Event) -> (r: Option<Action>)
        ensures
            r == (if self@.contains_key(event) {
                Some(self@[event])
            } else {
                None
            }),
    {
        proof {
            use_type_invariant(self);
        }
        let mut i: usize = 0;
        while i < self.entries.len()
            invariant
                keys_unique(self.entries@),
                i <= self.entries@.len(),
                forall|j: int| 0 <= j < i ==> (#[trigger] self.entries@[j]).0 != event,
            decreases self.entries.len() - i,
        {
            if self.entries[i].0 == event {
                proof {
                    lemma_bindings_lookup(self.entries@, i as int);
                }
                return Some(self.entries[i].1);
            }
            i = i + 1;
        }
        None
    }
}

impl Overrider for KeyBindings {
    fn override_for(&self, event: Event, context: &Context) -> (r: Option<Action>)
        ensures
            r == (if self@.contains_key(event) {
                Some(self@[event])
            } else {
                None
            }),
    {
        self.get(event)
    }
}

/// The action that resolution gives `event` once the hook has answered
/// `overridden`: the hook's action, else the binding of `event`, else the
/// built-in table's.
pub open spec fn resolved_action(overridden: Option<Action>, bindings: Map<Event, Action>, event: Event) -> Action {
    match overridden {
        Some(a) => a,
        None => if bindings.contains_key(event) {
            bindings[event]
        } else {
            default_action_spec(event)
        },
    }
}

/// Resolves `event` given what the hook answered.
pub fn pick_action(overridden: Option<Action>, bindings: &KeyBindings, event: Event) -> (r: Action)
    ensures
        r == resolved_action(overridden, bindings@, event),
{
    match overridden {
        Some(a) => a,
        None => match bindings.get(event) {
            Some(a) => a,
            None => default_action(event),
        },
    }
}

/// Resolves `event`: first through `overrider`, if any, then `bindings`, then
/// the built-in table.
pub fn resolve<O: Overrider>(
    event: Event,
    context: &Context,
    overrider: Option<&O>,
    bindings: &KeyBindings,
) -> (r: Action)
    ensures
        overrider is None ==> r == resolved_action(None, bindings@, event),
        exists|o: Option<Action>| r == resolved_action(o, bindings@, event),
{
    let overridden = match overrider {
        Some(o) => o.override_for(event, context),
        None => None,
    };
    pick_action(overridden, bindings, event)
}

} // verus!
