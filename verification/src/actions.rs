//! The compiled form of a macro script: instructions, actions, and the
//! action registry.

use vstd::prelude::*;
use crate::keys::{Key, MouseButton};
use crate::norm::str_eq;

verus! {

/// A cursor-move direction. `Up` and `Left` move by the negative of the
/// written distance when replayed.
#[derive(Clone, Copy, PartialEq, Eq, Structural, Debug)]
pub enum Direction {
    Up,
    Down,
    Left,
    Right,
}

/// One compiled instruction.
#[derive(Clone, PartialEq, Debug)]
pub enum Token {
    /// A relative cursor move of `distance` in `direction`.
    MouseMove { direction: Direction, distance: i32 },
    /// A key-down (`release == false`) or key-up (`release == true`) event.
    Key { button: Key, release: bool },
    /// A button-down or button-up event.
    Click { button: MouseButton, release: bool },
    /// A pause of the given number of milliseconds.
    Wait(u64),
    /// Literal text to emit as a sequence of key taps.
    Type(String),
    /// An invocation of another (or the same) macro by name.
    Call(String),
    /// The terminator that closes a macro's instruction list.
    End,
}

/// The mathematical form of one instruction: strings become character
/// sequences.
pub enum TokenView {
    MouseMove { direction: Direction, distance: i32 },
    Key { button: Key, release: bool },
    Click { button: MouseButton, release: bool },
    Wait(u64),
    Type(Seq<char>),
    Call(Seq<char>),
    End,
}

impl View for Token {
    type V = TokenView;

    open spec fn view(&self) -> TokenView {
        match self {
            Token::MouseMove { direction, distance } => TokenView::MouseMove {
                direction: *direction,
                distance: *distance,
            },
            Token::Key { button, release } => TokenView::Key {
                button: *button,
                release: *release,
            },
            Token::Click { button, release } => TokenView::Click {
                button: *button,
                release: *release,
            },
            Token::Wait(ms) => TokenView::Wait(*ms),
            Token::Type(text) => TokenView::Type(text@),
            Token::Call(name) => TokenView::Call(name@),
            Token::End => TokenView::End,
        }
    }
}

impl DeepView for Token {
    type V = TokenView;

    open spec fn deep_view(&self) -> TokenView {
        self@
    }
}

/// One named macro: a name and its compiled instruction list.
#[derive(Clone, Debug)]
pub struct Action {
    /// The macro's name; `None` only while the macro is still under
    /// construction inside the compiler.
    pub name: Option<String>,
    /// The instruction list; in a finished action it ends in exactly one
    /// `Token::End`.
    pub instructions: Vec<Token>,
}

/// The mathematical form of an action.
pub struct ActionView {
    pub name: Option<Seq<char>>,
    pub instructions: Seq<TokenView>,
}

impl View for Action {
    type V = ActionView;

    open spec fn view(&self) -> ActionView {
        ActionView {
            name: match &self.name {
                Some(n) => Some(n@),
                None => None,
            },
            instructions: self.instructions.deep_view(),
        }
    }
}

impl DeepView for Action {
    type V = ActionView;

    open spec fn deep_view(&self) -> ActionView {
        self@
    }
}

/// An instruction list that a finished macro may carry: it ends in exactly
/// one terminator, which appears nowhere else.
pub open spec fn well_terminated(insts: Seq<TokenView>) -> bool {
    &&& insts.len() >= 1
    &&& insts.last() == TokenView::End
    &&& forall|i: int| 0 <= i < insts.len() - 1 ==> #[trigger] insts[i] != TokenView::End
}

/// Every macro invocation in `insts` names a key of `reg`.
pub open spec fn calls_resolved(insts: Seq<TokenView>, reg: Map<Seq<char>, Seq<TokenView>>) -> bool {
    forall|i: int|
        0 <= i < insts.len() ==> (#[trigger] insts[i] matches TokenView::Call(n)
            ==> reg.contains_key(n))
}

/// The compiled name-to-macro mapping. It is built fresh by each compile
/// and replaced wholesale; nothing mutates it in place.
#[derive(Clone, Debug)]
pub struct Registry {
    pub entries: Vec<Action>,
}

impl Registry {
    /// The mapping an entry list stands for: entries are read in order,
    /// later entries shadowing earlier ones of the same name; an entry
    /// with no name names nothing.
    pub open spec fn entries_map(s: Seq<ActionView>) -> Map<Seq<char>, Seq<TokenView>>
        decreases s.len(),
    {
        if s.len() == 0 {
            Map::empty()
        } else {
            let m = Self::entries_map(s.drop_last());
            match s.last().name {
                Some(n) => m.insert(n, s.last().instructions),
                None => m,
            }
        }
    }

    pub open spec fn view(&self) -> Map<Seq<char>, Seq<TokenView>> {
        Self::entries_map(self.entries.deep_view())
    }

    /// A well-formed registry: every macro is properly terminated and
    /// every invocation target is itself a macro of the registry.
    pub open spec fn wf(&self) -> bool {
        forall|k: Seq<char>|
            self@.contains_key(k) ==> well_terminated(#[trigger] self@[k]) && calls_resolved(
                self@[k],
                self@,
            )
    }

    /// A registry with no macros at all.
    pub fn empty() -> (r: Registry)
        ensures
            r@ == Map::<Seq<char>, Seq<TokenView>>::empty(),
            r.wf(),
    {
        let r = Registry { entries: Vec::new() };
        proof {
            assert(r.entries.deep_view() =~= Seq::<ActionView>::empty());
        }
        r
    }

    /// Exact-name lookup. A miss is not an error: it simply means no
    /// action is taken.
    pub fn get(&self, name: &str) -> (r: Option<&Action>)
        ensures
            match r {
                Some(a) => self@.contains_key(name@) && a@.name == Some(name@)
                    && a@.instructions == self@[name@],
                None => !self@.contains_key(name@),
            },
    {
        let ghost s = self.entries.deep_view();
        let mut i: usize = self.entries.len();
        while i > 0
            invariant
                i <= self.entries.len(),
                s == self.entries.deep_view(),
                forall|j: int| i <= j < s.len() ==> #[trigger] s[j].name != Some(name@),
            decreases i,
        {
            i -= 1;
            let a = &self.entries[i];
            match &a.name {
                Some(n) => {
                    if str_eq(n.as_str(), name) {
                        proof {
                            lemma_entries_map_last_match(s, name@, i as int);
                        }
                        return Some(a);
                    }
                },
                None => {},
            }
        }
        proof {
            lemma_entries_map_no_match(s, name@);
        }
        None
    }

    /// Whether a macro of this name exists.
    pub fn contains(&self, name: &str) -> (r: bool)
        ensures
            r == self@.contains_key(name@),
    {
        self.get(name).is_some()
    }

    /// The names the entry list declares, in order.
    pub open spec fn spec_entry_names(s: Seq<ActionView>) -> Seq<Seq<char>>
        decreases s.len(),
    {
        if s.len() == 0 {
            Seq::empty()
        } else {
            Self::spec_entry_names(s.drop_last()) + match s.last().name {
                Some(n) => seq![n],
                None => Seq::empty(),
            }
        }
    }

    /// The names of the compiled macros, in the order they were
    /// finalized: the operator's log of what a (re)load produced.
    pub fn names(&self) -> (r: Vec<String>)
        ensures
            r.deep_view() == Self::spec_entry_names(self.entries.deep_view()),
    {
        let ghost s = self.entries.deep_view();
        let mut r: Vec<String> = Vec::new();
        let mut i: usize = 0;
        proof {
            assert(r.deep_view() =~= Self::spec_entry_names(s.subrange(0, 0)));
        }
        while i < self.entries.len()
            invariant
                i <= self.entries.len(),
                s == self.entries.deep_view(),
                r.deep_view() == Self::spec_entry_names(s.subrange(0, i as int)),
            decreases self.entries.len() - i,
        {
            proof {
                assert(s.subrange(0, i + 1).drop_last() =~= s.subrange(0, i as int));
                assert(s.subrange(0, i + 1).last() == s[i as int]);
            }
            match &self.entries[i].name {
                Some(n) => {
                    r.push(n.clone());
                    proof {
                        assert(r.deep_view() =~= Self::spec_entry_names(s.subrange(0, i + 1)));
                    }
                },
                None => {
                    proof {
                        assert(r.deep_view() =~= Self::spec_entry_names(s.subrange(0, i + 1)));
                    }
                },
            }
            i += 1;
        }
        proof {
            assert(s.subrange(0, s.len() as int) =~= s);
        }
        r
    }
}

/// If position `i` holds the last entry named `k`, the registry maps `k`
/// to that entry's instructions.
proof fn lemma_entries_map_last_match(s: Seq<ActionView>, k: Seq<char>, i: int)
    requires
        0 <= i < s.len(),
        s[i].name == Some(k),
        forall|j: int| i < j < s.len() ==> #[trigger] s[j].name != Some(k),
    ensures
        Registry::entries_map(s).contains_key(k),
        Registry::entries_map(s)[k] == s[i].instructions,
    decreases s.len(),
{
    if i == s.len() - 1 {
    } else {
        assert(s.drop_last()[i] == s[i]);
        lemma_entries_map_last_match(s.drop_last(), k, i);
    }
}

/// If no entry is named `k`, the registry has no key `k`.
proof fn lemma_entries_map_no_match(s: Seq<ActionView>, k: Seq<char>)
    requires
        forall|j: int| 0 <= j < s.len() ==> #[trigger] s[j].name != Some(k),
    ensures
        !Registry::entries_map(s).contains_key(k),
    decreases s.len(),
{
    if s.len() > 0 {
        lemma_entries_map_no_match(s.drop_last(), k);
    }
}

} // verus!
