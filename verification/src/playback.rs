//! The playback interpreter.
//!
//! Playback consumes one compiled instruction sequence strictly in order,
//! handing one primitive device command at a time to the caller, who
//! drives the injection sink (and really sleeps at `Sleep`). A macro
//! invocation re-enters the named macro's sequence and must reach its own
//! terminator before the invoking sequence continues. The language
//! imposes no recursion guard: a macro that invokes itself plays forever,
//! and a caller needing safety must bound the number of steps itself.

use vstd::prelude::*;
use crate::actions::{Registry, Token, TokenView, well_terminated};
use crate::keys::{Key, MouseButton};
use crate::actions::Direction;

verus! {

/// One primitive command for the injection sink.
#[derive(Clone, PartialEq, Debug)]
pub enum SinkCommand {
    /// Relative cursor move: `up` and `left` give negative offsets.
    MoveRel { dx: i64, dy: i64 },
    KeyDown(Key),
    KeyUp(Key),
    ButtonDown(MouseButton),
    ButtonUp(MouseButton),
    /// Suspend the playback worker this many milliseconds.
    Sleep(u64),
    /// Emit literal text as a sequence of key taps.
    TypeText(String),
}

/// The mathematical form of a sink command.
pub enum SinkCommandView {
    MoveRel { dx: int, dy: int },
    KeyDown(Key),
    KeyUp(Key),
    ButtonDown(MouseButton),
    ButtonUp(MouseButton),
    Sleep(u64),
    TypeText(Seq<char>),
}

impl View for SinkCommand {
    type V = SinkCommandView;

    open spec fn view(&self) -> SinkCommandView {
        match self {
            SinkCommand::MoveRel { dx, dy } => SinkCommandView::MoveRel {
                dx: *dx as int,
                dy: *dy as int,
            },
            SinkCommand::KeyDown(k) => SinkCommandView::KeyDown(*k),
            SinkCommand::KeyUp(k) => SinkCommandView::KeyUp(*k),
            SinkCommand::ButtonDown(b) => SinkCommandView::ButtonDown(*b),
            SinkCommand::ButtonUp(b) => SinkCommandView::ButtonUp(*b),
            SinkCommand::Sleep(ms) => SinkCommandView::Sleep(*ms),
            SinkCommand::TypeText(t) => SinkCommandView::TypeText(t@),
        }
    }
}

impl DeepView for SinkCommand {
    type V = SinkCommandView;

    open spec fn deep_view(&self) -> SinkCommandView {
        self@
    }
}

/// What one playback step reported: a command for the sink, an internal
/// transition with nothing to inject, or the end of the whole playback.
#[derive(Clone, PartialEq, Debug)]
pub enum StepEvent {
    Do(SinkCommand),
    Quiet,
    Finished,
}

/// The mathematical form of a step event.
pub enum StepEventView {
    Do(SinkCommandView),
    Quiet,
    Finished,
}

impl View for StepEvent {
    type V = StepEventView;

    open spec fn view(&self) -> StepEventView {
        match self {
            StepEvent::Do(c) => StepEventView::Do(c@),
            StepEvent::Quiet => StepEventView::Quiet,
            StepEvent::Finished => StepEventView::Finished,
        }
    }
}

/// The sink command one instruction stands for; an invocation and the
/// terminator inject nothing.
pub open spec fn spec_effect(t: TokenView) -> Option<SinkCommandView> {
    match t {
        TokenView::MouseMove { direction, distance } => Some(
            match direction {
                Direction::Up => SinkCommandView::MoveRel { dx: 0, dy: -(distance as int) },
                Direction::Down => SinkCommandView::MoveRel { dx: 0, dy: distance as int },
                Direction::Left => SinkCommandView::MoveRel { dx: -(distance as int), dy: 0 },
                Direction::Right => SinkCommandView::MoveRel { dx: distance as int, dy: 0 },
            },
        ),
        TokenView::Key { button, release } => Some(
            if release {
                SinkCommandView::KeyUp(button)
            } else {
                SinkCommandView::KeyDown(button)
            },
        ),
        TokenView::Click { button, release } => Some(
            if release {
                SinkCommandView::ButtonUp(button)
            } else {
                SinkCommandView::ButtonDown(button)
            },
        ),
        TokenView::Wait(ms) => Some(SinkCommandView::Sleep(ms)),
        TokenView::Type(text) => Some(SinkCommandView::TypeText(text)),
        TokenView::Call(_) => None,
        TokenView::End => None,
    }
}

/// One frame of a playback in flight: a macro name and the position of
/// the next instruction to execute.
pub struct Frame {
    pub name: String,
    pub index: usize,
}

impl View for Frame {
    type V = (Seq<char>, int);

    open spec fn view(&self) -> (Seq<char>, int) {
        (self.name@, self.index as int)
    }
}

impl DeepView for Frame {
    type V = (Seq<char>, int);

    open spec fn deep_view(&self) -> (Seq<char>, int) {
        self@
    }
}

/// Every frame points into a macro of the registry.
pub open spec fn frames_wf(p: Seq<(Seq<char>, int)>, reg: Map<Seq<char>, Seq<TokenView>>) -> bool {
    forall|i: int|
        0 <= i < p.len() ==> reg.contains_key((#[trigger] p[i]).0) && 0 <= p[i].1 < reg[p[i].0].len()
}

/// One step of the playback machine: the next frame stack, and what the
/// caller must do. The current instruction is executed; an invocation
/// pushes a frame at the start of the named macro (to return to the next
/// instruction afterwards); a terminator pops its frame.
pub open spec fn spec_step(p: Seq<(Seq<char>, int)>, reg: Map<Seq<char>, Seq<TokenView>>) -> (
    Seq<(Seq<char>, int)>,
    StepEventView,
) {
    if p.len() == 0 {
        (p, StepEventView::Finished)
    } else {
        let (name, idx) = p.last();
        let t = reg[name][idx];
        match t {
            TokenView::Call(n) => (
                p.update(p.len() - 1, (name, idx + 1)).push((n, 0)),
                StepEventView::Quiet,
            ),
            TokenView::End => (
                p.drop_last(),
                if p.len() == 1 {
                    StepEventView::Finished
                } else {
                    StepEventView::Quiet
                },
            ),
            _ => (p.update(p.len() - 1, (name, idx + 1)), StepEventView::Do(spec_effect(t)->0)),
        }
    }
}

/// A playback in flight: the stack of macro frames still to finish.
pub struct Playback {
    pub frames: Vec<Frame>,
}

impl View for Playback {
    type V = Seq<(Seq<char>, int)>;

    open spec fn view(&self) -> Seq<(Seq<char>, int)> {
        self.frames.deep_view()
    }
}

impl Playback {
    /// Begin playback of the named macro, if the registry holds it.
    pub fn start(reg: &Registry, name: &str) -> (r: Option<Playback>)
        requires
            reg.wf(),
        ensures
            match r {
                Some(p) => reg@.contains_key(name@) && p@ =~= seq![(name@, 0int)] && frames_wf(
                    p@,
                    reg@,
                ),
                None => !reg@.contains_key(name@),
            },
    {
        if reg.contains(name) {
            let mut frames: Vec<Frame> = Vec::new();
            frames.push(Frame { name: name.to_owned(), index: 0 });
            let p = Playback { frames };
            proof {
                assert(p@ =~= seq![(name@, 0int)]);
            }
            Some(p)
        } else {
            None
        }
    }

    /// Whether this playback still has work to do.
    pub fn running(&self) -> (r: bool)
        ensures
            r == (self@.len() > 0),
    {
        self.frames.len() > 0
    }

    /// Execute one instruction, exactly as `spec_step` describes.
    pub fn step(&mut self, reg: &Registry) -> (ev: StepEvent)
        requires
            reg.wf(),
            frames_wf(old(self)@, reg@),
        ensures
            frames_wf(final(self)@, reg@),
            final(self)@ == spec_step(old(self)@, reg@).0,
            ev@ == spec_step(old(self)@, reg@).1,
    {
        let ghost p0 = self@;
        let flen = self.frames.len();
        if flen == 0 {
            return StepEvent::Finished;
        }
        proof {
            assert((#[trigger] p0[flen - 1]).0 == self.frames@[flen - 1 as int].deep_view().0);
        }
        let name = self.frames[flen - 1].name.clone();
        let idx = self.frames[flen - 1].index;
        let a = match reg.get(name.as_str()) {
            Some(a) => a,
            None => {
                proof {
                    assert(false);
                }
                return StepEvent::Finished;
            },
        };
        let alen = a.instructions.len();
        proof {
            assert(a.instructions.deep_view()[idx as int] == reg@[name@][idx as int]);
            assert(idx < alen);
        }
        let t = &a.instructions[idx];
        match t {
            Token::End => {
                self.frames.pop();
                proof {
                    assert(self@ =~= p0.drop_last());
                }
                if self.frames.len() == 0 {
                    StepEvent::Finished
                } else {
                    StepEvent::Quiet
                }
            },
            Token::Call(n) => {
                let callee = n.clone();
                self.frames.pop();
                self.frames.push(Frame { name, index: idx + 1 });
                self.frames.push(Frame { name: callee, index: 0 });
                proof {
                    assert(self@ =~= p0.update(p0.len() - 1, (p0.last().0, p0.last().1 + 1)).push(
                        (n@, 0int),
                    ));
                    assert(reg@.contains_key(n@)) by {
                        assert(reg@[name@][idx as int] matches TokenView::Call(m)
                            ==> reg@.contains_key(m));
                    }
                    assert(well_terminated(reg@[n@]));
                }
                StepEvent::Quiet
            },
            Token::MouseMove { direction, distance } => {
                let d = *distance;
                let cmd = match direction {
                    Direction::Up => SinkCommand::MoveRel { dx: 0, dy: -(d as i64) },
                    Direction::Down => SinkCommand::MoveRel { dx: 0, dy: d as i64 },
                    Direction::Left => SinkCommand::MoveRel { dx: -(d as i64), dy: 0 },
                    Direction::Right => SinkCommand::MoveRel { dx: d as i64, dy: 0 },
                };
                self.advance(Ghost(reg@), name, idx);
                StepEvent::Do(cmd)
            },
            Token::Key { button, release } => {
                let cmd = if *release {
                    SinkCommand::KeyUp(*button)
                } else {
                    SinkCommand::KeyDown(*button)
                };
                self.advance(Ghost(reg@), name, idx);
                StepEvent::Do(cmd)
            },
            Token::Click { button, release } => {
                let cmd = if *release {
                    SinkCommand::ButtonUp(*button)
                } else {
                    SinkCommand::ButtonDown(*button)
                };
                self.advance(Ghost(reg@), name, idx);
                StepEvent::Do(cmd)
            },
            Token::Wait(ms) => {
                let cmd = SinkCommand::Sleep(*ms);
                self.advance(Ghost(reg@), name, idx);
                StepEvent::Do(cmd)
            },
            Token::Type(text) => {
                let cmd = SinkCommand::TypeText(text.clone());
                self.advance(Ghost(reg@), name, idx);
                StepEvent::Do(cmd)
            },
        }
    }

    /// The commands a playback starting from frame stack `p` emits within
    /// `fuel` steps, and whether it reaches its end within that bound.
    pub open spec fn spec_run(
        p: Seq<(Seq<char>, int)>,
        reg: Map<Seq<char>, Seq<TokenView>>,
        fuel: nat,
    ) -> (Seq<SinkCommandView>, bool)
        decreases fuel,
    {
        if p.len() == 0 {
            (Seq::empty(), true)
        } else if fuel == 0 {
            (Seq::empty(), false)
        } else {
            let next = spec_step(p, reg);
            let rest = Self::spec_run(next.0, reg, (fuel - 1) as nat);
            match next.1 {
                StepEventView::Do(c) => (seq![c] + rest.0, rest.1),
                _ => rest,
            }
        }
    }

    /// Replay one macro without a sink: the commands it emits, in order,
    /// stopping after at most `max_steps` instructions. `None` is a
    /// lookup miss, not an error. The flag reports whether playback
    /// reached its end within the bound; the language imposes no
    /// recursion guard, so a self-invoking macro never does.
    pub fn run_bounded(reg: &Registry, name: &str, max_steps: usize) -> (r: Option<
        (Vec<SinkCommand>, bool),
    >)
        requires
            reg.wf(),
        ensures
            match r {
                Some(out) => reg@.contains_key(name@) && (out.0.deep_view(), out.1)
                    == Self::spec_run(seq![(name@, 0int)], reg@, max_steps as nat),
                None => !reg@.contains_key(name@),
            },
    {
        let mut pb = match Self::start(reg, name) {
            Some(p) => p,
            None => {
                return None;
            },
        };
        let ghost init: Seq<(Seq<char>, int)> = seq![(name@, 0int)];
        let mut cmds: Vec<SinkCommand> = Vec::new();
        let mut steps: usize = 0;
        proof {
            assert(pb@ == init);
            assert(cmds.deep_view() =~= Seq::<SinkCommandView>::empty());
            assert(cmds.deep_view() + Self::spec_run(pb@, reg@, (max_steps - steps) as nat).0
                =~= Self::spec_run(init, reg@, max_steps as nat).0);
        }
        while steps < max_steps && pb.frames.len() > 0
            invariant
                steps <= max_steps,
                reg.wf(),
                frames_wf(pb@, reg@),
                Self::spec_run(init, reg@, max_steps as nat).0 == cmds.deep_view()
                    + Self::spec_run(pb@, reg@, (max_steps - steps) as nat).0,
                Self::spec_run(init, reg@, max_steps as nat).1 == Self::spec_run(
                    pb@,
                    reg@,
                    (max_steps - steps) as nat,
                ).1,
            decreases max_steps - steps,
        {
            let ghost p_pre = pb@;
            let ghost fuel_pre = (max_steps - steps) as nat;
            let ev = pb.step(reg);
            steps += 1;
            proof {
                assert(Self::spec_run(p_pre, reg@, fuel_pre).0 == (match spec_step(p_pre, reg@).1 {
                    StepEventView::Do(c) => seq![c] + Self::spec_run(pb@, reg@, (fuel_pre - 1) as nat).0,
                    _ => Self::spec_run(pb@, reg@, (fuel_pre - 1) as nat).0,
                }));
            }
            match ev {
                StepEvent::Do(c) => {
                    let ghost cv = c@;
                    let ghost old_cmds = cmds.deep_view();
                    cmds.push(c);
                    proof {
                        assert(cmds.deep_view() =~= old_cmds.push(cv));
                        assert(old_cmds + (seq![cv] + Self::spec_run(
                            pb@,
                            reg@,
                            (max_steps - steps) as nat,
                        ).0) =~= cmds.deep_view() + Self::spec_run(
                            pb@,
                            reg@,
                            (max_steps - steps) as nat,
                        ).0);
                    }
                },
                StepEvent::Quiet => {},
                StepEvent::Finished => {},
            }
        }
        let done = pb.frames.len() == 0;
        proof {
            if done {
                assert(pb@.len() == 0);
                assert(Self::spec_run(pb@, reg@, (max_steps - steps) as nat).0
                    =~= Seq::<SinkCommandView>::empty());
            }
            assert(cmds.deep_view() + Seq::<SinkCommandView>::empty() =~= cmds.deep_view());
            assert(cmds.deep_view() == Self::spec_run(init, reg@, max_steps as nat).0);
        }
        Some((cmds, done))
    }

    /// Step the top frame past the instruction it just executed.
    fn advance(&mut self, Ghost(reg): Ghost<Map<Seq<char>, Seq<TokenView>>>, name: String, idx: usize)
        requires
            idx < usize::MAX,
            old(self)@.len() > 0,
            frames_wf(old(self)@, reg),
            old(self)@.last() == (name@, idx as int),
            reg[name@][idx as int] != TokenView::End,
            well_terminated(reg[name@]),
        ensures
            final(self)@ == old(self)@.update(old(self)@.len() - 1, (name@, idx + 1)),
            frames_wf(final(self)@, reg),
    {
        let ghost p0 = self@;
        self.frames.pop();
        self.frames.push(Frame { name, index: idx + 1 });
        proof {
            assert(self@ =~= p0.update(p0.len() - 1, (name@, idx + 1 as int)));
        }
    }
}

} // verus!
