//! The two-pass macro compiler.
//!
//! Pass 1 scans every line and records each macro header, so that an
//! invocation may name a macro declared later in the file, or the macro
//! itself. Pass 2 walks the lines again, accumulating the macro under
//! construction and finalizing it into the registry at each `end`.
//!
//! Chosen policies, where the language leaves room:
//! - a header while a macro is still open simply (re)sets the name of the
//!   macro under construction; the instructions gathered so far are kept;
//! - every declared macro must reach its `end`: a header whose macro is
//!   never finalized fails the whole compile, so a compiled registry
//!   never holds a truncated instruction list;
//! - instructions written before any header and never terminated are
//!   discarded at end of input.

use vstd::prelude::*;
use crate::actions::{
    calls_resolved,
    well_terminated,
    Action,
    ActionView,
    Direction,
    Registry,
    Token,
    TokenView,
};
use crate::error::{ErrorKind, SourceSyntaxError};
use crate::keys::{
    spec_button_of_name,
    spec_is_button_word,
    spec_key_of_name,
    button_of_name,
    is_button_word,
    key_of_name,
    Key,
    MouseButton,
};
use crate::norm::{
    normalize_line,
    join_tokens,
    join_tokens_from,
    spec_join,
    spec_lines,
    spec_norm_tokens,
    split_lines,
    str_eq,
};
use crate::num::{
    is_i32_string,
    is_u64_string,
    parse_i32,
    parse_u64,
    spec_i32_value,
    spec_u64_value,
};

verus! {

/// What a `press`, `release` or `hold` acts on: a key or a mouse button.
#[derive(Clone, Copy, PartialEq, Eq, Structural, Debug)]
pub enum PressTarget {
    Key(Key),
    Mouse(MouseButton),
}

/// The key or button event a target produces.
pub open spec fn spec_press_token(t: PressTarget, release: bool) -> TokenView {
    match t {
        PressTarget::Key(k) => TokenView::Key { button: k, release },
        PressTarget::Mouse(b) => TokenView::Click { button: b, release },
    }
}

/// A header line: exactly one token, ending in `:`.
pub open spec fn spec_is_header(toks: Seq<Seq<char>>) -> bool {
    toks.len() == 1 && toks[0].len() >= 1 && toks[0].last() == ':'
}

/// The macro name a header declares: the token with its trailing `:`
/// removed.
pub open spec fn spec_header_name(toks: Seq<Seq<char>>) -> Seq<char> {
    toks[0].drop_last()
}

/// The direction named by a `move` token, if any.
pub open spec fn spec_direction_of(s: Seq<char>) -> Option<Direction> {
    if s == "up"@ {
        Some(Direction::Up)
    } else if s == "down"@ {
        Some(Direction::Down)
    } else if s == "left"@ {
        Some(Direction::Left)
    } else if s == "right"@ {
        Some(Direction::Right)
    } else {
        None
    }
}

/// Resolve the target of a `press`, `release` or `hold`: either the word
/// `mouse` followed by a button name, or a key name. Returns the target
/// and the position of the token that follows it.
pub open spec fn spec_resolve_target(toks: Seq<Seq<char>>) -> Result<(PressTarget, int), ErrorKind> {
    if toks.len() < 2 {
        Err(ErrorKind::BadKey { button_hint: false })
    } else if toks[1] == "mouse"@ {
        if toks.len() < 3 {
            Err(ErrorKind::BadButton)
        } else {
            match spec_button_of_name(toks[2]) {
                Some(b) => Ok((PressTarget::Mouse(b), 3)),
                None => Err(ErrorKind::BadButton),
            }
        }
    } else {
        match spec_key_of_name(toks[1]) {
            Some(k) => Ok((PressTarget::Key(k), 2)),
            None => Err(ErrorKind::BadKey { button_hint: spec_is_button_word(toks[1]) }),
        }
    }
}

/// The instructions one non-blank, non-header line compiles to, given the
/// pass-1 name set. A `hold` lowers to exactly press, wait, release.
pub open spec fn spec_instruction(toks: Seq<Seq<char>>, names: Set<Seq<char>>) -> Result<
    Seq<TokenView>,
    ErrorKind,
> {
    let op = toks[0];
    if op == "move"@ {
        if toks.len() < 2 || spec_direction_of(toks[1]) is None {
            Err(ErrorKind::BadDirection)
        } else if toks.len() < 3 || !is_i32_string(toks[2]) {
            Err(ErrorKind::BadInteger)
        } else {
            Ok(
                seq![
                    TokenView::MouseMove {
                        direction: spec_direction_of(toks[1])->0,
                        distance: spec_i32_value(toks[2]) as i32,
                    },
                ],
            )
        }
    } else if op == "press"@ || op == "release"@ || op == "hold"@ {
        match spec_resolve_target(toks) {
            Err(k) => Err(k),
            Ok((t, ms_at)) => {
                if op == "hold"@ {
                    if toks.len() <= ms_at || !is_u64_string(toks[ms_at]) {
                        Err(ErrorKind::BadInteger)
                    } else {
                        Ok(
                            seq![
                                spec_press_token(t, false),
                                TokenView::Wait(spec_u64_value(toks[ms_at]) as u64),
                                spec_press_token(t, true),
                            ],
                        )
                    }
                } else {
                    Ok(seq![spec_press_token(t, op == "release"@)])
                }
            },
        }
    } else if op == "wait"@ {
        if toks.len() < 2 || !is_u64_string(toks[1]) {
            Err(ErrorKind::BadInteger)
        } else {
            Ok(seq![TokenView::Wait(spec_u64_value(toks[1]) as u64)])
        }
    } else if op == "type"@ {
        Ok(seq![TokenView::Type(spec_join(toks.drop_first()))])
    } else if op == "end"@ {
        Ok(seq![TokenView::End])
    } else {
        if names.contains(spec_join(toks)) {
            Ok(seq![TokenView::Call(spec_join(toks))])
        } else {
            Err(ErrorKind::UnknownInstruction)
        }
    }
}

/// One header found by pass 1: the declared name and its 1-based line.
pub struct HeaderDecl {
    pub name: String,
    pub line: usize,
}

impl View for HeaderDecl {
    type V = (Seq<char>, int);

    open spec fn view(&self) -> (Seq<char>, int) {
        (self.name@, self.line as int)
    }
}

impl DeepView for HeaderDecl {
    type V = (Seq<char>, int);

    open spec fn deep_view(&self) -> (Seq<char>, int) {
        self@
    }
}

/// The headers of a source, in order, with their 1-based line numbers.
pub open spec fn spec_headers(lines: Seq<Seq<char>>) -> Seq<(Seq<char>, int)>
    decreases lines.len(),
{
    if lines.len() == 0 {
        Seq::empty()
    } else {
        let toks = spec_norm_tokens(lines.last());
        spec_headers(lines.drop_last()) + if spec_is_header(toks) {
            seq![(spec_header_name(toks), lines.len() as int)]
        } else {
            Seq::empty()
        }
    }
}

/// The pass-1 name set: every name some header declares.
pub open spec fn spec_names(hdrs: Seq<(Seq<char>, int)>) -> Set<Seq<char>>
    decreases hdrs.len(),
{
    if hdrs.len() == 0 {
        Set::empty()
    } else {
        spec_names(hdrs.drop_last()).insert(hdrs.last().0)
    }
}

/// A name is in the pass-1 set exactly when some header declares it.
pub proof fn lemma_names_membership(hdrs: Seq<(Seq<char>, int)>, k: Seq<char>)
    ensures
        spec_names(hdrs).contains(k) <==> exists|j: int| 0 <= j < hdrs.len() && (#[trigger] hdrs[j]).0 == k,
    decreases hdrs.len(),
{
    if hdrs.len() > 0 {
        let pre = hdrs.drop_last();
        lemma_names_membership(pre, k);
        assert(forall|j: int| 0 <= j < pre.len() ==> #[trigger] pre[j] == hdrs[j]);
        if spec_names(hdrs).contains(k) {
            if hdrs.last().0 == k {
                assert(hdrs[hdrs.len() - 1].0 == k);
            } else {
                let j = choose|j: int| 0 <= j < pre.len() && (#[trigger] pre[j]).0 == k;
                assert(hdrs[j].0 == k);
            }
        }
        if exists|j: int| 0 <= j < hdrs.len() && (#[trigger] hdrs[j]).0 == k {
            let j = choose|j: int| 0 <= j < hdrs.len() && (#[trigger] hdrs[j]).0 == k;
            if j < hdrs.len() - 1 {
                assert(pre[j].0 == k);
            }
        }
    }
}

/// If a line's single token ends in `:`, report the declared macro name.
fn header_name(toks: &Vec<String>) -> (r: Option<String>)
    ensures
        match r {
            Some(n) => spec_is_header(toks.deep_view()) && n@ == spec_header_name(toks.deep_view()),
            None => !spec_is_header(toks.deep_view()),
        },
{
    if toks.len() != 1 {
        return None;
    }
    let t = toks[0].as_str();
    let len = t.unicode_len();
    if len >= 1 && t.get_char(len - 1) == ':' {
        let name = t.substring_char(0, len - 1);
        proof {
            assert(toks.deep_view()[0] == t@);
            assert(t@.subrange(0, t@.len() - 1) =~= t@.drop_last());
        }
        Some(name.to_owned())
    } else {
        None
    }
}

/// Whether the pass-1 header list declares `name`.
fn headers_contain(hdrs: &Vec<HeaderDecl>, name: &str) -> (r: bool)
    ensures
        r == spec_names(hdrs.deep_view()).contains(name@),
{
    let ghost s = hdrs.deep_view();
    proof {
        lemma_names_membership(s, name@);
    }
    let mut i: usize = 0;
    while i < hdrs.len()
        invariant
            i <= hdrs.len(),
            s == hdrs.deep_view(),
            forall|j: int| 0 <= j < i ==> (#[trigger] s[j]).0 != name@,
        decreases hdrs.len() - i,
    {
        if str_eq(hdrs[i].name.as_str(), name) {
            proof {
                lemma_names_membership(s, name@);
                assert(s[i as int] == hdrs@[i as int].deep_view());
                assert(s[i as int].0 == name@);
                assert(exists|j: int| 0 <= j < s.len() && (#[trigger] s[j]).0 == name@);
            }
            return true;
        }
        i += 1;
    }
    false
}

/// Resolve a press/release/hold target token list.
fn resolve_target(toks: &Vec<String>) -> (r: Result<(PressTarget, usize), ErrorKind>)
    ensures
        match r {
            Ok(p) => spec_resolve_target(toks.deep_view()) == Ok::<(PressTarget, int), ErrorKind>(
                (p.0, p.1 as int),
            ),
            Err(k) => spec_resolve_target(toks.deep_view()) == Err::<(PressTarget, int), ErrorKind>(
                k,
            ),
        },
{
    if toks.len() < 2 {
        return Err(ErrorKind::BadKey { button_hint: false });
    }
    if str_eq(toks[1].as_str(), "mouse") {
        if toks.len() < 3 {
            return Err(ErrorKind::BadButton);
        }
        match button_of_name(toks[2].as_str()) {
            Some(b) => Ok((PressTarget::Mouse(b), 3)),
            None => Err(ErrorKind::BadButton),
        }
    } else {
        match key_of_name(toks[1].as_str()) {
            Some(k) => Ok((PressTarget::Key(k), 2)),
            None => Err(
                ErrorKind::BadKey { button_hint: is_button_word(toks[1].as_str()) },
            ),
        }
    }
}

/// The key or button event a target produces, as an instruction.
fn press_token(t: PressTarget, release: bool) -> (r: Token)
    ensures
        r@ == spec_press_token(t, release),
{
    match t {
        PressTarget::Key(k) => Token::Key { button: k, release },
        PressTarget::Mouse(b) => Token::Click { button: b, release },
    }
}

/// Compile one non-blank, non-header line, exactly as `spec_instruction`
/// describes.
fn parse_instruction(toks: &Vec<String>, hdrs: &Vec<HeaderDecl>) -> (r: Result<
    Vec<Token>,
    ErrorKind,
>)
    requires
        toks@.len() >= 1,
    ensures
        match r {
            Ok(v) => spec_instruction(toks.deep_view(), spec_names(hdrs.deep_view())) == Ok::<
                Seq<TokenView>,
                ErrorKind,
            >(v.deep_view()),
            Err(k) => spec_instruction(toks.deep_view(), spec_names(hdrs.deep_view())) == Err::<
                Seq<TokenView>,
                ErrorKind,
            >(k),
        },
{
    let ghost tv = toks.deep_view();
    let op = toks[0].as_str();
    if str_eq(op, "move") {
        if toks.len() < 2 {
            return Err(ErrorKind::BadDirection);
        }
        let d = toks[1].as_str();
        let direction = if str_eq(d, "up") {
            Direction::Up
        } else if str_eq(d, "down") {
            Direction::Down
        } else if str_eq(d, "left") {
            Direction::Left
        } else if str_eq(d, "right") {
            Direction::Right
        } else {
            return Err(ErrorKind::BadDirection);
        };
        if toks.len() < 3 {
            return Err(ErrorKind::BadInteger);
        }
        match parse_i32(toks[2].as_str()) {
            Some(distance) => {
                let v = vec![Token::MouseMove { direction, distance }];
                proof {
                    assert(v.deep_view() =~= seq![
                        TokenView::MouseMove {
                            direction,
                            distance: spec_i32_value(tv[2]) as i32,
                        },
                    ]);
                }
                Ok(v)
            },
            None => Err(ErrorKind::BadInteger),
        }
    } else if str_eq(op, "press") || str_eq(op, "release") || str_eq(op, "hold") {
        let (target, ms_at) = match resolve_target(toks) {
            Ok(p) => p,
            Err(k) => {
                return Err(k);
            },
        };
        if str_eq(op, "hold") {
            if toks.len() <= ms_at {
                return Err(ErrorKind::BadInteger);
            }
            match parse_u64(toks[ms_at].as_str()) {
                Some(ms) => {
                    let v = vec![
                        press_token(target, false),
                        Token::Wait(ms),
                        press_token(target, true),
                    ];
                    proof {
                        assert(v.deep_view() =~= seq![
                            spec_press_token(target, false),
                            TokenView::Wait(spec_u64_value(tv[ms_at as int]) as u64),
                            spec_press_token(target, true),
                        ]);
                    }
                    Ok(v)
                },
                None => Err(ErrorKind::BadInteger),
            }
        } else {
            let release = str_eq(op, "release");
            let v = vec![press_token(target, release)];
            proof {
                assert(v.deep_view() =~= seq![spec_press_token(target, release)]);
            }
            Ok(v)
        }
    } else if str_eq(op, "wait") {
        if toks.len() < 2 {
            return Err(ErrorKind::BadInteger);
        }
        match parse_u64(toks[1].as_str()) {
            Some(ms) => {
                let v = vec![Token::Wait(ms)];
                proof {
                    assert(v.deep_view() =~= seq![TokenView::Wait(spec_u64_value(tv[1]) as u64)]);
                }
                Ok(v)
            },
            None => Err(ErrorKind::BadInteger),
        }
    } else if str_eq(op, "type") {
        let text = join_tokens_from(toks, 1);
        let v = vec![Token::Type(text)];
        proof {
            assert(tv.subrange(1, tv.len() as int) =~= tv.drop_first());
            assert(v.deep_view() =~= seq![TokenView::Type(spec_join(tv.drop_first()))]);
        }
        Ok(v)
    } else if str_eq(op, "end") {
        let v = vec![Token::End];
        proof {
            assert(v.deep_view() =~= seq![TokenView::End]);
        }
        Ok(v)
    } else {
        let trimmed = join_tokens(toks);
        if headers_contain(hdrs, trimmed.as_str()) {
            let ghost t = trimmed@;
            let v = vec![Token::Call(trimmed)];
            proof {
                assert(v.deep_view() =~= seq![TokenView::Call(t)]);
            }
            Ok(v)
        } else {
            Err(ErrorKind::UnknownInstruction)
        }
    }
}

/// The compiler's pass-2 state: the macro under construction and the
/// registry built so far.
pub struct CompileState {
    pub cur_name: Option<Seq<char>>,
    pub cur: Seq<TokenView>,
    pub reg: Map<Seq<char>, Seq<TokenView>>,
}

/// The state pass 2 starts from: no name, no instructions, no macros.
pub open spec fn spec_init_state() -> CompileState {
    CompileState { cur_name: None, cur: Seq::empty(), reg: Map::empty() }
}

/// One non-blank line's effect on the pass-2 state. A header (re)sets the
/// name of the macro under construction; `end` appends the terminator and
/// finalizes the macro under its name; any other instruction is appended.
pub open spec fn spec_line_step(
    st: CompileState,
    toks: Seq<Seq<char>>,
    names: Set<Seq<char>>,
    line: int,
) -> Result<CompileState, SourceSyntaxError> {
    if spec_is_header(toks) {
        Ok(CompileState { cur_name: Some(spec_header_name(toks)), cur: st.cur, reg: st.reg })
    } else {
        match spec_instruction(toks, names) {
            Err(k) => Err(SourceSyntaxError { line: line as usize, kind: k }),
            Ok(insts) => {
                if toks[0] == "end"@ {
                    match st.cur_name {
                        None => Err(
                            SourceSyntaxError { line: line as usize, kind: ErrorKind::MissingName },
                        ),
                        Some(n) => Ok(
                            CompileState {
                                cur_name: None,
                                cur: Seq::empty(),
                                reg: st.reg.insert(n, st.cur.push(TokenView::End)),
                            },
                        ),
                    }
                } else {
                    Ok(CompileState { cur_name: st.cur_name, cur: st.cur + insts, reg: st.reg })
                }
            },
        }
    }
}

/// Pass 2 from line index `i` on: the final registry, or the first fatal
/// error. An unfinished macro still open at end of input is not entered
/// into the registry.
pub open spec fn spec_pass2(
    lines: Seq<Seq<char>>,
    i: int,
    st: CompileState,
    names: Set<Seq<char>>,
) -> Result<Map<Seq<char>, Seq<TokenView>>, SourceSyntaxError>
    decreases lines.len() - i,
{
    if i < 0 || i >= lines.len() {
        Ok(st.reg)
    } else {
        let toks = spec_norm_tokens(lines[i]);
        if toks.len() == 0 {
            spec_pass2(lines, i + 1, st, names)
        } else {
            match spec_line_step(st, toks, names, i + 1) {
                Err(e) => Err(e),
                Ok(st2) => spec_pass2(lines, i + 1, st2, names),
            }
        }
    }
}

/// The first declared macro that the finished registry does not hold: a
/// macro that never reached its `end`.
pub open spec fn spec_first_unfinished(
    hdrs: Seq<(Seq<char>, int)>,
    reg: Map<Seq<char>, Seq<TokenView>>,
) -> Option<(Seq<char>, int)>
    decreases hdrs.len(),
{
    if hdrs.len() == 0 {
        None
    } else if !reg.contains_key(hdrs.first().0) {
        Some(hdrs.first())
    } else {
        spec_first_unfinished(hdrs.drop_first(), reg)
    }
}

/// The whole compile over a line sequence: pass 1 collects the names,
/// pass 2 builds the registry, and a declared-but-never-finished macro
/// fails the compile with the line of its header.
pub open spec fn spec_compile_lines(lines: Seq<Seq<char>>) -> Result<
    Map<Seq<char>, Seq<TokenView>>,
    SourceSyntaxError,
> {
    let hdrs = spec_headers(lines);
    match spec_pass2(lines, 0, spec_init_state(), spec_names(hdrs)) {
        Err(e) => Err(e),
        Ok(reg) => match spec_first_unfinished(hdrs, reg) {
            Some(h) => Err(SourceSyntaxError { line: h.1 as usize, kind: ErrorKind::Unterminated }),
            None => Ok(reg),
        },
    }
}

/// Pass 1: collect every header with its 1-based line number.
fn collect_headers(lines: &Vec<String>) -> (hdrs: Vec<HeaderDecl>)
    ensures
        hdrs.deep_view() == spec_headers(lines.deep_view()),
{
    let ghost lv = lines.deep_view();
    let mut hdrs: Vec<HeaderDecl> = Vec::new();
    let mut i: usize = 0;
    while i < lines.len()
        invariant
            i <= lines.len(),
            lv == lines.deep_view(),
            hdrs.deep_view() == spec_headers(lv.subrange(0, i as int)),
        decreases lines.len() - i,
    {
        let toks = normalize_line(lines[i].as_str());
        proof {
            assert(lv.subrange(0, i + 1).drop_last() =~= lv.subrange(0, i as int));
            assert(lv.subrange(0, i + 1).last() == lv[i as int]);
            assert(lv[i as int] == lines@[i as int]@);
        }
        match header_name(&toks) {
            Some(name) => {
                let ghost n = name@;
                hdrs.push(HeaderDecl { name, line: i + 1 });
                proof {
                    assert(hdrs.deep_view() =~= spec_headers(lv.subrange(0, i + 1)));
                }
            },
            None => {
                proof {
                    assert(hdrs.deep_view() =~= spec_headers(lv.subrange(0, i + 1)));
                }
            },
        }
        i += 1;
    }
    proof {
        assert(lv.subrange(0, lv.len() as int) =~= lv);
    }
    hdrs
}

/// Find the first declared macro missing from the finished registry, and
/// report the line of its header.
fn first_unfinished(hdrs: &Vec<HeaderDecl>, reg: &Registry) -> (r: Option<usize>)
    ensures
        match spec_first_unfinished(hdrs.deep_view(), reg@) {
            Some(h) => r == Some(h.1 as usize),
            None => r is None,
        },
{
    let ghost s = hdrs.deep_view();
    let mut i: usize = 0;
    proof {
        assert(s.subrange(0, s.len() as int) =~= s);
    }
    while i < hdrs.len()
        invariant
            i <= hdrs.len(),
            s == hdrs.deep_view(),
            spec_first_unfinished(s, reg@) == spec_first_unfinished(
                s.subrange(i as int, s.len() as int),
                reg@,
            ),
        decreases hdrs.len() - i,
    {
        let ghost rest = s.subrange(i as int, s.len() as int);
        proof {
            assert(rest.first() == s[i as int]);
            assert(rest.drop_first() =~= s.subrange(i + 1, s.len() as int));
            assert(s[i as int] == hdrs@[i as int].deep_view());
        }
        if !reg.contains(hdrs[i].name.as_str()) {
            return Some(hdrs[i].line);
        }
        i += 1;
    }
    proof {
        assert(s.subrange(s.len() as int, s.len() as int) =~= Seq::<(Seq<char>, int)>::empty());
    }
    None
}

/// Every invocation in `insts` targets a member of `names`.
pub open spec fn calls_in_names(insts: Seq<TokenView>, names: Set<Seq<char>>) -> bool {
    forall|j: int|
        0 <= j < insts.len() ==> (#[trigger] insts[j] matches TokenView::Call(n)
            ==> names.contains(n))
}

/// No terminator anywhere in `insts`.
pub open spec fn spec_no_end(insts: Seq<TokenView>) -> bool {
    forall|j: int| 0 <= j < insts.len() ==> #[trigger] insts[j] != TokenView::End
}

/// The pass-2 state invariant: every finished macro is well terminated
/// with its calls inside the pass-1 name set, and the macro under
/// construction holds no terminator yet.
pub open spec fn spec_state_ok(st: CompileState, names: Set<Seq<char>>) -> bool {
    &&& forall|k: Seq<char>|
        st.reg.contains_key(k) ==> well_terminated(#[trigger] st.reg[k]) && calls_in_names(
            st.reg[k],
            names,
        )
    &&& spec_no_end(st.cur)
    &&& calls_in_names(st.cur, names)
}

/// What one compiled line can contain: calls only into the name set, and
/// a terminator only from the word `end`.
proof fn lemma_instruction_shape(toks: Seq<Seq<char>>, names: Set<Seq<char>>)
    requires
        toks.len() >= 1,
        spec_instruction(toks, names) is Ok,
    ensures
        calls_in_names(spec_instruction(toks, names)->Ok_0, names),
        toks[0] != "end"@ ==> spec_no_end(spec_instruction(toks, names)->Ok_0),
{
    let insts = spec_instruction(toks, names)->Ok_0;
    assert forall|j: int| 0 <= j < insts.len() implies (#[trigger] insts[j] matches
        TokenView::Call(n) ==> names.contains(n)) && (toks[0] != "end"@ ==> insts[j]
        != TokenView::End) by {
        let op = toks[0];
        if op == "move"@ || op == "wait"@ || op == "type"@ || op == "end"@ {
        } else if op == "press"@ || op == "release"@ || op == "hold"@ {
            let t = spec_resolve_target(toks)->Ok_0.0;
            assert(spec_press_token(t, false) != TokenView::End);
            assert(spec_press_token(t, true) != TokenView::End);
        } else {
        }
    }
}

/// Pass 2 keeps the state invariant, so an `Ok` registry holds only well
/// terminated macros whose calls lie inside the name set.
proof fn lemma_pass2_ok(lines: Seq<Seq<char>>, i: int, st: CompileState, names: Set<Seq<char>>)
    requires
        spec_state_ok(st, names),
        spec_pass2(lines, i, st, names) is Ok,
    ensures
        forall|k: Seq<char>|
            spec_pass2(lines, i, st, names)->Ok_0.contains_key(k) ==> well_terminated(
                #[trigger] spec_pass2(lines, i, st, names)->Ok_0[k],
            ) && calls_in_names(spec_pass2(lines, i, st, names)->Ok_0[k], names),
    decreases lines.len() - i,
{
    if i < 0 || i >= lines.len() {
    } else {
        let toks = spec_norm_tokens(lines[i]);
        if toks.len() == 0 {
            lemma_pass2_ok(lines, i + 1, st, names);
        } else {
            match spec_line_step(st, toks, names, i + 1) {
                Err(e) => {},
                Ok(st2) => {
                    if spec_is_header(toks) {
                    } else {
                        lemma_instruction_shape(toks, names);
                        let insts = spec_instruction(toks, names)->Ok_0;
                        if toks[0] == "end"@ {
                            let done = st.cur.push(TokenView::End);
                            assert(well_terminated(done)) by {
                                assert(forall|j: int|
                                    0 <= j < done.len() - 1 ==> #[trigger] done[j] == st.cur[j]);
                            }
                            assert(calls_in_names(done, names)) by {
                                assert(forall|j: int|
                                    0 <= j < done.len() - 1 ==> #[trigger] done[j] == st.cur[j]);
                            }
                        } else {
                            let grown = st.cur + insts;
                            assert forall|j: int| 0 <= j < grown.len() implies (
                            #[trigger] grown[j] matches TokenView::Call(n) ==> names.contains(n))
                                && grown[j] != TokenView::End by {
                                if j < st.cur.len() {
                                    assert(grown[j] == st.cur[j]);
                                } else {
                                    assert(grown[j] == insts[j - st.cur.len()]);
                                }
                            }
                        }
                    }
                    lemma_pass2_ok(lines, i + 1, st2, names);
                },
            }
        }
    }
}

/// When no declared macro is missing, every declared name is a registry
/// key.
proof fn lemma_unfinished_none(hdrs: Seq<(Seq<char>, int)>, reg: Map<Seq<char>, Seq<TokenView>>)
    requires
        spec_first_unfinished(hdrs, reg) is None,
    ensures
        forall|j: int| 0 <= j < hdrs.len() ==> reg.contains_key((#[trigger] hdrs[j]).0),
    decreases hdrs.len(),
{
    if hdrs.len() > 0 {
        lemma_unfinished_none(hdrs.drop_first(), reg);
        assert forall|j: int| 0 <= j < hdrs.len() implies reg.contains_key(
            (#[trigger] hdrs[j]).0,
        ) by {
            if j > 0 {
                assert(hdrs.drop_first()[j - 1] == hdrs[j]);
            }
        }
    }
}

/// Compile a whole source given as its sequence of lines.
///
/// On success the result is exactly the registry `spec_compile_lines`
/// describes, and it is well formed: every macro ends in exactly one
/// terminator and every invocation target is present. On failure the
/// error is exactly the one `spec_compile_lines` describes, and no
/// registry is produced at all.
pub fn compile_lines(lines: &Vec<String>) -> (r: Result<Registry, SourceSyntaxError>)
    ensures
        match r {
            Ok(reg) => spec_compile_lines(lines.deep_view()) == Ok::<_, SourceSyntaxError>(reg@)
                && reg.wf(),
            Err(e) => spec_compile_lines(lines.deep_view()) == Err::<
                Map<Seq<char>, Seq<TokenView>>,
                _,
            >(e),
        },
{
    let ghost lv = lines.deep_view();
    let hdrs = collect_headers(lines);
    let ghost names = spec_names(hdrs.deep_view());
    let mut cur_name: Option<String> = None;
    let mut cur: Vec<Token> = Vec::new();
    let mut entries: Vec<Action> = Vec::new();
    let mut i: usize = 0;
    proof {
        assert(cur.deep_view() =~= Seq::<TokenView>::empty());
        assert(entries.deep_view() =~= Seq::<ActionView>::empty());
    }
    while i < lines.len()
        invariant
            i <= lines.len(),
            lv == lines.deep_view(),
            hdrs.deep_view() == spec_headers(lv),
            names == spec_names(hdrs.deep_view()),
            spec_pass2(
                lv,
                0,
                spec_init_state(),
                names,
            ) == spec_pass2(
                lv,
                i as int,
                CompileState {
                    cur_name: cur_name.deep_view(),
                    cur: cur.deep_view(),
                    reg: Registry::entries_map(entries.deep_view()),
                },
                names,
            ),
        decreases lines.len() - i,
    {
        let ghost st = CompileState {
            cur_name: cur_name.deep_view(),
            cur: cur.deep_view(),
            reg: Registry::entries_map(entries.deep_view()),
        };
        let toks = normalize_line(lines[i].as_str());
        proof {
            assert(lv[i as int] == lines@[i as int]@);
        }
        if toks.len() == 0 {
            i += 1;
            continue ;
        }
        match header_name(&toks) {
            Some(n) => {
                cur_name = Some(n);
                proof {
                    let st2 = spec_line_step(st, toks.deep_view(), names, i + 1)->Ok_0;
                    assert(cur_name.deep_view() == st2.cur_name);
                }
            },
            None => {
                match parse_instruction(&toks, &hdrs) {
                    Err(k) => {
                        let e = SourceSyntaxError { line: i + 1, kind: k };
                        proof {
                            assert(spec_line_step(st, toks.deep_view(), names, i + 1) == Err::<
                                CompileState,
                                _,
                            >(e));
                        }
                        return Err(e);
                    },
                    Ok(insts) => {
                        if str_eq(toks[0].as_str(), "end") {
                            let taken = cur_name;
                            cur_name = None;
                            match taken {
                                None => {
                                    let e = SourceSyntaxError {
                                        line: i + 1,
                                        kind: ErrorKind::MissingName,
                                    };
                                    return Err(e);
                                },
                                Some(n) => {
                                    let ghost nv = n@;
                                    let ghost old_entries = entries.deep_view();
                                    let mut finished = cur;
                                    cur = Vec::new();
                                    finished.push(Token::End);
                                    let ghost fin_dv = finished.deep_view();
                                    proof {
                                        assert(fin_dv =~= st.cur.push(TokenView::End));
                                    }
                                    entries.push(
                                        Action { name: Some(n), instructions: finished },
                                    );
                                    proof {
                                        assert(entries.deep_view().drop_last() =~= old_entries);
                                        assert(entries.deep_view().last() == (ActionView {
                                            name: Some(nv),
                                            instructions: fin_dv,
                                        }));
                                        assert(cur.deep_view() =~= Seq::<TokenView>::empty());
                                        assert(Registry::entries_map(entries.deep_view())
                                            == st.reg.insert(nv, st.cur.push(TokenView::End)));
                                    }
                                },
                            }
                        } else {
                            let ghost insts_dv = insts.deep_view();
                            let mut moved = insts;
                            cur.append(&mut moved);
                            proof {
                                assert(cur.deep_view() =~= st.cur + insts_dv);
                            }
                        }
                    },
                }
            },
        }
        i += 1;
    }
    let reg = Registry { entries };
    proof {
        assert(spec_pass2(lv, 0, spec_init_state(), names) == Ok::<_, SourceSyntaxError>(reg@));
    }
    match first_unfinished(&hdrs, &reg) {
        Some(line) => Err(SourceSyntaxError { line, kind: ErrorKind::Unterminated }),
        None => {
            proof {
                lemma_pass2_ok(lv, 0, spec_init_state(), names);
                lemma_unfinished_none(hdrs.deep_view(), reg@);
                assert forall|k: Seq<char>| names.contains(k) implies reg@.contains_key(k) by {
                    lemma_names_membership(hdrs.deep_view(), k);
                }
                assert forall|k: Seq<char>| reg@.contains_key(k) implies well_terminated(
                    #[trigger] reg@[k],
                ) && calls_resolved(reg@[k], reg@) by {
                    assert(calls_in_names(reg@[k], names));
                    assert forall|j: int|
                        0 <= j < reg@[k].len() implies (#[trigger] reg@[k][j] matches
                        TokenView::Call(n) ==> reg@.contains_key(n)) by {}
                }
            }
            Ok(reg)
        },
    }
}

/// Appending headers never loses declared names.
proof fn lemma_names_append_one(s: Seq<(Seq<char>, int)>, t: Seq<(Seq<char>, int)>)
    requires
        t.len() <= 1,
    ensures
        forall|k: Seq<char>| spec_names(s).contains(k) ==> spec_names(s + t).contains(k),
{
    if t.len() == 0 {
        assert(s + t =~= s);
    } else {
        assert((s + t).drop_last() =~= s);
        assert(spec_names(s + t) == spec_names(s).insert((s + t).last().0));
    }
}

/// A header anywhere in the source puts its name into the pass-1 set.
proof fn lemma_header_in_names(lines: Seq<Seq<char>>, i: int)
    requires
        0 <= i < lines.len(),
        spec_is_header(spec_norm_tokens(lines[i])),
    ensures
        spec_names(spec_headers(lines)).contains(spec_header_name(spec_norm_tokens(lines[i]))),
    decreases lines.len(),
{
    let toks = spec_norm_tokens(lines[i]);
    let pre = spec_headers(lines.drop_last());
    if i == lines.len() - 1 {
        assert(lines.last() == lines[i]);
        let h = (spec_header_name(toks), lines.len() as int);
        assert(spec_headers(lines) == pre + seq![h]);
        assert((pre + seq![h]).drop_last() =~= pre);
        assert(spec_names(spec_headers(lines)).contains(h.0));
    } else {
        assert(lines.drop_last()[i] == lines[i]);
        lemma_header_in_names(lines.drop_last(), i);
        lemma_names_append_one(
            pre,
            if spec_is_header(spec_norm_tokens(lines.last())) {
                seq![(spec_header_name(spec_norm_tokens(lines.last())), lines.len() as int)]
            } else {
                Seq::empty()
            },
        );
    }
}

/// Pass 2 only ever finalizes macros under declared names.
proof fn lemma_pass2_dom(lines: Seq<Seq<char>>, i: int, st: CompileState)
    requires
        spec_pass2(lines, i, st, spec_names(spec_headers(lines))) is Ok,
        st.cur_name matches Some(n) ==> spec_names(spec_headers(lines)).contains(n),
        forall|k: Seq<char>|
            st.reg.contains_key(k) ==> spec_names(spec_headers(lines)).contains(k),
    ensures
        forall|k: Seq<char>|
            spec_pass2(lines, i, st, spec_names(spec_headers(lines)))->Ok_0.contains_key(k)
                ==> spec_names(spec_headers(lines)).contains(k),
    decreases lines.len() - i,
{
    let names = spec_names(spec_headers(lines));
    if i < 0 || i >= lines.len() {
    } else {
        let toks = spec_norm_tokens(lines[i]);
        if toks.len() == 0 {
            lemma_pass2_dom(lines, i + 1, st);
        } else {
            match spec_line_step(st, toks, names, i + 1) {
                Err(e) => {},
                Ok(st2) => {
                    if spec_is_header(toks) {
                        lemma_header_in_names(lines, i);
                    }
                    lemma_pass2_dom(lines, i + 1, st2);
                },
            }
        }
    }
}

/// A compiled registry holds exactly the names the source declares, so a
/// bare-name invocation may target any declared macro: the invoking
/// macro itself, or one declared later in the file.
pub proof fn lemma_compile_names(lines: Seq<Seq<char>>)
    requires
        spec_compile_lines(lines) is Ok,
    ensures
        spec_compile_lines(lines)->Ok_0.dom() =~= spec_names(spec_headers(lines)),
{
    let names = spec_names(spec_headers(lines));
    let reg = spec_compile_lines(lines)->Ok_0;
    lemma_pass2_dom(lines, 0, spec_init_state());
    lemma_unfinished_none(spec_headers(lines), reg);
    assert forall|k: Seq<char>| names.contains(k) implies reg.contains_key(k) by {
        lemma_names_membership(spec_headers(lines), k);
    }
}

/// A `hold` always lowers to exactly three instructions: the press, a
/// wait of the written duration, and the release of the very same key or
/// mouse button — whenever the line compiles at all.
pub proof fn lemma_hold_lowering(toks: Seq<Seq<char>>, names: Set<Seq<char>>)
    requires
        toks.len() >= 1,
        toks[0] == "hold"@,
        spec_instruction(toks, names) is Ok,
    ensures
        spec_resolve_target(toks) is Ok,
        spec_instruction(toks, names)->Ok_0 == seq![
            spec_press_token(spec_resolve_target(toks)->Ok_0.0, false),
            TokenView::Wait(spec_u64_value(toks[spec_resolve_target(toks)->Ok_0.1]) as u64),
            spec_press_token(spec_resolve_target(toks)->Ok_0.0, true),
        ],
{
    reveal_strlit("hold");
    reveal_strlit("move");
    assert(toks[0] != "move"@) by {
        assert("hold"@[0] == 'h' && "move"@[0] == 'm');
    }
}

/// The whole compile, from the raw source text.
pub open spec fn spec_compile(src: Seq<char>) -> Result<
    Map<Seq<char>, Seq<TokenView>>,
    SourceSyntaxError,
> {
    spec_compile_lines(spec_lines(src))
}

/// Compile a whole source text into a fresh registry.
///
/// Malformed source is a fatal, whole-file failure: the error names the
/// offending line and no registry, full or partial, is produced.
pub fn compile(source: &str) -> (r: Result<Registry, SourceSyntaxError>)
    ensures
        match r {
            Ok(reg) => spec_compile(source@) == Ok::<_, SourceSyntaxError>(reg@) && reg.wf(),
            Err(e) => spec_compile(source@) == Err::<Map<Seq<char>, Seq<TokenView>>, _>(e),
        },
{
    let lines = split_lines(source);
    compile_lines(&lines)
}

/// Recompile a source and swap the registry wholesale.
///
/// On success the new registry replaces the old one in a single
/// assignment. On failure the previous registry is kept exactly as it
/// was — never an empty or truncated one — and the error is reported to
/// the caller.
pub fn reload(current: &mut Registry, source: &str) -> (r: Option<SourceSyntaxError>)
    ensures
        match r {
            None => spec_compile(source@) == Ok::<_, SourceSyntaxError>(final(current)@)
                && final(current).wf(),
            Some(e) => spec_compile(source@) == Err::<Map<Seq<char>, Seq<TokenView>>, _>(e)
                && *final(current) == *old(current),
        },
{
    match compile(source) {
        Ok(reg) => {
            *current = reg;
            None
        },
        Err(e) => Some(e),
    }
}

} // verus!
