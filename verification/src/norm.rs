//! Line normalization: comment stripping and whitespace tokenization.
//!
//! A comment begins at the first occurrence of `//` anywhere in a line,
//! including in the middle of a token; everything from that position to the
//! end of the line is discarded. What remains is split on whitespace into
//! tokens. A line with zero tokens is blank and contributes nothing.

use vstd::prelude::*;

verus! {

/// The lines of a source text, split at every `\n`, processing `s` left
/// to right with `cur` the line under construction.
pub open spec fn spec_lines_from(s: Seq<char>, cur: Seq<char>) -> Seq<Seq<char>>
    decreases s.len(),
{
    if s.len() == 0 {
        seq![cur]
    } else if s[0] == '\n' {
        seq![cur] + spec_lines_from(s.drop_first(), Seq::empty())
    } else {
        spec_lines_from(s.drop_first(), cur.push(s[0]))
    }
}

/// The lines of a source text.
pub open spec fn spec_lines(s: Seq<char>) -> Seq<Seq<char>> {
    spec_lines_from(s, Seq::empty())
}

/// Split a source text into its lines at every `\n`. A carriage return
/// left at a line's end is whitespace to the tokenizer, so sources with
/// `\r\n` endings read the same way.
pub fn split_lines(source: &str) -> (lines: Vec<String>)
    ensures
        lines.deep_view() == spec_lines(source@),
{
    let len = source.unicode_len();
    let mut lines: Vec<String> = Vec::new();
    let mut start: usize = 0;
    let mut i: usize = 0;
    proof {
        assert(source@.subrange(0, len as int) =~= source@);
        assert(source@.subrange(0, 0) =~= Seq::<char>::empty());
        assert(lines.deep_view() + spec_lines_from(source@, Seq::<char>::empty()) =~= spec_lines(
            source@,
        ));
    }
    while i < len
        invariant
            start <= i <= len,
            len == source@.len(),
            spec_lines(source@) == lines.deep_view() + spec_lines_from(
                source@.subrange(i as int, len as int),
                source@.subrange(start as int, i as int),
            ),
        decreases len - i,
    {
        let ghost rest = source@.subrange(i as int, len as int);
        let ghost cur = source@.subrange(start as int, i as int);
        proof {
            assert(rest[0] == source@[i as int]);
            assert(rest.drop_first() =~= source@.subrange(i + 1, len as int));
        }
        let c = source.get_char(i);
        if c == '\n' {
            let line = source.substring_char(start, i);
            lines.push(line.to_owned());
            start = i + 1;
            proof {
                assert(source@.subrange(i + 1, i + 1) =~= Seq::<char>::empty());
                assert(lines.deep_view() =~= lines.deep_view().drop_last().push(cur));
                assert(lines.deep_view().drop_last() + (seq![cur] + spec_lines_from(
                    rest.drop_first(),
                    Seq::<char>::empty(),
                )) =~= lines.deep_view() + spec_lines_from(
                    rest.drop_first(),
                    Seq::<char>::empty(),
                ));
            }
        } else {
            proof {
                assert(cur.push(source@[i as int]) =~= source@.subrange(start as int, i + 1));
            }
        }
        i += 1;
    }
    let last = source.substring_char(start, len);
    lines.push(last.to_owned());
    proof {
        let cur = source@.subrange(start as int, len as int);
        assert(source@.subrange(len as int, len as int) =~= Seq::<char>::empty());
        assert(lines.deep_view() =~= lines.deep_view().drop_last().push(cur));
        assert(lines.deep_view().drop_last() + seq![cur] =~= lines.deep_view());
    }
    lines
}

/// Characters treated as token separators: space, tab, newline,
/// carriage return, vertical tab and form feed.
pub open spec fn is_space_char(c: char) -> bool {
    c == ' ' || c == '\t' || c == '\n' || c == '\r' || c == '\u{b}' || c == '\u{c}'
}

/// The part of a line before its comment: the longest prefix that contains
/// no `//`.
pub open spec fn spec_before_comment(s: Seq<char>) -> Seq<char>
    decreases s.len(),
{
    if s.len() < 2 {
        s
    } else if s[0] == '/' && s[1] == '/' {
        Seq::empty()
    } else {
        seq![s[0]] + spec_before_comment(s.drop_first())
    }
}

/// Whitespace tokenization, processing `s` left to right with `cur` the
/// token under construction.
pub open spec fn spec_tokens_from(s: Seq<char>, cur: Seq<char>) -> Seq<Seq<char>>
    decreases s.len(),
{
    if s.len() == 0 {
        if cur.len() == 0 {
            Seq::empty()
        } else {
            seq![cur]
        }
    } else if is_space_char(s[0]) {
        if cur.len() == 0 {
            spec_tokens_from(s.drop_first(), Seq::empty())
        } else {
            seq![cur] + spec_tokens_from(s.drop_first(), Seq::empty())
        }
    } else {
        spec_tokens_from(s.drop_first(), cur.push(s[0]))
    }
}

/// The whitespace-separated tokens of a character sequence.
pub open spec fn spec_tokens(s: Seq<char>) -> Seq<Seq<char>> {
    spec_tokens_from(s, Seq::empty())
}

/// The tokens of one raw source line: the comment is cut first, then the
/// remainder is split on whitespace.
pub open spec fn spec_norm_tokens(line: Seq<char>) -> Seq<Seq<char>> {
    spec_tokens(spec_before_comment(line))
}

/// Tokens re-joined with single spaces: the trimmed form of a line.
pub open spec fn spec_join(toks: Seq<Seq<char>>) -> Seq<char>
    decreases toks.len(),
{
    if toks.len() == 0 {
        Seq::empty()
    } else if toks.len() == 1 {
        toks[0]
    } else {
        toks[0] + seq![' '] + spec_join(toks.drop_first())
    }
}

/// Character-by-character string equality, stated over the views.
pub fn str_eq(a: &str, b: &str) -> (r: bool)
    ensures
        r == (a@ == b@),
{
    let a_len = a.unicode_len();
    let b_len = b.unicode_len();
    if a_len != b_len {
        return false;
    }
    let mut i: usize = 0;
    while i < a_len
        invariant
            i <= a_len,
            a_len == a@.len(),
            a_len == b@.len(),
            forall|j: int| 0 <= j < i ==> a@[j] == b@[j],
        decreases a_len - i,
    {
        if a.get_char(i) != b.get_char(i) {
            return false;
        }
        i += 1;
    }
    proof {
        assert(a@ =~= b@);
    }
    true
}

/// The index where the comment of `line` starts, or its length if it has
/// no comment.
fn comment_cut(line: &str) -> (cut: usize)
    ensures
        cut <= line@.len(),
        forall|k: int|
            0 <= k < cut ==> !(k + 1 < line@.len() && #[trigger] line@[k] == '/' && line@[k + 1] == '/'),
        cut < line@.len() ==> cut + 1 < line@.len() && line@[cut as int] == '/' && line@[cut
            + 1] == '/',
{
    let len = line.unicode_len();
    let mut i: usize = 0;
    while i < len && i + 1 < len
        invariant
            i <= len,
            len == line@.len(),
            forall|k: int|
                0 <= k < i ==> !(k + 1 < line@.len() && #[trigger] line@[k] == '/' && line@[k + 1] == '/'),
        decreases len - i,
    {
        if line.get_char(i) == '/' && line.get_char(i + 1) == '/' {
            return i;
        }
        i += 1;
    }
    len
}

/// Cutting at the first `//` yields exactly the comment-free prefix.
proof fn lemma_before_comment(s: Seq<char>, cut: int)
    requires
        0 <= cut <= s.len(),
        forall|k: int| 0 <= k < cut ==> !(k + 1 < s.len() && #[trigger] s[k] == '/' && s[k + 1] == '/'),
        cut < s.len() ==> cut + 1 < s.len() && s[cut] == '/' && s[cut + 1] == '/',
    ensures
        spec_before_comment(s) == s.subrange(0, cut),
    decreases s.len(),
{
    if s.len() < 2 {
        assert(cut == s.len());
        assert(s.subrange(0, cut) =~= s);
    } else if s[0] == '/' && s[1] == '/' {
        assert(cut == 0);
        assert(s.subrange(0, 0) =~= Seq::<char>::empty());
    } else {
        assert(cut >= 1);
        let t = s.drop_first();
        assert(forall|k: int|
            0 <= k < cut - 1 ==> !(k + 1 < t.len() && #[trigger] t[k] == '/' && t[k + 1] == '/')) by {
            assert(forall|k: int| 0 <= k < t.len() ==> t[k] == s[k + 1]);
        }
        lemma_before_comment(t, cut - 1);
        assert(seq![s[0]] + t.subrange(0, cut - 1) =~= s.subrange(0, cut));
    }
}

/// The tokens of one raw line of source, with any comment stripped.
pub fn normalize_line(line: &str) -> (toks: Vec<String>)
    ensures
        toks.deep_view() == spec_norm_tokens(line@),
{
    let len = line.unicode_len();
    let cut = comment_cut(line);
    proof {
        lemma_before_comment(line@, cut as int);
    }
    let ghost pre = line@.subrange(0, cut as int);
    let mut toks: Vec<String> = Vec::new();
    let mut start: usize = 0;
    let mut in_tok: bool = false;
    let mut i: usize = 0;
    while i < cut
        invariant
            i <= cut,
            cut <= line@.len(),
            len == line@.len(),
            pre == line@.subrange(0, cut as int),
            in_tok ==> start < i,
            spec_tokens(pre) == toks.deep_view() + spec_tokens_from(
                line@.subrange(i as int, cut as int),
                if in_tok {
                    line@.subrange(start as int, i as int)
                } else {
                    Seq::<char>::empty()
                },
            ),
        decreases cut - i,
    {
        let ghost rest = line@.subrange(i as int, cut as int);
        let ghost cur = if in_tok {
            line@.subrange(start as int, i as int)
        } else {
            Seq::<char>::empty()
        };
        proof {
            assert(rest[0] == line@[i as int]);
            assert(rest.drop_first() =~= line@.subrange(i + 1, cut as int));
        }
        let c = line.get_char(i);
        if c == ' ' || c == '\t' || c == '\n' || c == '\r' || c == '\u{b}' || c == '\u{c}' {
            if in_tok {
                let t = line.substring_char(start, i);
                toks.push(t.to_owned());
                in_tok = false;
                proof {
                    assert(toks.deep_view() =~= toks.deep_view().drop_last().push(cur));
                    assert(toks.deep_view().drop_last() + (seq![cur] + spec_tokens_from(
                        rest.drop_first(),
                        Seq::<char>::empty(),
                    )) =~= toks.deep_view() + spec_tokens_from(
                        rest.drop_first(),
                        Seq::<char>::empty(),
                    ));
                }
            }
        } else {
            if !in_tok {
                start = i;
                in_tok = true;
            }
            proof {
                assert(cur.push(line@[i as int]) =~= line@.subrange(start as int, i + 1));
            }
        }
        i += 1;
    }
    if in_tok {
        let t = line.substring_char(start, cut);
        toks.push(t.to_owned());
        proof {
            let cur = line@.subrange(start as int, cut as int);
            assert(line@.subrange(cut as int, cut as int) =~= Seq::<char>::empty());
            assert(toks.deep_view() =~= toks.deep_view().drop_last().push(cur));
            assert(toks.deep_view().drop_last() + seq![cur] =~= toks.deep_view());
        }
    } else {
        proof {
            assert(line@.subrange(cut as int, cut as int) =~= Seq::<char>::empty());
            assert(toks.deep_view() + Seq::<Seq<char>>::empty() =~= toks.deep_view());
        }
    }
    toks
}

/// Appending a further token extends the joined form by one space and the
/// token.
proof fn lemma_join_push(toks: Seq<Seq<char>>, t: Seq<char>)
    requires
        toks.len() >= 1,
    ensures
        spec_join(toks.push(t)) == spec_join(toks) + seq![' '] + t,
    decreases toks.len(),
{
    if toks.len() == 1 {
        let p = toks.push(t);
        assert(p.drop_first() =~= seq![t]);
        assert(spec_join(seq![t]) == t);
        assert(p[0] == toks[0]);
        assert(spec_join(p) == p[0] + seq![' '] + spec_join(p.drop_first()));
    } else {
        assert(toks.push(t).drop_first() =~= toks.drop_first().push(t));
        lemma_join_push(toks.drop_first(), t);
        assert(toks[0] + seq![' '] + (spec_join(toks.drop_first()) + seq![' '] + t) =~= (toks[0]
            + seq![' '] + spec_join(toks.drop_first())) + seq![' '] + t);
    }
}

/// The tokens from position `from` on, re-joined with single spaces.
pub fn join_tokens_from(toks: &Vec<String>, from: usize) -> (r: String)
    requires
        from <= toks@.len(),
    ensures
        r@ == spec_join(toks.deep_view().subrange(from as int, toks.deep_view().len() as int)),
{
    let ghost all = toks.deep_view();
    let len = toks.len();
    if from >= len {
        proof {
            assert(all.subrange(from as int, all.len() as int) =~= Seq::<Seq<char>>::empty());
        }
        return String::new();
    }
    let mut r: String = toks[from].clone();
    let mut i: usize = from + 1;
    proof {
        assert(all.subrange(from as int, from + 1) =~= seq![all[from as int]]);
    }
    while i < len
        invariant
            from < i <= len,
            len == all.len(),
            all == toks.deep_view(),
            r@ == spec_join(all.subrange(from as int, i as int)),
        decreases len - i,
    {
        r.append(" ");
        r.append(toks[i].as_str());
        proof {
            reveal_strlit(" ");
            assert(all.subrange(from as int, i + 1) =~= all.subrange(from as int, i as int).push(
                all[i as int],
            ));
            lemma_join_push(all.subrange(from as int, i as int), all[i as int]);
        }
        i += 1;
    }
    r
}

/// The whole token list re-joined with single spaces.
pub fn join_tokens(toks: &Vec<String>) -> (r: String)
    ensures
        r@ == spec_join(toks.deep_view()),
{
    let r = join_tokens_from(toks, 0);
    proof {
        assert(toks.deep_view().subrange(0, toks.deep_view().len() as int) =~= toks.deep_view());
    }
    r
}

/// A trailing comment never changes what a line compiles to: the tokens
/// of `before + "//" + comment` are exactly the tokens of `before`, for
/// any comment text, whenever `before` itself holds no comment marker
/// (nor ends half-way into one).
pub proof fn lemma_comment_ignored(before: Seq<char>, comment: Seq<char>)
    requires
        forall|k: int|
            0 <= k < before.len() - 1 ==> !(#[trigger] before[k] == '/' && before[k + 1] == '/'),
        before.len() >= 1 ==> before.last() != '/',
    ensures
        spec_norm_tokens(before + "//"@ + comment) == spec_norm_tokens(before),
{
    reveal_strlit("//");
    let full = before + "//"@ + comment;
    let cut = before.len() as int;
    assert(full[cut] == '/' && full[cut + 1] == '/');
    assert(forall|k: int| 0 <= k < before.len() ==> full[k] == before[k]);
    lemma_before_comment(full, cut);
    lemma_before_comment(before, before.len() as int);
    assert(full.subrange(0, cut) =~= before);
    assert(before.subrange(0, before.len() as int) =~= before);
}

/// A line of nothing but whitespace has no tokens at all: it contributes
/// nothing to a compile.
pub proof fn lemma_blank_line(line: Seq<char>)
    requires
        forall|k: int| 0 <= k < line.len() ==> is_space_char(#[trigger] line[k]),
    ensures
        spec_norm_tokens(line) == Seq::<Seq<char>>::empty(),
{
    lemma_before_comment(line, line.len() as int);
    assert(line.subrange(0, line.len() as int) =~= line);
    lemma_all_space_no_tokens(line);
}

/// Whitespace alone never starts a token.
proof fn lemma_all_space_no_tokens(s: Seq<char>)
    requires
        forall|k: int| 0 <= k < s.len() ==> is_space_char(#[trigger] s[k]),
    ensures
        spec_tokens(s) == Seq::<Seq<char>>::empty(),
    decreases s.len(),
{
    if s.len() > 0 {
        assert(forall|k: int|
            0 <= k < s.drop_first().len() ==> is_space_char(#[trigger] s.drop_first()[k]));
        lemma_all_space_no_tokens(s.drop_first());
    }
}

} // verus!
