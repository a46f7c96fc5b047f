//! The round-trip law: parsing what the renderer wrote yields the same
//! configuration back — name, command lists and tasks, in the same order.
//!
//! The proof follows the pipeline: the joined lines split back into the
//! same lines; each rendered line tokenizes and reads back as the header
//! or key/value it came from; the fold over those lines rebuilds exactly
//! the original tables; and the final checks pass because a renderable
//! configuration has a non-empty name.

use vstd::prelude::*;

use crate::parse::Section;
use crate::parse::SpecConfig;
use crate::parse::SpecElem;
use crate::parse::SpecLine;
use crate::parse::SpecState;
use crate::parse::SpecVal;
use crate::parse::Tok;
use crate::parse::find_nl;
use crate::parse::lemma_find_nl_bounds;
use crate::parse::split_from;
use crate::parse::split_lines;

verus! {

/// No newline anywhere in the line.
pub open spec fn no_nl(l: Seq<char>) -> bool {
    forall|k: int| 0 <= k < l.len() ==> l[k] != '\n'
}

proof fn lemma_find_nl_shift(s: Seq<char>, i: int)
    requires
        0 <= i <= s.len(),
    ensures
        find_nl(s, i) - i == find_nl(s.subrange(i, s.len() as int), 0),
    decreases s.len() - i,
{
    let sub = s.subrange(i, s.len() as int);
    if i < s.len() {
        assert(sub[0] == s[i]);
        if s[i] != '\n' {
            lemma_find_nl_shift(s, i + 1);
            lemma_find_nl_shift(sub, 1);
            assert(s.subrange(i + 1, s.len() as int) =~= sub.subrange(1, sub.len() as int));
        }
    }
}

proof fn lemma_split_from_suffix(s: Seq<char>, i: int)
    requires
        0 <= i <= s.len(),
    ensures
        split_from(s, i) == split_lines(s.subrange(i, s.len() as int)),
    decreases s.len() - i,
{
    let sub = s.subrange(i, s.len() as int);
    lemma_find_nl_shift(s, i);
    lemma_find_nl_bounds(s, i);
    lemma_find_nl_bounds(sub, 0);
    let j = find_nl(s, i);
    if j >= s.len() {
        assert(s.subrange(i, s.len() as int) =~= sub.subrange(0, sub.len() as int));
    } else {
        assert(s.subrange(i, j) =~= sub.subrange(0, j - i));
        lemma_split_from_suffix(s, j + 1);
        lemma_split_from_suffix(sub, j - i + 1);
        assert(s.subrange(j + 1, s.len() as int) =~= sub.subrange(j - i + 1, sub.len() as int));
    }
}

proof fn lemma_split_join(lines: Seq<Seq<char>>)
    requires
        lines.len() > 0,
        forall|i: int| 0 <= i < lines.len() ==> no_nl(#[trigger] lines[i]),
    ensures
        split_lines(crate::render::join_nl(lines)) == lines,
    decreases lines.len(),
{
    reveal_strlit("\n");
    let s = crate::render::join_nl(lines);
    if lines.len() == 1 {
        lemma_find_nl_bounds(s, 0);
        let f = find_nl(s, 0);
        if f < s.len() {
            assert(s[f] == '\n');
            assert(no_nl(lines[0]));
            assert(false);
        }
        assert(s.subrange(0, s.len() as int) =~= s);
        assert(split_lines(s) =~= seq![lines[0]]);
        assert(seq![lines[0]] =~= lines);
    } else {
        let head = lines[0];
        let rest = lines.drop_first();
        let tail = crate::render::join_nl(rest);
        assert(s == head + "\n"@ + tail);
        let m = head.len() as int;
        assert(s.len() == head.len() + 1 + tail.len());
        assert(s[m] == '\n');
        assert(no_nl(head));
        assert(forall|k: int| 0 <= k < m ==> s[k] == head[k]);
        lemma_find_nl_bounds(s, 0);
        let f = find_nl(s, 0);
        if f < m {
            assert(s[f] == '\n');
            assert(s[f] == head[f]);
            assert(false);
        }
        if f > m {
            assert(s[m] != '\n');
            assert(false);
        }
        assert(s.subrange(0, m) =~= head);
        lemma_split_from_suffix(s, m + 1);
        assert(s.subrange(m + 1, s.len() as int) =~= tail);
        assert(forall|i2: int| 0 <= i2 < rest.len() ==> no_nl(#[trigger] rest[i2]));
        lemma_split_join(rest);
        assert(seq![head] + rest =~= lines);
    }
}

} // verus!

use crate::parse::basic_body;
use crate::parse::bare_end;
use crate::parse::is_bare_char;
use crate::parse::is_blank;
use crate::parse::skip_blank;
use crate::parse::tok_cons_spec;
use crate::parse::tokenize;
use crate::parse::parse_line;
use crate::parse::parse_line_toks;
use crate::render::bare_key;
use crate::render::plain_char;
use crate::render::plain_str;
use crate::render::plain_list;
use crate::render::quote_str;
use crate::render::render_header;
use crate::render::render_items;
use crate::render::render_list;
use crate::render::render_str_line;
use crate::render::render_task_line;

verus! {

/// A bare-token character is not blank and is none of the grammar's
/// special characters.
proof fn lemma_bare_char_class(c: char)
    ensures
        is_bare_char(c) ==> (!is_blank(c) && c != '#' && c != '[' && c != ']' && c != '=' && c
            != ',' && c != '"' && c != '\'' && c != '\n'),
{
}

/// A plain character is not the quote or the backslash.
proof fn lemma_plain_char_class(c: char)
    ensures
        plain_char(c) ==> (c != '"' && c != '\\' && c != '\n'),
{
}

/// Tokenization ignores a leading blank.
proof fn lemma_tokenize_skip_blank(l: Seq<char>, i: int)
    requires
        0 <= i < l.len(),
        is_blank(l[i]),
    ensures
        tokenize(l, i) == tokenize(l, i + 1),
{
    assert(skip_blank(l, i) == skip_blank(l, i + 1));
    assert(tokenize(l, i) == tokenize(l, i + 1));
}

/// A run of bare characters ends exactly at its first non-bare follower.
proof fn lemma_bare_run(l: Seq<char>, i: int, n: int)
    requires
        0 <= i,
        0 <= n,
        i + n <= l.len(),
        forall|k: int| i <= k < i + n ==> is_bare_char(l[k]),
        i + n == l.len() || !is_bare_char(l[i + n]),
    ensures
        bare_end(l, i) == i + n,
    decreases n,
{
    if n > 0 {
        lemma_bare_run(l, i + 1, n - 1);
    }
}

/// A basic string of plain characters closes at the first quote, yielding
/// exactly those characters.
proof fn lemma_basic_plain(l: Seq<char>, i: int, n: int)
    requires
        0 <= i,
        0 <= n,
        i + n < l.len(),
        forall|k: int| i <= k < i + n ==> plain_char(l[k]),
        l[i + n] == '"',
    ensures
        basic_body(l, i) == Some((l.subrange(i, i + n), i + n + 1)),
    decreases n,
{
    if n == 0 {
        assert(l.subrange(i, i) =~= Seq::<char>::empty());
    } else {
        lemma_plain_char_class(l[i]);
        lemma_basic_plain(l, i + 1, n - 1);
        assert(seq![l[i]] + l.subrange(i + 1, i + n) =~= l.subrange(i, i + n));
    }
}

/// A header line `[h]` tokenizes to exactly its three tokens and reads as
/// a header.
proof fn lemma_parse_header_line(h: Seq<char>)
    requires
        bare_key(h),
    ensures
        parse_line(render_header(h)) == Ok::<SpecLine, Seq<char>>(SpecLine::Header(h)),
{
    reveal_strlit("[");
    reveal_strlit("]");
    let l = render_header(h);
    let n = h.len() as int;
    assert(l.len() == n + 2);
    assert(l[0] == '[');
    assert(forall|k: int| 0 <= k < n ==> l[1 + k] == h[k]);
    assert(l[n + 1] == ']');
    assert(forall|k: int| 1 <= k < 1 + n ==> is_bare_char(l[k]));
    assert(forall|k: int| 1 <= k < 1 + n ==> !is_blank(l[k]) && l[k] != '#') by {
        assert forall|k: int| 1 <= k < 1 + n implies !is_blank(l[k]) && l[k] != '#' by {
            lemma_bare_char_class(l[k]);
        }
    }
    assert(skip_blank(l, 0) == 0);
    assert(tokenize(l, 0) == tok_cons_spec(Tok::LBrack, tokenize(l, 1)));
    if n > 0 {
        lemma_bare_char_class(l[1]);
        assert(skip_blank(l, 1) == 1);
    }
    lemma_bare_run(l, 1, n);
    assert(l.subrange(1, 1 + n) =~= h);
    assert(tokenize(l, 1) == tok_cons_spec(Tok::Bare(h), tokenize(l, 1 + n)));
    assert(skip_blank(l, 1 + n) == 1 + n);
    assert(tokenize(l, 1 + n) == tok_cons_spec(Tok::RBrack, tokenize(l, n + 2)));
    assert(skip_blank(l, n + 2) == n + 2);
    assert(tokenize(l, n + 2) == Ok::<Seq<Tok>, Seq<char>>(Seq::<Tok>::empty()));
    let toks = seq![Tok::LBrack, Tok::Bare(h), Tok::RBrack];
    assert(seq![Tok::LBrack] + (seq![Tok::Bare(h)] + (seq![Tok::RBrack]
        + Seq::<Tok>::empty())) =~= toks);
    assert(tokenize(l, 0) == Ok::<Seq<Tok>, Seq<char>>(toks));
    assert(parse_line_toks(toks) == Ok::<SpecLine, Seq<char>>(SpecLine::Header(h)));
}

/// A `key = "value"` line tokenizes to its three tokens and reads as that
/// pair.
proof fn lemma_parse_str_line(k: Seq<char>, v: Seq<char>)
    requires
        bare_key(k),
        plain_str(v),
    ensures
        parse_line(render_str_line(k, v)) == Ok::<SpecLine, Seq<char>>(SpecLine::KeyVal(k, SpecVal::VStr(v))),
{
    reveal_strlit(" = ");
    reveal_strlit("\"");
    let l = render_str_line(k, v);
    let n = k.len() as int;
    let m = v.len() as int;
    assert(l.len() == n + 3 + m + 2);
    assert(forall|j: int| 0 <= j < n ==> l[j] == k[j]);
    assert(l[n] == ' ' && l[n + 1] == '=' && l[n + 2] == ' ');
    assert(l[n + 3] == '"');
    assert(forall|j: int| 0 <= j < m ==> l[n + 4 + j] == v[j]);
    assert(l[n + 4 + m] == '"');
    assert(forall|j: int| 0 <= j < n ==> !is_blank(l[j]) && l[j] != '#') by {
        assert forall|j: int| 0 <= j < n implies !is_blank(l[j]) && l[j] != '#' by {
            lemma_bare_char_class(l[j]);
        }
    }
    lemma_bare_char_class(l[0]);
    assert(skip_blank(l, 0) == 0);
    lemma_bare_run(l, 0, n);
    assert(l.subrange(0, n) =~= k);
    assert(tokenize(l, 0) == tok_cons_spec(Tok::Bare(k), tokenize(l, n)));
    lemma_tokenize_skip_blank(l, n);
    assert(skip_blank(l, n + 1) == n + 1);
    assert(tokenize(l, n + 1) == tok_cons_spec(Tok::Equal, tokenize(l, n + 2)));
    lemma_tokenize_skip_blank(l, n + 2);
    assert(skip_blank(l, n + 3) == n + 3);
    lemma_basic_plain(l, n + 4, m);
    assert(l.subrange(n + 4, n + 4 + m) =~= v);
    assert(tokenize(l, n + 3) == tok_cons_spec(Tok::Quoted(v), tokenize(l, n + 5 + m)));
    assert(skip_blank(l, n + 5 + m) == n + 5 + m);
    assert(tokenize(l, n + 5 + m) == Ok::<Seq<Tok>, Seq<char>>(Seq::<Tok>::empty()));
    let toks = seq![Tok::Bare(k), Tok::Equal, Tok::Quoted(v)];
    assert(seq![Tok::Bare(k)] + (seq![Tok::Equal] + (seq![Tok::Quoted(v)]
        + Seq::<Tok>::empty())) =~= toks);
    assert(tokenize(l, 0) == Ok::<Seq<Tok>, Seq<char>>(toks));
    assert(toks.skip(2) =~= seq![Tok::Quoted(v)]);
    assert(seq![Tok::Quoted(v)].drop_first() =~= Seq::<Tok>::empty());
    assert(parse_line_toks(toks) == Ok::<SpecLine, Seq<char>>(
        SpecLine::KeyVal(k, SpecVal::VStr(v)),
    ));
}

} // verus!

use crate::parse::parse_arr_items;
use crate::parse::parse_val;
use crate::parse::elems_as_strings;

verus! {

/// The token form of a rendered array: the quoted items with commas
/// between them, then the closing bracket.
pub open spec fn arr_toks(vs: Seq<Seq<char>>) -> Seq<Tok>
    decreases vs.len(),
{
    if vs.len() == 0 {
        seq![Tok::RBrack]
    } else if vs.len() == 1 {
        seq![Tok::Quoted(vs[0]), Tok::RBrack]
    } else {
        seq![Tok::Quoted(vs[0]), Tok::Comma] + arr_toks(vs.drop_first())
    }
}

/// The rendered items of an array tokenize to exactly its token form.
proof fn lemma_toks_items(l: Seq<char>, i: int, vs: Seq<Seq<char>>)
    requires
        0 <= i <= l.len(),
        plain_list(vs),
        l.subrange(i, l.len() as int) == render_items(vs) + "]"@,
    ensures
        tokenize(l, i) == Ok::<Seq<Tok>, Seq<char>>(arr_toks(vs)),
    decreases vs.len(),
{
    reveal_strlit("]");
    reveal_strlit("\"");
    reveal_strlit(", ");
    let suf = l.subrange(i, l.len() as int);
    assert(suf.len() == l.len() - i);
    assert(forall|j: int| 0 <= j < suf.len() ==> l[i + j] == #[trigger] suf[j]);
    if vs.len() == 0 {
        assert(suf.len() == 1);
        assert(l.len() == i + 1);
        assert(l[i] == suf[0]);
        assert(l[i] == ']');
        assert(skip_blank(l, i) == i);
        assert(skip_blank(l, i + 1) == i + 1);
        assert(tokenize(l, i + 1) == Ok::<Seq<Tok>, Seq<char>>(Seq::<Tok>::empty()));
        assert(tokenize(l, i) == tok_cons_spec(Tok::RBrack, tokenize(l, i + 1)));
        assert(seq![Tok::RBrack] + Seq::<Tok>::empty() =~= arr_toks(vs));
    } else {
        let v0 = vs[0];
        let m = v0.len() as int;
        assert(plain_str(v0));
        assert(quote_str(v0).len() == m + 2);
        assert(suf[0] == '"');
        assert(l[i] == '"');
        assert(forall|k2: int| i + 1 <= k2 < i + 1 + m ==> #[trigger] l[k2] == v0[k2 - (i + 1)])
            by {
            assert forall|k2: int| i + 1 <= k2 < i + 1 + m implies l[k2] == v0[k2 - (i + 1)] by {
                let j = k2 - i;
                assert(suf[j] == v0[j - 1]);
                assert(l[i + j] == suf[j]);
            }
        }
        assert(forall|k2: int| i + 1 <= k2 < i + 1 + m ==> plain_char(#[trigger] l[k2]));
        assert(suf[1 + m] == '"');
        assert(l[i + 1 + m] == '"') by {
            assert(l[i + (1 + m)] == suf[1 + m]);
        }
        assert(skip_blank(l, i) == i);
        lemma_basic_plain(l, i + 1, m);
        assert(l.subrange(i + 1, i + 1 + m) =~= v0) by {
            assert forall|j: int| 0 <= j < m implies l.subrange(i + 1, i + 1 + m)[j] == v0[j] by {
                assert(l.subrange(i + 1, i + 1 + m)[j] == l[i + 1 + j]);
                assert(l[i + 1 + j] == v0[(i + 1 + j) - (i + 1)]);
            }
        }
        assert(tokenize(l, i) == tok_cons_spec(Tok::Quoted(v0), tokenize(l, i + 2 + m)));
        if vs.len() == 1 {
            assert(suf.len() == m + 3);
            assert(l.len() == i + m + 3);
            assert(suf[2 + m] == ']');
            assert(l[i + 2 + m] == ']') by {
                assert(l[i + (2 + m)] == suf[2 + m]);
            }
            assert(skip_blank(l, i + 2 + m) == i + 2 + m);
            assert(tokenize(l, i + 2 + m) == tok_cons_spec(Tok::RBrack, tokenize(l, i + 3 + m)));
            assert(skip_blank(l, i + 3 + m) == i + 3 + m);
            assert(tokenize(l, i + 3 + m) == Ok::<Seq<Tok>, Seq<char>>(Seq::<Tok>::empty()));
            assert(seq![Tok::Quoted(v0)] + (seq![Tok::RBrack] + Seq::<Tok>::empty())
                =~= arr_toks(vs));
        } else {
            let rest = vs.drop_first();
            let body = render_items(rest);
            assert(render_items(vs) == quote_str(v0) + ", "@ + body);
            assert(render_items(vs).len() == m + 4 + body.len());
            assert(suf.len() == m + 5 + body.len());
            assert(suf[2 + m] == ',');
            assert(suf[3 + m] == ' ');
            assert(l[i + 2 + m] == ',') by {
                assert(l[i + (2 + m)] == suf[2 + m]);
            }
            assert(l[i + 3 + m] == ' ') by {
                assert(l[i + (3 + m)] == suf[3 + m]);
            }
            assert(skip_blank(l, i + 2 + m) == i + 2 + m);
            assert(tokenize(l, i + 2 + m) == tok_cons_spec(Tok::Comma, tokenize(l, i + 3 + m)));
            lemma_tokenize_skip_blank(l, i + 3 + m);
            assert(l.subrange(i + 4 + m, l.len() as int) =~= body + "]"@) by {
                assert(l.len() - (i + 4 + m) == body.len() + 1);
                assert forall|j: int| 0 <= j < body.len() + 1 implies l.subrange(
                    i + 4 + m,
                    l.len() as int,
                )[j] == (body + "]"@)[j] by {
                    assert(l.subrange(i + 4 + m, l.len() as int)[j] == l[i + 4 + m + j]);
                    assert(l[i + (4 + m + j)] == suf[4 + m + j]);
                    assert(suf[4 + m + j] == (body + "]"@)[j]);
                }
            }
            assert(plain_list(rest)) by {
                assert forall|j: int| 0 <= j < rest.len() implies plain_str(#[trigger] rest[j])
                    by {
                    assert(rest[j] == vs[j + 1]);
                }
            }
            lemma_toks_items(l, i + 4 + m, rest);
            assert(seq![Tok::Quoted(v0)] + (seq![Tok::Comma] + arr_toks(rest)) =~= arr_toks(vs));
        }
    }
}

/// A `key = [ ... ]` line tokenizes to its key, the equals sign, and the
/// array tokens, and reads as that key/value pair.
proof fn lemma_parse_list_line(k: Seq<char>, vs: Seq<Seq<char>>)
    requires
        bare_key(k),
        plain_list(vs),
    ensures
        parse_line(render_task_line(k, vs)) == Ok::<SpecLine, Seq<char>>(
            SpecLine::KeyVal(k, SpecVal::VArr(estr_elems(vs))),
        ),
{
    reveal_strlit(" = ");
    reveal_strlit("[");
    reveal_strlit("]");
    let l = render_task_line(k, vs);
    let n = k.len() as int;
    let body = render_items(vs);
    assert(l == (k + " = "@) + ("["@ + body + "]"@));
    assert(l.len() == n + 4 + body.len() + 1);
    assert(forall|j: int| 0 <= j < n ==> l[j] == k[j]);
    assert(l[n] == ' ' && l[n + 1] == '=' && l[n + 2] == ' ');
    assert(l[n + 3] == '[');
    assert(forall|j: int| 0 <= j < n ==> !is_blank(l[j]) && l[j] != '#') by {
        assert forall|j: int| 0 <= j < n implies !is_blank(l[j]) && l[j] != '#' by {
            lemma_bare_char_class(l[j]);
        }
    }
    lemma_bare_char_class(l[0]);
    assert(skip_blank(l, 0) == 0);
    lemma_bare_run(l, 0, n);
    assert(l.subrange(0, n) =~= k);
    assert(tokenize(l, 0) == tok_cons_spec(Tok::Bare(k), tokenize(l, n)));
    lemma_tokenize_skip_blank(l, n);
    assert(skip_blank(l, n + 1) == n + 1);
    assert(tokenize(l, n + 1) == tok_cons_spec(Tok::Equal, tokenize(l, n + 2)));
    lemma_tokenize_skip_blank(l, n + 2);
    assert(skip_blank(l, n + 3) == n + 3);
    assert(tokenize(l, n + 3) == tok_cons_spec(Tok::LBrack, tokenize(l, n + 4)));
    assert(l.subrange(n + 4, l.len() as int) =~= body + "]"@);
    lemma_toks_items(l, n + 4, vs);
    let toks = seq![Tok::Bare(k), Tok::Equal, Tok::LBrack] + arr_toks(vs);
    assert(seq![Tok::Bare(k)] + (seq![Tok::Equal] + (seq![Tok::LBrack] + arr_toks(vs)))
        =~= toks);
    assert(tokenize(l, 0) == Ok::<Seq<Tok>, Seq<char>>(toks));
    // The tokens read back as the pair.
    assert(toks[0] is Bare && toks[1] is Equal);
    assert(toks.skip(2) =~= seq![Tok::LBrack] + arr_toks(vs));
    assert((seq![Tok::LBrack] + arr_toks(vs)).drop_first() =~= arr_toks(vs));
    lemma_arr_items_toks(vs);
    assert(parse_val(toks.skip(2)) == Ok::<(SpecVal, Seq<Tok>), Seq<char>>(
        (SpecVal::VArr(estr_elems(vs)), Seq::<Tok>::empty()),
    ));
    assert(parse_line_toks(toks) == Ok::<SpecLine, Seq<char>>(
        SpecLine::KeyVal(k, SpecVal::VArr(estr_elems(vs))),
    ));
}

/// The elements of a rendered array, as the parser's element values.
pub open spec fn estr_elems(vs: Seq<Seq<char>>) -> Seq<SpecElem> {
    vs.map_values(|v: Seq<char>| SpecElem::EStr(v))
}

/// The token form of an array parses to exactly its string elements, with
/// no tokens left.
proof fn lemma_arr_items_toks(vs: Seq<Seq<char>>)
    ensures
        parse_arr_items(arr_toks(vs)) == Ok::<(Seq<SpecElem>, Seq<Tok>), Seq<char>>(
            (estr_elems(vs), Seq::<Tok>::empty()),
        ),
    decreases vs.len(),
{
    let toks = arr_toks(vs);
    if vs.len() == 0 {
        assert(toks[0] is RBrack);
        assert(toks.drop_first() =~= Seq::<Tok>::empty());
        assert(estr_elems(vs) =~= Seq::<SpecElem>::empty());
    } else if vs.len() == 1 {
        assert(toks[0] == Tok::Quoted(vs[0]));
        assert(toks.drop_first() =~= seq![Tok::RBrack]);
        assert(seq![Tok::RBrack].drop_first() =~= Seq::<Tok>::empty());
        assert(seq![SpecElem::EStr(vs[0])] =~= estr_elems(vs));
    } else {
        let rest = vs.drop_first();
        assert(toks[0] == Tok::Quoted(vs[0]));
        assert(toks.drop_first() =~= seq![Tok::Comma] + arr_toks(rest));
        assert((seq![Tok::Comma] + arr_toks(rest))[0] is Comma);
        assert((seq![Tok::Comma] + arr_toks(rest)).drop_first() =~= arr_toks(rest));
        lemma_arr_items_toks(rest);
        assert(seq![SpecElem::EStr(vs[0])] + estr_elems(rest) =~= estr_elems(vs));
    }
}

/// An all-string element list yields exactly its strings.
proof fn lemma_estr_as_strings(vs: Seq<Seq<char>>)
    ensures
        elems_as_strings(estr_elems(vs)) == Ok::<Seq<Seq<char>>, Seq<char>>(vs),
    decreases vs.len(),
{
    if vs.len() > 0 {
        assert(estr_elems(vs)[0] == SpecElem::EStr(vs[0]));
        assert(estr_elems(vs).len() == vs.len());
        assert(estr_elems(vs).drop_first() =~= estr_elems(vs.drop_first()));
        lemma_estr_as_strings(vs.drop_first());
        assert(seq![vs[0]] + vs.drop_first() =~= vs);
    } else {
        assert(estr_elems(vs).len() == 0);
        assert(vs =~= Seq::<Seq<char>>::empty());
        assert(estr_elems(vs) =~= Seq::<SpecElem>::empty());
    }
}

} // verus!

use crate::parse::finalize_state;
use crate::parse::init_state;
use crate::parse::parse_doc;
use crate::parse::run_lines;
use crate::parse::step_line;
use crate::parse::task_defined;
use crate::render::eight_lines;
use crate::render::join_nl;
use crate::render::render_lines;
use crate::render::render_task_lines;
use crate::render::renderable;
use crate::render::spec_render;

verus! {

proof fn lemma_no_nl_concat(a: Seq<char>, b: Seq<char>)
    requires
        no_nl(a),
        no_nl(b),
    ensures
        no_nl(a + b),
{
    assert forall|k: int| 0 <= k < (a + b).len() implies (a + b)[k] != '\n' by {
        if k < a.len() {
            assert((a + b)[k] == a[k]);
        } else {
            assert((a + b)[k] == b[k - a.len()]);
        }
    }
}

proof fn lemma_no_nl_bare(k: Seq<char>)
    requires
        forall|j: int| 0 <= j < k.len() ==> is_bare_char(k[j]),
    ensures
        no_nl(k),
{
    assert forall|j: int| 0 <= j < k.len() implies k[j] != '\n' by {
        lemma_bare_char_class(k[j]);
    }
}

proof fn lemma_no_nl_lit_quote()
    ensures
        no_nl("\""@),
        no_nl(", "@),
        no_nl("["@),
        no_nl("]"@),
        no_nl(" = "@),
{
    reveal_strlit("\"");
    reveal_strlit(", ");
    reveal_strlit("[");
    reveal_strlit("]");
    reveal_strlit(" = ");
}

proof fn lemma_no_nl_items(vs: Seq<Seq<char>>)
    requires
        plain_list(vs),
    ensures
        no_nl(render_items(vs)),
    decreases vs.len(),
{
    lemma_no_nl_lit_quote();
    if vs.len() == 0 {
    } else {
        assert(plain_str(vs[0]));
        assert(no_nl(vs[0]));
        lemma_no_nl_concat("\""@, vs[0]);
        lemma_no_nl_concat("\""@ + vs[0], "\""@);
        if vs.len() > 1 {
            lemma_no_nl_concat(quote_str(vs[0]), ", "@);
            let rest = vs.drop_first();
            assert(plain_list(rest)) by {
                assert forall|j: int| 0 <= j < rest.len() implies plain_str(#[trigger] rest[j])
                    by {
                    assert(rest[j] == vs[j + 1]);
                }
            }
            lemma_no_nl_items(rest);
            lemma_no_nl_concat(quote_str(vs[0]) + ", "@, render_items(rest));
        }
    }
}

proof fn lemma_no_nl_task_line(k: Seq<char>, vs: Seq<Seq<char>>)
    requires
        bare_key(k),
        plain_list(vs),
    ensures
        no_nl(render_task_line(k, vs)),
{
    lemma_no_nl_lit_quote();
    lemma_no_nl_bare(k);
    lemma_no_nl_items(vs);
    lemma_no_nl_concat("["@, render_items(vs));
    lemma_no_nl_concat("["@ + render_items(vs), "]"@);
    lemma_no_nl_concat(k, " = "@);
    lemma_no_nl_concat(k + " = "@, render_list(vs));
}

proof fn lemma_no_nl_str_line(k: Seq<char>, v: Seq<char>)
    requires
        bare_key(k),
        plain_str(v),
    ensures
        no_nl(render_str_line(k, v)),
{
    lemma_no_nl_lit_quote();
    lemma_no_nl_bare(k);
    assert(no_nl(v));
    lemma_no_nl_concat("\""@, v);
    lemma_no_nl_concat("\""@ + v, "\""@);
    lemma_no_nl_concat(k, " = "@);
    lemma_no_nl_concat(k + " = "@, quote_str(v));
}

proof fn lemma_no_nl_header(h: Seq<char>)
    requires
        bare_key(h),
    ensures
        no_nl(render_header(h)),
{
    lemma_no_nl_lit_quote();
    lemma_no_nl_bare(h);
    lemma_no_nl_concat("["@, h);
    lemma_no_nl_concat("["@ + h, "]"@);
}

/// The six fixed words of the grammar are bare keys, and distinct where
/// the reader compares them.
proof fn lemma_key_words()
    ensures
        bare_key("project"@),
        bare_key("check"@),
        bare_key("tasks"@),
        bare_key("name"@),
        bare_key("linters"@),
        bare_key("testers"@),
        "check"@ != "project"@,
        "tasks"@ != "project"@,
        "tasks"@ != "check"@,
        "testers"@ != "linters"@,
{
    reveal_strlit("project");
    reveal_strlit("check");
    reveal_strlit("tasks");
    reveal_strlit("name");
    reveal_strlit("linters");
    reveal_strlit("testers");
    assert("project"@ =~= seq!['p', 'r', 'o', 'j', 'e', 'c', 't']);
    assert("check"@ =~= seq!['c', 'h', 'e', 'c', 'k']);
    assert("tasks"@ =~= seq!['t', 'a', 's', 'k', 's']);
    assert("name"@ =~= seq!['n', 'a', 'm', 'e']);
    assert("linters"@ =~= seq!['l', 'i', 'n', 't', 'e', 'r', 's']);
    assert("testers"@ =~= seq!['t', 'e', 's', 't', 'e', 'r', 's']);
    assert("tasks"@[0] != "check"@[0]);
    assert("testers"@[0] != "linters"@[0]);
}

/// Reading the rendered task lines from the tasks section extends the
/// accumulated table with exactly those tasks, in order.
proof fn lemma_fold_tasks(st: SpecState, ts: Seq<(Seq<char>, Seq<Seq<char>>)>)
    requires
        st.section == Section::Tasks,
        forall|i: int| 0 <= i < ts.len() ==> bare_key(#[trigger] ts[i].0),
        forall|i: int| 0 <= i < ts.len() ==> plain_list(#[trigger] ts[i].1),
        forall|i: int| 0 <= i < ts.len() ==> !task_defined(st.tasks, #[trigger] ts[i].0),
        forall|i: int, j: int| 0 <= i < j < ts.len() ==> ts[i].0 != ts[j].0,
    ensures
        run_lines(render_task_lines(ts), st) == Ok::<SpecState, Seq<char>>(
            (SpecState { tasks: st.tasks + ts, ..st }),
        ),
    decreases ts.len(),
{
    if ts.len() == 0 {
        assert(st.tasks + ts =~= st.tasks);
        assert((SpecState { tasks: st.tasks + ts, ..st }) == st);
    } else {
        let k0 = ts[0].0;
        let cmds0 = ts[0].1;
        lemma_parse_list_line(k0, cmds0);
        lemma_estr_as_strings(cmds0);
        assert(!task_defined(st.tasks, k0));
        let st2 = SpecState { tasks: st.tasks.push((k0, cmds0)), ..st };
        assert(step_line(st, SpecLine::KeyVal(k0, SpecVal::VArr(estr_elems(cmds0)))) == Ok::<
            SpecState,
            Seq<char>,
        >(st2));
        let rest = ts.drop_first();
        assert(forall|i: int| 0 <= i < rest.len() ==> rest[i] == ts[i + 1]);
        assert(forall|i: int| 0 <= i < rest.len() ==> !task_defined(
            st2.tasks,
            #[trigger] rest[i].0,
        )) by {
            assert forall|i: int| 0 <= i < rest.len() implies !task_defined(
                st2.tasks,
                rest[i].0,
            ) by {
                if task_defined(st2.tasks, rest[i].0) {
                    let w = choose|w: int|
                        0 <= w < st2.tasks.len() && st2.tasks[w].0 == rest[i].0;
                    if w < st.tasks.len() {
                        assert(st2.tasks[w] == st.tasks[w]);
                        assert(task_defined(st.tasks, ts[i + 1].0));
                        assert(false);
                    } else {
                        assert(st2.tasks[w] == (k0, cmds0));
                        assert(ts[0].0 == ts[i + 1].0);
                        assert(false);
                    }
                }
            }
        }
        lemma_fold_tasks(st2, rest);
        assert(render_task_lines(ts).drop_first() =~= render_task_lines(rest));
        assert(run_lines(render_task_lines(ts), st) == run_lines(render_task_lines(rest), st2));
        assert(st2.tasks + rest =~= st.tasks + ts);
        assert((SpecState { tasks: st2.tasks + rest, ..st2 }) == (SpecState {
            tasks: st.tasks + ts,
            ..st
        }));
    }
}

/// The round trip: parsing what the renderer wrote yields the
/// configuration back — the same name, the same command lists, and the
/// same tasks in the same order.
pub proof fn lemma_config_round_trip(c: SpecConfig)
    requires
        renderable(c),
    ensures
        parse_doc(spec_render(c)) == Ok::<SpecConfig, Seq<char>>(c),
{
    lemma_key_words();
    let lines = render_lines(c);
    let eight = eight_lines(c);
    assert(lines =~= eight + render_task_lines(c.tasks));

    // Every rendered line is newline-free, so the joined text splits back
    // into exactly these lines.
    assert(forall|i: int| 0 <= i < lines.len() ==> no_nl(#[trigger] lines[i])) by {
        lemma_no_nl_header("project"@);
        lemma_no_nl_header("check"@);
        lemma_no_nl_header("tasks"@);
        lemma_no_nl_str_line("name"@, c.name);
        lemma_no_nl_task_line("linters"@, c.linters);
        lemma_no_nl_task_line("testers"@, c.testers);
        lemma_render_task_lines_len(c.tasks);
        assert forall|i: int| 0 <= i < lines.len() implies no_nl(#[trigger] lines[i]) by {
            if i >= 8 {
                lemma_task_lines_no_nl(c.tasks, i - 8);
            }
        }
    }
    lemma_split_join(lines);
    assert(split_lines(spec_render(c)) == lines);

    // Walk the eight fixed lines.
    lemma_parse_header_line("project"@);
    lemma_parse_str_line("name"@, c.name);
    lemma_parse_header_line("check"@);
    lemma_parse_list_line("linters"@, c.linters);
    lemma_estr_as_strings(c.linters);
    lemma_parse_list_line("testers"@, c.testers);
    lemma_estr_as_strings(c.testers);
    lemma_parse_header_line("tasks"@);
    assert(parse_line(Seq::<char>::empty()) == Ok::<SpecLine, Seq<char>>(SpecLine::Blank));

    let st0 = init_state();
    let st1 = SpecState { section: Section::Project, seen_project: true, ..st0 };
    let st2 = SpecState { name: Some(c.name), ..st1 };
    let st3 = SpecState { section: Section::Check, seen_check: true, ..st2 };
    let st4 = SpecState { linters: Some(c.linters), ..st3 };
    let st5 = SpecState { testers: Some(c.testers), ..st4 };
    let st6 = SpecState { section: Section::Tasks, seen_tasks: true, ..st5 };

    assert(lines[0] == render_header("project"@));
    assert(lines[1] == render_str_line("name"@, c.name));
    assert(lines[2] == Seq::<char>::empty());
    assert(lines[3] == render_header("check"@));
    assert(lines[4] == render_task_line("linters"@, c.linters));
    assert(lines[5] == render_task_line("testers"@, c.testers));
    assert(lines[6] == Seq::<char>::empty());
    assert(lines[7] == render_header("tasks"@));

    assert(lines.skip(0) =~= lines);
    assert(lines.skip(0).drop_first() =~= lines.skip(1));
    assert(lines.skip(1).drop_first() =~= lines.skip(2));
    assert(lines.skip(2).drop_first() =~= lines.skip(3));
    assert(lines.skip(3).drop_first() =~= lines.skip(4));
    assert(lines.skip(4).drop_first() =~= lines.skip(5));
    assert(lines.skip(5).drop_first() =~= lines.skip(6));
    assert(lines.skip(6).drop_first() =~= lines.skip(7));
    assert(lines.skip(7).drop_first() =~= lines.skip(8));
    assert(lines.skip(8) =~= render_task_lines(c.tasks));

    assert(forall|k: int| 0 <= k < 8 ==> #[trigger] lines.skip(k)[0] == lines[k]);
    assert(run_lines(lines.skip(0), st0) == run_lines(lines.skip(1), st1));
    assert(run_lines(lines.skip(1), st1) == run_lines(lines.skip(2), st2));
    assert(run_lines(lines.skip(2), st2) == run_lines(lines.skip(3), st2));
    assert(run_lines(lines.skip(3), st2) == run_lines(lines.skip(4), st3));
    assert(run_lines(lines.skip(4), st3) == run_lines(lines.skip(5), st4));
    assert(run_lines(lines.skip(5), st4) == run_lines(lines.skip(6), st5));
    assert(run_lines(lines.skip(6), st5) == run_lines(lines.skip(7), st5));
    assert(run_lines(lines.skip(7), st5) == run_lines(lines.skip(8), st6));

    // The task lines extend the (empty) table with exactly the tasks.
    assert(forall|i: int| 0 <= i < c.tasks.len() ==> !task_defined(
        st6.tasks,
        #[trigger] c.tasks[i].0,
    ));
    lemma_fold_tasks(st6, c.tasks);
    let stf = SpecState { tasks: st6.tasks + c.tasks, ..st6 };
    assert(run_lines(lines.skip(8), st6) == Ok::<SpecState, Seq<char>>(stf));
    assert(stf.tasks =~= c.tasks);

    // The final checks pass: the project table was seen and the name is
    // non-empty.
    assert(finalize_state(stf) == Ok::<SpecConfig, Seq<char>>(
        (SpecConfig { name: c.name, linters: c.linters, testers: c.testers, tasks: stf.tasks }),
    ));
    assert((SpecConfig {
        name: c.name,
        linters: c.linters,
        testers: c.testers,
        tasks: stf.tasks,
    }) == c);
}

/// One task yields one line.
proof fn lemma_render_task_lines_len(ts: Seq<(Seq<char>, Seq<Seq<char>>)>)
    ensures
        render_task_lines(ts).len() == ts.len(),
    decreases ts.len(),
{
    if ts.len() > 0 {
        lemma_render_task_lines_len(ts.drop_first());
    }
}

/// Every rendered task line is newline-free.
proof fn lemma_task_lines_no_nl(ts: Seq<(Seq<char>, Seq<Seq<char>>)>, i: int)
    requires
        forall|j: int| 0 <= j < ts.len() ==> bare_key(#[trigger] ts[j].0),
        forall|j: int| 0 <= j < ts.len() ==> plain_list(#[trigger] ts[j].1),
        0 <= i < ts.len(),
    ensures
        no_nl(render_task_lines(ts)[i]),
    decreases i,
{
    lemma_render_task_lines_len(ts);
    if i == 0 {
        lemma_no_nl_task_line(ts[0].0, ts[0].1);
        assert(render_task_lines(ts)[0] == render_task_line(ts[0].0, ts[0].1));
    } else {
        let rest = ts.drop_first();
        assert(forall|j: int| 0 <= j < rest.len() ==> rest[j] == ts[j + 1]);
        lemma_render_task_lines_len(rest);
        lemma_task_lines_no_nl(rest, i - 1);
        assert(render_task_lines(ts)[i] == render_task_lines(rest)[i - 1]);
    }
}

} // verus!
