//! The configuration parser: a line-oriented reader for the marker file's
//! TOML-like grammar.
//!
//! The grammar covers what the marker file uses: `[table]` headers, `key =
//! value` pairs whose values are basic (`"…"`, with backslash escapes) or
//! literal (`'…'`) strings, single-line arrays of such scalars, `#` comments,
//! and blank lines. Unknown tables and keys parse and are ignored; a value of
//! the wrong type, a duplicate key, or a malformed line is an error whose
//! message names the offence.
//!
//! The whole grammar is specified twice over: once as specification
//! functions over `Seq<char>` (the meaning), and once as executable
//! functions proved to return exactly what the specification says.

use vstd::prelude::*;

use crate::text::string_of;
use crate::text::sub_vec;

verus! {

// ===== characters =====

/// Blank within a line: space, horizontal tab, or a carriage return (so that
/// files with CRLF line endings read the same as LF ones).
pub open spec fn is_blank(c: char) -> bool {
    c == ' ' || c == '\t' || c == '\r'
}

pub fn blank_char(c: char) -> (r: bool)
    ensures
        r == is_blank(c),
{
    c == ' ' || c == '\t' || c == '\r'
}

/// The characters a bare (unquoted) token may consist of: ASCII letters and
/// digits, `-`, `_`, `+` and `.`. Bare tokens serve both as keys and as
/// unquoted scalars such as `120` or `true`.
pub open spec fn is_bare_char(c: char) -> bool {
    ('a' as u32 <= c as u32 && c as u32 <= 'z' as u32) || ('A' as u32 <= c as u32 && c as u32
        <= 'Z' as u32) || ('0' as u32 <= c as u32 && c as u32 <= '9' as u32) || c == '-' || c == '_'
        || c == '+' || c == '.'
}

pub fn bare_char(c: char) -> (r: bool)
    ensures
        r == is_bare_char(c),
{
    ('a' as u32 <= c as u32 && c as u32 <= 'z' as u32) || ('A' as u32 <= c as u32 && c as u32
        <= 'Z' as u32) || ('0' as u32 <= c as u32 && c as u32 <= '9' as u32) || c == '-' || c == '_'
        || c == '+' || c == '.'
}

pub open spec fn is_digit(c: char) -> bool {
    '0' as u32 <= c as u32 && c as u32 <= '9' as u32
}

/// What a backslash escape inside a basic string stands for, if it is one of
/// the recognized escapes.
pub open spec fn unescape(c: char) -> Option<char> {
    if c == '\\' {
        Some('\\')
    } else if c == '"' {
        Some('"')
    } else if c == 'n' {
        Some('\n')
    } else if c == 't' {
        Some('\t')
    } else if c == 'r' {
        Some('\r')
    } else {
        None
    }
}

pub fn unescape_char(c: char) -> (r: Option<char>)
    ensures
        r == unescape(c),
{
    if c == '\\' {
        Some('\\')
    } else if c == '"' {
        Some('"')
    } else if c == 'n' {
        Some('\n')
    } else if c == 't' {
        Some('\t')
    } else if c == 'r' {
        Some('\r')
    } else {
        None
    }
}

// ===== scanning =====

/// The first position at or after `i` that is not blank.
pub open spec fn skip_blank(l: Seq<char>, i: int) -> int
    decreases l.len() - i,
    when 0 <= i <= l.len()
{
    if i < l.len() && is_blank(l[i]) {
        skip_blank(l, i + 1)
    } else {
        i
    }
}

pub proof fn lemma_skip_blank_bounds(l: Seq<char>, i: int)
    requires
        0 <= i <= l.len(),
    ensures
        i <= skip_blank(l, i) <= l.len(),
        skip_blank(l, i) < l.len() ==> !is_blank(l[skip_blank(l, i)]),
    decreases l.len() - i,
{
    if i < l.len() && is_blank(l[i]) {
        lemma_skip_blank_bounds(l, i + 1);
    }
}

pub fn skip_blank_x(l: &Vec<char>, i: usize) -> (r: usize)
    requires
        i <= l@.len(),
    ensures
        r == skip_blank(l@, i as int),
        i <= r <= l@.len(),
{
    let mut j = i;
    while j < l.len() && blank_char(l[j])
        invariant
            i <= j <= l@.len(),
            skip_blank(l@, i as int) == skip_blank(l@, j as int),
        decreases l@.len() - j,
    {
        j = j + 1;
    }
    proof {
        lemma_skip_blank_bounds(l@, i as int);
    }
    j
}

/// The first position at or after `i` whose character is not a bare-token
/// character.
pub open spec fn bare_end(l: Seq<char>, i: int) -> int
    decreases l.len() - i,
    when 0 <= i <= l.len()
{
    if i < l.len() && is_bare_char(l[i]) {
        bare_end(l, i + 1)
    } else {
        i
    }
}

pub proof fn lemma_bare_end_bounds(l: Seq<char>, i: int)
    requires
        0 <= i <= l.len(),
    ensures
        i <= bare_end(l, i) <= l.len(),
        i < l.len() && is_bare_char(l[i]) ==> bare_end(l, i) > i,
    decreases l.len() - i,
{
    if i < l.len() && is_bare_char(l[i]) {
        lemma_bare_end_bounds(l, i + 1);
    }
}

pub fn bare_end_x(l: &Vec<char>, i: usize) -> (r: usize)
    requires
        i <= l@.len(),
    ensures
        r == bare_end(l@, i as int),
        i <= r <= l@.len(),
{
    let mut j = i;
    while j < l.len() && bare_char(l[j])
        invariant
            i <= j <= l@.len(),
            bare_end(l@, i as int) == bare_end(l@, j as int),
        decreases l@.len() - j,
    {
        j = j + 1;
    }
    proof {
        lemma_bare_end_bounds(l@, i as int);
    }
    j
}

// ===== string bodies =====

/// The content of a basic string starting just after its opening quote:
/// the unescaped characters, and the position just after the closing quote.
/// `None` when the string never closes or uses an unknown escape.
pub open spec fn basic_body(l: Seq<char>, i: int) -> Option<(Seq<char>, int)>
    decreases l.len() - i,
    when 0 <= i <= l.len()
{
    if i >= l.len() {
        None
    } else if l[i] == '"' {
        Some((Seq::<char>::empty(), i + 1))
    } else if l[i] == '\\' {
        if i + 1 < l.len() {
            match unescape(l[i + 1]) {
                Some(c) => match basic_body(l, i + 2) {
                    Some((s, j)) => Some((seq![c] + s, j)),
                    None => None,
                },
                None => None,
            }
        } else {
            None
        }
    } else {
        match basic_body(l, i + 1) {
            Some((s, j)) => Some((seq![l[i]] + s, j)),
            None => None,
        }
    }
}

pub proof fn lemma_basic_body_bounds(l: Seq<char>, i: int)
    requires
        0 <= i <= l.len(),
    ensures
        match basic_body(l, i) {
            Some((s, j)) => i < j <= l.len(),
            None => true,
        },
    decreases l.len() - i,
{
    if i < l.len() && l[i] != '"' {
        if l[i] == '\\' {
            if i + 1 < l.len() {
                lemma_basic_body_bounds(l, i + 2);
            }
        } else {
            lemma_basic_body_bounds(l, i + 1);
        }
    }
}

pub fn basic_body_x(l: &Vec<char>, i: usize) -> (r: Option<(Vec<char>, usize)>)
    requires
        i <= l@.len(),
    ensures
        match r {
            Some(p) => basic_body(l@, i as int) == Some((p.0@, p.1 as int)) && i < p.1 <= l@.len(),
            None => basic_body(l@, i as int) is None,
        },
    decreases l@.len() - i,
{
    proof {
        lemma_basic_body_bounds(l@, i as int);
    }
    if i >= l.len() {
        None
    } else if l[i] == '"' {
        Some((Vec::new(), i + 1))
    } else if l[i] == '\\' {
        if i + 1 < l.len() {
            match unescape_char(l[i + 1]) {
                Some(c) => match basic_body_x(l, i + 2) {
                    Some((mut s, j)) => {
                        let ghost pre = s@;
                        s.insert(0, c);
                        assert(s@ =~= seq![c] + pre);
                        Some((s, j))
                    },
                    None => None,
                },
                None => None,
            }
        } else {
            None
        }
    } else {
        let c = l[i];
        match basic_body_x(l, i + 1) {
            Some((mut s, j)) => {
                let ghost pre = s@;
                s.insert(0, c);
                assert(s@ =~= seq![c] + pre);
                Some((s, j))
            },
            None => None,
        }
    }
}

/// The content of a literal string starting just after its opening quote:
/// the characters up to the closing quote, taken verbatim.
pub open spec fn literal_body(l: Seq<char>, i: int) -> Option<(Seq<char>, int)>
    decreases l.len() - i,
    when 0 <= i <= l.len()
{
    if i >= l.len() {
        None
    } else if l[i] == '\'' {
        Some((Seq::<char>::empty(), i + 1))
    } else {
        match literal_body(l, i + 1) {
            Some((s, j)) => Some((seq![l[i]] + s, j)),
            None => None,
        }
    }
}

pub proof fn lemma_literal_body_bounds(l: Seq<char>, i: int)
    requires
        0 <= i <= l.len(),
    ensures
        match literal_body(l, i) {
            Some((s, j)) => i < j <= l.len(),
            None => true,
        },
    decreases l.len() - i,
{
    if i < l.len() && l[i] != '\'' {
        lemma_literal_body_bounds(l, i + 1);
    }
}

pub fn literal_body_x(l: &Vec<char>, i: usize) -> (r: Option<(Vec<char>, usize)>)
    requires
        i <= l@.len(),
    ensures
        match r {
            Some(p) => literal_body(l@, i as int) == Some((p.0@, p.1 as int)) && i < p.1
                <= l@.len(),
            None => literal_body(l@, i as int) is None,
        },
    decreases l@.len() - i,
{
    proof {
        lemma_literal_body_bounds(l@, i as int);
    }
    if i >= l.len() {
        None
    } else if l[i] == '\'' {
        Some((Vec::new(), i + 1))
    } else {
        let c = l[i];
        match literal_body_x(l, i + 1) {
            Some((mut s, j)) => {
                let ghost pre = s@;
                s.insert(0, c);
                assert(s@ =~= seq![c] + pre);
                Some((s, j))
            },
            None => None,
        }
    }
}

} // verus!

use crate::text::vec_str_eq;

verus! {

// ===== tokens =====

/// A token of a configuration line, at the specification level.
pub enum Tok {
    LBrack,
    RBrack,
    Equal,
    Comma,
    /// A run of bare-token characters: a key or an unquoted scalar.
    Bare(Seq<char>),
    /// A quoted string of either kind, holding its (unescaped) content.
    Quoted(Seq<char>),
}

/// A token of a configuration line, as the executable tokenizer produces it.
pub enum ETok {
    LBrack,
    RBrack,
    Equal,
    Comma,
    Bare(Vec<char>),
    Quoted(Vec<char>),
}

impl View for ETok {
    type V = Tok;

    open spec fn view(&self) -> Tok {
        match self {
            ETok::LBrack => Tok::LBrack,
            ETok::RBrack => Tok::RBrack,
            ETok::Equal => Tok::Equal,
            ETok::Comma => Tok::Comma,
            ETok::Bare(v) => Tok::Bare(v@),
            ETok::Quoted(v) => Tok::Quoted(v@),
        }
    }
}

pub open spec fn toks_view(ts: Seq<ETok>) -> Seq<Tok> {
    ts.map_values(|t: ETok| t@)
}

pub proof fn lemma_toks_view_cons(ts: Seq<ETok>, t: ETok)
    ensures
        toks_view(ts.insert(0, t)) =~= seq![t@] + toks_view(ts),
{
    assert forall|k: int| 0 <= k < ts.insert(0, t).len() implies toks_view(ts.insert(0, t))[k] == (
    seq![t@] + toks_view(ts))[k] by {
        if k > 0 {
            assert(ts.insert(0, t)[k] == ts[k - 1]);
        }
    }
}

pub proof fn lemma_toks_view_skip(ts: Seq<ETok>, n: int)
    requires
        0 <= n <= ts.len(),
    ensures
        toks_view(ts.skip(n)) =~= toks_view(ts).skip(n),
{
}

// ===== bare-token classification =====

pub open spec fn all_digits_from(t: Seq<char>, i: int) -> bool {
    forall|k: int| i <= k < t.len() ==> is_digit(t[k])
}

/// An optionally signed, non-empty run of ASCII digits.
pub open spec fn is_integer_token(t: Seq<char>) -> bool {
    t.len() > 0 && (all_digits_from(t, 0) || ((t[0] == '-' || t[0] == '+') && t.len() > 1
        && all_digits_from(t, 1)))
}

/// How an unquoted scalar is described in a type-mismatch message.
pub open spec fn classify_bare(t: Seq<char>) -> Seq<char> {
    if is_integer_token(t) {
        "integer"@
    } else if t == "true"@ || t == "false"@ {
        "boolean"@
    } else {
        "value"@
    }
}

pub fn digit_char(c: char) -> (r: bool)
    ensures
        r == is_digit(c),
{
    '0' as u32 <= c as u32 && c as u32 <= '9' as u32
}

pub fn is_integer_x(t: &Vec<char>) -> (r: bool)
    ensures
        r == is_integer_token(t@),
{
    if t.len() == 0 {
        return false;
    }
    let signed = t[0] == '-' || t[0] == '+';
    let start: usize = if signed {
        1
    } else {
        0
    };
    if signed && t.len() == 1 {
        return false;
    }
    let mut i: usize = start;
    while i < t.len()
        invariant
            start <= i <= t@.len(),
            t@.len() > 0,
            signed == (t@[0] == '-' || t@[0] == '+'),
            start == (if signed {
                1int
            } else {
                0int
            }),
            start <= t@.len(),
            forall|k: int| start <= k < i ==> is_digit(t@[k]),
        decreases t@.len() - i,
    {
        if !digit_char(t[i]) {
            assert(!is_digit(t@[i as int]));
            assert(!all_digits_from(t@, start as int));
            if signed {
                assert(!is_digit(t@[0]));
                assert(!all_digits_from(t@, 0));
            }
            return false;
        }
        i = i + 1;
    }
    assert(all_digits_from(t@, start as int));
    assert(signed ==> t@.len() > 1);
    true
}

pub fn classify_x(t: &Vec<char>) -> (r: String)
    ensures
        r@ == classify_bare(t@),
{
    if is_integer_x(t) {
        String::from_str("integer")
    } else if vec_str_eq(t, "true") || vec_str_eq(t, "false") {
        String::from_str("boolean")
    } else {
        String::from_str("value")
    }
}

// ===== the tokenizer =====

pub open spec fn tok_cons_spec(t: Tok, r: Result<Seq<Tok>, Seq<char>>) -> Result<
    Seq<Tok>,
    Seq<char>,
> {
    match r {
        Ok(ts) => Ok(seq![t] + ts),
        Err(e) => Err(e),
    }
}

/// The tokens of one configuration line from position `i` on, or the parse
/// failure the line holds.
pub open spec fn tokenize(l: Seq<char>, i: int) -> Result<Seq<Tok>, Seq<char>>
    decreases l.len() - i,
    when 0 <= i <= l.len()
{
    proof {
        lemma_skip_blank_bounds(l, i);
    }
    let j = skip_blank(l, i);
    if j >= l.len() {
        Ok(Seq::<Tok>::empty())
    } else if l[j] == '#' {
        Ok(Seq::<Tok>::empty())
    } else if l[j] == '[' {
        tok_cons_spec(Tok::LBrack, tokenize(l, j + 1))
    } else if l[j] == ']' {
        tok_cons_spec(Tok::RBrack, tokenize(l, j + 1))
    } else if l[j] == '=' {
        tok_cons_spec(Tok::Equal, tokenize(l, j + 1))
    } else if l[j] == ',' {
        tok_cons_spec(Tok::Comma, tokenize(l, j + 1))
    } else if l[j] == '"' {
        proof {
            lemma_basic_body_bounds(l, j + 1);
        }
        match basic_body(l, j + 1) {
            Some((s, k)) => tok_cons_spec(Tok::Quoted(s), tokenize(l, k)),
            None => Err("unterminated basic string"@),
        }
    } else if l[j] == '\'' {
        proof {
            lemma_literal_body_bounds(l, j + 1);
        }
        match literal_body(l, j + 1) {
            Some((s, k)) => tok_cons_spec(Tok::Quoted(s), tokenize(l, k)),
            None => Err("unterminated literal string"@),
        }
    } else if is_bare_char(l[j]) {
        proof {
            lemma_bare_end_bounds(l, j);
        }
        tok_cons_spec(Tok::Bare(l.subrange(j, bare_end(l, j))), tokenize(l, bare_end(l, j)))
    } else {
        Err("unexpected character"@)
    }
}

/// Prepends a token to a tokenizer result.
fn tok_cons(t: ETok, r: Result<Vec<ETok>, String>) -> (r2: Result<Vec<ETok>, String>)
    ensures
        match r {
            Ok(v) => r2 matches Ok(v2) && toks_view(v2@) == tok_cons_spec(
                t@,
                Ok(toks_view(v@)),
            )->Ok_0,
            Err(m) => r2 matches Err(m2) && m2@ == m@,
        },
{
    match r {
        Ok(mut v) => {
            let ghost pre = v@;
            v.insert(0, t);
            proof {
                lemma_toks_view_cons(pre, t);
            }
            Ok(v)
        },
        Err(m) => Err(m),
    }
}

pub fn tokenize_x(l: &Vec<char>, i: usize) -> (r: Result<Vec<ETok>, String>)
    requires
        i <= l@.len(),
    ensures
        match r {
            Ok(v) => tokenize(l@, i as int) matches Ok(ts) && toks_view(v@) == ts,
            Err(m) => tokenize(l@, i as int) matches Err(d) && m@ == d,
        },
    decreases l@.len() - i,
{
    let j = skip_blank_x(l, i);
    if j >= l.len() {
        Ok(Vec::new())
    } else {
        let c = l[j];
        if c == '#' {
            Ok(Vec::new())
        } else if c == '[' {
            tok_cons(ETok::LBrack, tokenize_x(l, j + 1))
        } else if c == ']' {
            tok_cons(ETok::RBrack, tokenize_x(l, j + 1))
        } else if c == '=' {
            tok_cons(ETok::Equal, tokenize_x(l, j + 1))
        } else if c == ',' {
            tok_cons(ETok::Comma, tokenize_x(l, j + 1))
        } else if c == '"' {
            match basic_body_x(l, j + 1) {
                Some((content, k)) => tok_cons(ETok::Quoted(content), tokenize_x(l, k)),
                None => Err(String::from_str("unterminated basic string")),
            }
        } else if c == '\'' {
            match literal_body_x(l, j + 1) {
                Some((content, k)) => tok_cons(ETok::Quoted(content), tokenize_x(l, k)),
                None => Err(String::from_str("unterminated literal string")),
            }
        } else if bare_char(c) {
            proof {
                lemma_bare_end_bounds(l@, j as int);
            }
            let e = bare_end_x(l, j);
            let t = sub_vec(l, j, e);
            tok_cons(ETok::Bare(t), tokenize_x(l, e))
        } else {
            Err(String::from_str("unexpected character"))
        }
    }
}

} // verus!

verus! {

// ===== values =====

/// An array element at the specification level: a string, or an unquoted
/// scalar with its classification (for type-mismatch messages) and raw text.
pub enum SpecElem {
    EStr(Seq<char>),
    EBare { class: Seq<char>, raw: Seq<char> },
}

/// A value at the specification level.
pub enum SpecVal {
    VStr(Seq<char>),
    VArr(Seq<SpecElem>),
    VBare { class: Seq<char>, raw: Seq<char> },
}

/// An array element as the executable parser produces it.
pub enum EElem {
    EStr(Vec<char>),
    EBare { class: String, raw: Vec<char> },
}

/// A value as the executable parser produces it.
pub enum EVal {
    VStr(Vec<char>),
    VArr(Vec<EElem>),
    VBare { class: String, raw: Vec<char> },
}

impl View for EElem {
    type V = SpecElem;

    open spec fn view(&self) -> SpecElem {
        match self {
            EElem::EStr(s) => SpecElem::EStr(s@),
            EElem::EBare { class, raw } => SpecElem::EBare { class: class@, raw: raw@ },
        }
    }
}

pub open spec fn elems_view(es: Seq<EElem>) -> Seq<SpecElem> {
    es.map_values(|e: EElem| e@)
}

impl View for EVal {
    type V = SpecVal;

    open spec fn view(&self) -> SpecVal {
        match self {
            EVal::VStr(s) => SpecVal::VStr(s@),
            EVal::VArr(els) => SpecVal::VArr(elems_view(els@)),
            EVal::VBare { class, raw } => SpecVal::VBare { class: class@, raw: raw@ },
        }
    }
}

pub proof fn lemma_elems_view_cons(es: Seq<EElem>, e: EElem)
    ensures
        elems_view(es.insert(0, e)) =~= seq![e@] + elems_view(es),
{
    assert forall|k: int| 0 <= k < es.insert(0, e).len() implies elems_view(es.insert(0, e))[k] == (
    seq![e@] + elems_view(es))[k] by {
        if k > 0 {
            assert(es.insert(0, e)[k] == es[k - 1]);
        }
    }
}

pub proof fn lemma_toks_view_drop_first(ts: Seq<ETok>)
    requires
        ts.len() > 0,
    ensures
        toks_view(ts.drop_first()) =~= toks_view(ts).drop_first(),
{
}

// ===== token helpers =====

fn tok_is_lb(t: &ETok) -> (b: bool)
    ensures
        b == (t@ is LBrack),
{
    match t {
        ETok::LBrack => true,
        _ => false,
    }
}

fn tok_is_rb(t: &ETok) -> (b: bool)
    ensures
        b == (t@ is RBrack),
{
    match t {
        ETok::RBrack => true,
        _ => false,
    }
}

fn tok_is_eq(t: &ETok) -> (b: bool)
    ensures
        b == (t@ is Equal),
{
    match t {
        ETok::Equal => true,
        _ => false,
    }
}

fn tok_is_bare(t: &ETok) -> (b: bool)
    ensures
        b == (t@ is Bare),
{
    match t {
        ETok::Bare(_) => true,
        _ => false,
    }
}

// ===== array items =====

/// The elements of an array whose opening `[` has been consumed, and the
/// tokens that follow the closing `]`. Elements are strings or unquoted
/// scalars; arrays may end with a trailing comma.
pub open spec fn parse_arr_items(toks: Seq<Tok>) -> Result<(Seq<SpecElem>, Seq<Tok>), Seq<char>>
    decreases toks.len(),
{
    if toks.len() == 0 {
        Err("unterminated array"@)
    } else if toks[0] is RBrack {
        Ok((Seq::<SpecElem>::empty(), toks.drop_first()))
    } else {
        let elo = match toks[0] {
            Tok::Quoted(s) => Some(SpecElem::EStr(s)),
            Tok::Bare(t) => Some(SpecElem::EBare { class: classify_bare(t), raw: t }),
            _ => None,
        };
        match elo {
            None => Err("expected value in array"@),
            Some(el) => {
                let rest = toks.drop_first();
                if rest.len() == 0 {
                    Err("unterminated array"@)
                } else if rest[0] is Comma {
                    match parse_arr_items(rest.drop_first()) {
                        Ok(p) => Ok((seq![el] + p.0, p.1)),
                        Err(e) => Err(e),
                    }
                } else if rest[0] is RBrack {
                    Ok((seq![el], rest.drop_first()))
                } else {
                    Err("expected ',' or ']' in array"@)
                }
            },
        }
    }
}

pub fn parse_arr_items_x(toks: Vec<ETok>) -> (r: Result<(Vec<EElem>, Vec<ETok>), String>)
    ensures
        match r {
            Ok(p) => parse_arr_items(toks_view(toks@)) matches Ok(sp) && elems_view(p.0@) == sp.0
                && toks_view(p.1@) == sp.1,
            Err(m) => parse_arr_items(toks_view(toks@)) matches Err(d) && m@ == d,
        },
    decreases toks@.len(),
{
    let ghost orig = toks@;
    let mut rem = toks;
    if rem.len() == 0 {
        return Err(String::from_str("unterminated array"));
    }
    proof {
        assert(toks_view(orig)[0] == orig[0]@);
    }
    if tok_is_rb(&rem[0]) {
        let first = rem.remove(0);
        proof {
            assert(rem@ =~= orig.drop_first());
            lemma_toks_view_drop_first(orig);
        }
        return Ok((Vec::new(), rem));
    }
    let t0 = rem.remove(0);
    proof {
        assert(rem@ =~= orig.drop_first());
        lemma_toks_view_drop_first(orig);
    }
    let el: EElem = match t0 {
        ETok::Quoted(s) => EElem::EStr(s),
        ETok::Bare(t) => {
            let class = classify_x(&t);
            EElem::EBare { class, raw: t }
        },
        _ => {
            return Err(String::from_str("expected value in array"));
        },
    };
    if rem.len() == 0 {
        return Err(String::from_str("unterminated array"));
    }
    let ghost rest = rem@;
    proof {
        assert(toks_view(rest)[0] == rest[0]@);
    }
    let t1 = rem.remove(0);
    proof {
        assert(rem@ =~= rest.drop_first());
        lemma_toks_view_drop_first(rest);
    }
    match t1 {
        ETok::Comma => match parse_arr_items_x(rem) {
            Ok((mut els, rest2)) => {
                let ghost pre = els@;
                els.insert(0, el);
                proof {
                    lemma_elems_view_cons(pre, el);
                }
                Ok((els, rest2))
            },
            Err(e) => Err(e),
        },
        ETok::RBrack => {
            let mut els: Vec<EElem> = Vec::new();
            els.push(el);
            proof {
                assert(elems_view(els@) =~= seq![el@]);
            }
            Ok((els, rem))
        },
        _ => Err(String::from_str("expected ',' or ']' in array")),
    }
}

// ===== values from tokens =====

/// The value starting at the head of the token list, and the tokens that
/// follow it.
pub open spec fn parse_val(toks: Seq<Tok>) -> Result<(SpecVal, Seq<Tok>), Seq<char>> {
    if toks.len() == 0 {
        Err("expected value"@)
    } else {
        match toks[0] {
            Tok::Quoted(s) => Ok((SpecVal::VStr(s), toks.drop_first())),
            Tok::Bare(t) => Ok(
                (SpecVal::VBare { class: classify_bare(t), raw: t }, toks.drop_first()),
            ),
            Tok::LBrack => match parse_arr_items(toks.drop_first()) {
                Ok(p) => Ok((SpecVal::VArr(p.0), p.1)),
                Err(e) => Err(e),
            },
            _ => Err("expected value"@),
        }
    }
}

pub fn parse_val_x(toks: Vec<ETok>) -> (r: Result<(EVal, Vec<ETok>), String>)
    ensures
        match r {
            Ok(p) => parse_val(toks_view(toks@)) matches Ok(sp) && p.0@ == sp.0 && toks_view(p.1@)
                == sp.1,
            Err(m) => parse_val(toks_view(toks@)) matches Err(d) && m@ == d,
        },
{
    let ghost orig = toks@;
    let mut rem = toks;
    if rem.len() == 0 {
        return Err(String::from_str("expected value"));
    }
    proof {
        assert(toks_view(orig)[0] == orig[0]@);
    }
    let t0 = rem.remove(0);
    proof {
        assert(rem@ =~= orig.drop_first());
        lemma_toks_view_drop_first(orig);
    }
    match t0 {
        ETok::Quoted(s) => Ok((EVal::VStr(s), rem)),
        ETok::Bare(t) => {
            let class = classify_x(&t);
            Ok((EVal::VBare { class, raw: t }, rem))
        },
        ETok::LBrack => match parse_arr_items_x(rem) {
            Ok((els, rest)) => Ok((EVal::VArr(els), rest)),
            Err(e) => Err(e),
        },
        _ => Err(String::from_str("expected value")),
    }
}

// ===== lines =====

/// One configuration line, classified.
pub enum SpecLine {
    Blank,
    Header(Seq<char>),
    KeyVal(Seq<char>, SpecVal),
}

/// One configuration line, as the executable parser produces it.
pub enum ELine {
    Blank,
    Header(Vec<char>),
    KeyVal(Vec<char>, EVal),
}

impl View for ELine {
    type V = SpecLine;

    open spec fn view(&self) -> SpecLine {
        match self {
            ELine::Blank => SpecLine::Blank,
            ELine::Header(h) => SpecLine::Header(h@),
            ELine::KeyVal(k, v) => SpecLine::KeyVal(k@, v@),
        }
    }
}

/// The meaning of a token list as one line: blank, a `[table]` header, or a
/// `key = value` pair, with nothing else on the line.
pub open spec fn parse_line_toks(toks: Seq<Tok>) -> Result<SpecLine, Seq<char>> {
    if toks.len() == 0 {
        Ok(SpecLine::Blank)
    } else if toks[0] is LBrack {
        if toks.len() >= 3 && toks[1] is Bare && toks[2] is RBrack {
            if toks.len() == 3 {
                match toks[1] {
                    Tok::Bare(h) => Ok(SpecLine::Header(h)),
                    _ => Err(Seq::<char>::empty()),
                }
            } else {
                Err("expected end of line after table header"@)
            }
        } else {
            Err("expected table name between '[' and ']'"@)
        }
    } else if toks[0] is Bare {
        if toks.len() >= 2 && toks[1] is Equal {
            match parse_val(toks.skip(2)) {
                Ok(p) => if p.1.len() == 0 {
                    match toks[0] {
                        Tok::Bare(k) => Ok(SpecLine::KeyVal(k, p.0)),
                        _ => Err(Seq::<char>::empty()),
                    }
                } else {
                    Err("expected end of line after value"@)
                },
                Err(e) => Err(e),
            }
        } else {
            Err("expected '=' after key"@)
        }
    } else {
        Err("expected key at start of line"@)
    }
}

pub fn parse_line_toks_x(toks: Vec<ETok>) -> (r: Result<ELine, String>)
    ensures
        match r {
            Ok(li) => parse_line_toks(toks_view(toks@)) matches Ok(sl) && li@ == sl,
            Err(m) => parse_line_toks(toks_view(toks@)) matches Err(d) && m@ == d,
        },
{
    let ghost orig = toks@;
    let mut rem = toks;
    if rem.len() == 0 {
        return Ok(ELine::Blank);
    }
    proof {
        assert(toks_view(orig)[0] == orig[0]@);
        assert(toks_view(orig).len() == orig.len());
    }
    if tok_is_lb(&rem[0]) {
        if rem.len() >= 3 && tok_is_bare(&rem[1]) && tok_is_rb(&rem[2]) {
            proof {
                assert(toks_view(orig)[1] == orig[1]@);
                assert(toks_view(orig)[2] == orig[2]@);
            }
            if rem.len() == 3 {
                let t1 = rem.remove(1);
                match t1 {
                    ETok::Bare(h) => Ok(ELine::Header(h)),
                    _ => {
                        proof {
                            assert(false);
                        }
                        Err(String::new())
                    },
                }
            } else {
                Err(String::from_str("expected end of line after table header"))
            }
        } else {
            proof {
                if rem@.len() >= 3 {
                    assert(toks_view(orig)[1] == orig[1]@);
                    assert(toks_view(orig)[2] == orig[2]@);
                }
            }
            Err(String::from_str("expected table name between '[' and ']'"))
        }
    } else if tok_is_bare(&rem[0]) {
        if rem.len() >= 2 && tok_is_eq(&rem[1]) {
            proof {
                assert(toks_view(orig)[1] == orig[1]@);
            }
            let t0 = rem.remove(0);
            let t1 = rem.remove(0);
            proof {
                assert(rem@ =~= orig.skip(2));
                lemma_toks_view_skip(orig, 2);
            }
            let key = match t0 {
                ETok::Bare(k) => k,
                _ => {
                    proof {
                        assert(false);
                    }
                    Vec::new()
                },
            };
            match parse_val_x(rem) {
                Ok((v, rest)) => {
                    if rest.len() == 0 {
                        Ok(ELine::KeyVal(key, v))
                    } else {
                        Err(String::from_str("expected end of line after value"))
                    }
                },
                Err(e) => Err(e),
            }
        } else {
            proof {
                if rem@.len() >= 2 {
                    assert(toks_view(orig)[1] == orig[1]@);
                }
            }
            Err(String::from_str("expected '=' after key"))
        }
    } else {
        Err(String::from_str("expected key at start of line"))
    }
}

/// The meaning of one configuration line: tokenize it, then read the tokens.
pub open spec fn parse_line(l: Seq<char>) -> Result<SpecLine, Seq<char>> {
    match tokenize(l, 0) {
        Ok(ts) => parse_line_toks(ts),
        Err(e) => Err(e),
    }
}

pub fn parse_line_x(l: &Vec<char>) -> (r: Result<ELine, String>)
    ensures
        match r {
            Ok(li) => parse_line(l@) matches Ok(sl) && li@ == sl,
            Err(m) => parse_line(l@) matches Err(d) && m@ == d,
        },
{
    match tokenize_x(l, 0) {
        Ok(ts) => parse_line_toks_x(ts),
        Err(e) => Err(e),
    }
}

} // verus!

verus! {

// ===== type-mismatch descriptions =====

pub open spec fn invalid_type_detail(expected: Seq<char>, found: Seq<char>) -> Seq<char> {
    "invalid type: expected "@ + expected + ", found "@ + found
}

/// How a value is described in a type-mismatch message: strings quote their
/// content, unquoted scalars show their class and raw text.
pub open spec fn describe_val(v: SpecVal) -> Seq<char> {
    match v {
        SpecVal::VStr(s) => "string \""@ + s + "\""@,
        SpecVal::VArr(els) => "array"@,
        SpecVal::VBare { class, raw } => class + " `"@ + raw + "`"@,
    }
}

pub fn describe_val_x(v: &EVal) -> (r: String)
    ensures
        r@ == describe_val(v@),
{
    match v {
        EVal::VStr(s) => {
            let body = string_of(s);
            String::from_str("string \"").concat(body.as_str()).concat("\"")
        },
        EVal::VArr(_) => String::from_str("array"),
        EVal::VBare { class, raw } => {
            let rawtext = string_of(raw);
            class.clone().concat(" `").concat(rawtext.as_str()).concat("`")
        },
    }
}

// ===== string lists =====

pub open spec fn strings_view(ss: Seq<String>) -> Seq<Seq<char>> {
    ss.map_values(|s: String| s@)
}

pub proof fn lemma_strings_view_cons(ss: Seq<String>, s: String)
    ensures
        strings_view(ss.insert(0, s)) =~= seq![s@] + strings_view(ss),
{
    assert forall|k: int| 0 <= k < ss.insert(0, s).len() implies strings_view(ss.insert(0, s))[k]
        == (seq![s@] + strings_view(ss))[k] by {
        if k > 0 {
            assert(ss.insert(0, s)[k] == ss[k - 1]);
        }
    }
}

/// The contents of an array whose elements must all be strings; the first
/// element of another kind is a type error naming it.
pub open spec fn elems_as_strings(els: Seq<SpecElem>) -> Result<Seq<Seq<char>>, Seq<char>>
    decreases els.len(),
{
    if els.len() == 0 {
        Ok(Seq::<Seq<char>>::empty())
    } else {
        match els[0] {
            SpecElem::EStr(s) => match elems_as_strings(els.drop_first()) {
                Ok(ss) => Ok(seq![s] + ss),
                Err(e) => Err(e),
            },
            SpecElem::EBare { class, raw } => Err(
                invalid_type_detail("string"@, class + " `"@ + raw + "`"@),
            ),
        }
    }
}

pub proof fn lemma_elems_view_drop_first(es: Seq<EElem>)
    requires
        es.len() > 0,
    ensures
        elems_view(es.drop_first()) =~= elems_view(es).drop_first(),
{
}

pub fn elems_as_strings_x(els: Vec<EElem>) -> (r: Result<Vec<String>, String>)
    ensures
        match r {
            Ok(ss) => elems_as_strings(elems_view(els@)) matches Ok(sp) && strings_view(ss@) == sp,
            Err(m) => elems_as_strings(elems_view(els@)) matches Err(d) && m@ == d,
        },
    decreases els@.len(),
{
    let ghost orig = els@;
    let mut rem = els;
    if rem.len() == 0 {
        proof {
            assert(strings_view(Seq::<String>::empty()) =~= Seq::<Seq<char>>::empty());
        }
        return Ok(Vec::new());
    }
    proof {
        assert(elems_view(orig)[0] == orig[0]@);
    }
    let e0 = rem.remove(0);
    proof {
        assert(rem@ =~= orig.drop_first());
        lemma_elems_view_drop_first(orig);
    }
    match e0 {
        EElem::EStr(s) => match elems_as_strings_x(rem) {
            Ok(mut ss) => {
                let text = string_of(&s);
                let ghost pre = ss@;
                ss.insert(0, text);
                proof {
                    lemma_strings_view_cons(pre, text);
                }
                Ok(ss)
            },
            Err(m) => Err(m),
        },
        EElem::EBare { class, raw } => {
            let rawtext = string_of(&raw);
            let msg = String::from_str("invalid type: expected ").concat("string").concat(
                ", found ",
            ).concat(class.as_str()).concat(" `").concat(rawtext.as_str()).concat("`");
            proof {
                assert(msg@ =~= invalid_type_detail("string"@, class@ + " `"@ + raw@ + "`"@));
            }
            Err(msg)
        },
    }
}

/// A value that must be an array of strings.
pub open spec fn val_as_string_list(v: SpecVal) -> Result<Seq<Seq<char>>, Seq<char>> {
    match v {
        SpecVal::VArr(els) => elems_as_strings(els),
        _ => Err(invalid_type_detail("array"@, describe_val(v))),
    }
}

pub fn val_as_string_list_x(v: EVal) -> (r: Result<Vec<String>, String>)
    ensures
        match r {
            Ok(ss) => val_as_string_list(v@) matches Ok(sp) && strings_view(ss@) == sp,
            Err(m) => val_as_string_list(v@) matches Err(d) && m@ == d,
        },
{
    match v {
        EVal::VArr(els) => elems_as_strings_x(els),
        other => {
            let found = describe_val_x(&other);
            let msg = String::from_str("invalid type: expected ").concat("array").concat(
                ", found ",
            ).concat(found.as_str());
            proof {
                assert(msg@ =~= invalid_type_detail("array"@, describe_val(other@)));
            }
            Err(msg)
        },
    }
}

// ===== the document fold =====

/// Which table the reader currently stands in.
#[derive(Clone, Copy, PartialEq, Eq, Structural, Debug)]
pub enum Section {
    /// Before any table header.
    Top,
    Project,
    Check,
    Tasks,
    /// An unknown table, whose keys are ignored.
    Other,
}

/// The reader's state between lines, at the specification level.
pub struct SpecState {
    pub section: Section,
    pub seen_project: bool,
    pub seen_check: bool,
    pub seen_tasks: bool,
    pub name: Option<Seq<char>>,
    pub linters: Option<Seq<Seq<char>>>,
    pub testers: Option<Seq<Seq<char>>>,
    pub tasks: Seq<(Seq<char>, Seq<Seq<char>>)>,
}

pub open spec fn init_state() -> SpecState {
    SpecState {
        section: Section::Top,
        seen_project: false,
        seen_check: false,
        seen_tasks: false,
        name: None,
        linters: None,
        testers: None,
        tasks: Seq::empty(),
    }
}

pub open spec fn task_defined(tasks: Seq<(Seq<char>, Seq<Seq<char>>)>, k: Seq<char>) -> bool {
    exists|i: int| 0 <= i < tasks.len() && tasks[i].0 == k
}

/// How one parsed line advances the reader: headers switch the section (a
/// repeated known table is an error), recognized keys store their value
/// after a type check (a repeated key is an error), unknown keys are
/// ignored.
pub open spec fn step_line(st: SpecState, line: SpecLine) -> Result<SpecState, Seq<char>> {
    match line {
        SpecLine::Blank => Ok(st),
        SpecLine::Header(h) => {
            if h == "project"@ {
                if st.seen_project {
                    Err("duplicate table `project`"@)
                } else {
                    Ok(SpecState { section: Section::Project, seen_project: true, ..st })
                }
            } else if h == "check"@ {
                if st.seen_check {
                    Err("duplicate table `check`"@)
                } else {
                    Ok(SpecState { section: Section::Check, seen_check: true, ..st })
                }
            } else if h == "tasks"@ {
                if st.seen_tasks {
                    Err("duplicate table `tasks`"@)
                } else {
                    Ok(SpecState { section: Section::Tasks, seen_tasks: true, ..st })
                }
            } else {
                Ok(SpecState { section: Section::Other, ..st })
            }
        },
        SpecLine::KeyVal(k, v) => match st.section {
            Section::Top => Ok(st),
            Section::Other => Ok(st),
            Section::Project => {
                if k == "name"@ {
                    if st.name is Some {
                        Err("duplicate key `name`"@)
                    } else {
                        match v {
                            SpecVal::VStr(s) => Ok(SpecState { name: Some(s), ..st }),
                            _ => Err(invalid_type_detail("string"@, describe_val(v))),
                        }
                    }
                } else {
                    Ok(st)
                }
            },
            Section::Check => {
                if k == "linters"@ {
                    if st.linters is Some {
                        Err("duplicate key `linters`"@)
                    } else {
                        match val_as_string_list(v) {
                            Ok(ss) => Ok(SpecState { linters: Some(ss), ..st }),
                            Err(e) => Err(e),
                        }
                    }
                } else if k == "testers"@ {
                    if st.testers is Some {
                        Err("duplicate key `testers`"@)
                    } else {
                        match val_as_string_list(v) {
                            Ok(ss) => Ok(SpecState { testers: Some(ss), ..st }),
                            Err(e) => Err(e),
                        }
                    }
                } else {
                    Ok(st)
                }
            },
            Section::Tasks => {
                if task_defined(st.tasks, k) {
                    Err("duplicate key `"@ + k + "`"@)
                } else {
                    match val_as_string_list(v) {
                        Ok(ss) => Ok(SpecState { tasks: st.tasks.push((k, ss)), ..st }),
                        Err(e) => Err(e),
                    }
                }
            },
        },
    }
}

/// Reads the lines in order, stopping at the first failure.
pub open spec fn run_lines(lines: Seq<Seq<char>>, st: SpecState) -> Result<SpecState, Seq<char>>
    decreases lines.len(),
{
    if lines.len() == 0 {
        Ok(st)
    } else {
        match parse_line(lines[0]) {
            Err(e) => Err(e),
            Ok(li) => match step_line(st, li) {
                Err(e) => Err(e),
                Ok(st2) => run_lines(lines.drop_first(), st2),
            },
        }
    }
}

/// The parsed document: the mandatory project name, the check command
/// lists (absent ones default to empty), and the task table in declaration
/// order.
pub struct SpecConfig {
    pub name: Seq<char>,
    pub linters: Seq<Seq<char>>,
    pub testers: Seq<Seq<char>>,
    pub tasks: Seq<(Seq<char>, Seq<Seq<char>>)>,
}

/// The demands the document must meet once all lines are read: a `[project]`
/// table with a non-empty `name`. Everything else defaults.
pub open spec fn finalize_state(st: SpecState) -> Result<SpecConfig, Seq<char>> {
    if !st.seen_project {
        Err("missing field `project`"@)
    } else {
        match st.name {
            None => Err("missing field `name`"@),
            Some(n) => if n.len() == 0 {
                Err("project name must be non-empty"@)
            } else {
                Ok(
                    SpecConfig {
                        name: n,
                        linters: match st.linters {
                            Some(x) => x,
                            None => Seq::empty(),
                        },
                        testers: match st.testers {
                            Some(x) => x,
                            None => Seq::empty(),
                        },
                        tasks: st.tasks,
                    },
                )
            },
        }
    }
}

// ===== line splitting =====

/// The position of the first newline at or after `i`, or the end.
pub open spec fn find_nl(s: Seq<char>, i: int) -> int
    decreases s.len() - i,
    when 0 <= i <= s.len()
{
    if i < s.len() {
        if s[i] == '\n' {
            i
        } else {
            find_nl(s, i + 1)
        }
    } else {
        i
    }
}

pub proof fn lemma_find_nl_bounds(s: Seq<char>, i: int)
    requires
        0 <= i <= s.len(),
    ensures
        i <= find_nl(s, i) <= s.len(),
        find_nl(s, i) < s.len() ==> s[find_nl(s, i)] == '\n',
        forall|k: int| i <= k < find_nl(s, i) ==> s[k] != '\n',
    decreases s.len() - i,
{
    if i < s.len() && s[i] != '\n' {
        lemma_find_nl_bounds(s, i + 1);
    }
}

/// The lines of `s` from position `i` on, split at newlines. A trailing
/// newline yields a final empty line, which reads as blank.
pub open spec fn split_from(s: Seq<char>, i: int) -> Seq<Seq<char>>
    decreases s.len() - i,
    when 0 <= i <= s.len()
{
    proof {
        lemma_find_nl_bounds(s, i);
    }
    let j = find_nl(s, i);
    if j >= s.len() {
        seq![s.subrange(i, s.len() as int)]
    } else {
        seq![s.subrange(i, j)] + split_from(s, j + 1)
    }
}

pub open spec fn split_lines(s: Seq<char>) -> Seq<Seq<char>> {
    split_from(s, 0)
}

/// The whole document: split into lines, read line by line, then checked
/// for the mandatory fields.
pub open spec fn parse_doc(s: Seq<char>) -> Result<SpecConfig, Seq<char>> {
    match run_lines(split_lines(s), init_state()) {
        Err(e) => Err(e),
        Ok(st) => finalize_state(st),
    }
}

pub open spec fn lines_view(ls: Seq<Vec<char>>) -> Seq<Seq<char>> {
    ls.map_values(|l: Vec<char>| l@)
}

pub proof fn lemma_lines_view_cons(ls: Seq<Vec<char>>, l: Vec<char>)
    ensures
        lines_view(ls.insert(0, l)) =~= seq![l@] + lines_view(ls),
{
    assert forall|k: int| 0 <= k < ls.insert(0, l).len() implies lines_view(ls.insert(0, l))[k] == (
    seq![l@] + lines_view(ls))[k] by {
        if k > 0 {
            assert(ls.insert(0, l)[k] == ls[k - 1]);
        }
    }
}

pub fn find_nl_x(text: &Vec<char>, i: usize) -> (r: usize)
    requires
        i <= text@.len(),
    ensures
        r == find_nl(text@, i as int),
        i <= r <= text@.len(),
{
    let mut j = i;
    while j < text.len() && text[j] != '\n'
        invariant
            i <= j <= text@.len(),
            find_nl(text@, i as int) == find_nl(text@, j as int),
        decreases text@.len() - j,
    {
        j = j + 1;
    }
    proof {
        lemma_find_nl_bounds(text@, i as int);
    }
    j
}

fn split_from_x(text: &Vec<char>, p: usize) -> (r: Vec<Vec<char>>)
    requires
        p <= text@.len(),
    ensures
        lines_view(r@) == split_from(text@, p as int),
    decreases text@.len() - p,
{
    let j = find_nl_x(text, p);
    if j >= text.len() {
        let line = sub_vec(text, p, text.len());
        let mut r: Vec<Vec<char>> = Vec::new();
        r.push(line);
        proof {
            assert(lines_view(r@) =~= seq![text@.subrange(p as int, text@.len() as int)]);
        }
        r
    } else {
        let line = sub_vec(text, p, j);
        let mut rest = split_from_x(text, j + 1);
        let ghost pre = rest@;
        rest.insert(0, line);
        proof {
            lemma_lines_view_cons(pre, line);
        }
        rest
    }
}

pub fn split_lines_x(text: &Vec<char>) -> (r: Vec<Vec<char>>)
    ensures
        lines_view(r@) == split_lines(text@),
{
    split_from_x(text, 0)
}

} // verus!
