//! Writing a configuration back out: the canonical text form of a
//! [`Config`], the inverse of parsing.
//!
//! The renderer emits the marker file in a fixed shape — the `[project]`
//! table with the name, the `[check]` table with both command lists, and
//! the `[tasks]` table with one line per task — quoting every string as a
//! basic string. For renderable configurations (plain string contents,
//! bare unique task keys) parsing the rendered text yields the
//! configuration back; see the round-trip law.

use vstd::prelude::*;

use crate::config::Config;
use crate::parse::SpecConfig;
use crate::parse::is_bare_char;
use crate::parse::strings_view;

verus! {

// ===== what can be written =====

/// A character that survives quoting untouched: anything but the quote,
/// the backslash and line breaks.
pub open spec fn plain_char(c: char) -> bool {
    c != '"' && c != '\\' && c != '\n' && c != '\r'
}

pub open spec fn plain_str(s: Seq<char>) -> bool {
    forall|k: int| 0 <= k < s.len() ==> plain_char(s[k])
}

pub open spec fn plain_list(ss: Seq<Seq<char>>) -> bool {
    forall|k: int| 0 <= k < ss.len() ==> plain_str(ss[k])
}

/// A usable task key: a non-empty run of bare-token characters.
pub open spec fn bare_key(k: Seq<char>) -> bool {
    k.len() > 0 && (forall|j: int| 0 <= j < k.len() ==> is_bare_char(k[j]))
}

/// What the renderer can write and the parser will read back exactly: a
/// non-empty plain name, plain command strings, and bare, distinct task
/// keys.
pub open spec fn renderable(c: SpecConfig) -> bool {
    &&& c.name.len() > 0
    &&& plain_str(c.name)
    &&& plain_list(c.linters)
    &&& plain_list(c.testers)
    &&& (forall|i: int| 0 <= i < c.tasks.len() ==> bare_key(#[trigger] c.tasks[i].0))
    &&& (forall|i: int| 0 <= i < c.tasks.len() ==> plain_list(#[trigger] c.tasks[i].1))
    &&& (forall|i: int, j: int|
        0 <= i < j < c.tasks.len() ==> c.tasks[i].0 != c.tasks[j].0)
}

// ===== the rendered shape =====

/// A string in its quoted form.
pub open spec fn quote_str(s: Seq<char>) -> Seq<char> {
    "\""@ + s + "\""@
}

/// The quoted items of an array, separated by `", "`.
pub open spec fn render_items(ss: Seq<Seq<char>>) -> Seq<char>
    decreases ss.len(),
{
    if ss.len() == 0 {
        Seq::<char>::empty()
    } else if ss.len() == 1 {
        quote_str(ss[0])
    } else {
        quote_str(ss[0]) + ", "@ + render_items(ss.drop_first())
    }
}

/// An array value in its written form.
pub open spec fn render_list(ss: Seq<Seq<char>>) -> Seq<char> {
    "["@ + render_items(ss) + "]"@
}

/// A table header line.
pub open spec fn render_header(h: Seq<char>) -> Seq<char> {
    "["@ + h + "]"@
}

/// A `key = "value"` line.
pub open spec fn render_str_line(k: Seq<char>, v: Seq<char>) -> Seq<char> {
    k + " = "@ + quote_str(v)
}

/// One task's line.
pub open spec fn render_task_line(k: Seq<char>, cmds: Seq<Seq<char>>) -> Seq<char> {
    k + " = "@ + render_list(cmds)
}

pub open spec fn render_task_lines(tasks: Seq<(Seq<char>, Seq<Seq<char>>)>) -> Seq<Seq<char>>
    decreases tasks.len(),
{
    if tasks.len() == 0 {
        Seq::<Seq<char>>::empty()
    } else {
        seq![render_task_line(tasks[0].0, tasks[0].1)] + render_task_lines(tasks.drop_first())
    }
}

/// Every line of the rendered configuration, in order.
pub open spec fn render_lines(c: SpecConfig) -> Seq<Seq<char>> {
    seq![
        render_header("project"@),
        render_str_line("name"@, c.name),
        Seq::<char>::empty(),
        render_header("check"@),
        render_task_line("linters"@, c.linters),
        render_task_line("testers"@, c.testers),
        Seq::<char>::empty(),
        render_header("tasks"@),
    ] + render_task_lines(c.tasks)
}

/// Lines joined by newlines, with no trailing newline.
pub open spec fn join_nl(lines: Seq<Seq<char>>) -> Seq<char>
    decreases lines.len(),
{
    if lines.len() == 0 {
        Seq::<char>::empty()
    } else if lines.len() == 1 {
        lines[0]
    } else {
        lines[0] + "\n"@ + join_nl(lines.drop_first())
    }
}

/// The rendered text of a configuration.
pub open spec fn spec_render(c: SpecConfig) -> Seq<char> {
    join_nl(render_lines(c))
}

// ===== the executable renderer =====

/// `s` in quotes.
fn quote_string(s: &str) -> (r: String)
    ensures
        r@ == quote_str(s@),
{
    String::from_str("\"").concat(s).concat("\"")
}

/// The quoted items, separated by `", "`.
fn render_items_x(ss: &Vec<String>, from: usize) -> (r: String)
    requires
        from <= ss@.len(),
    ensures
        r@ == render_items(strings_view(ss@).skip(from as int)),
    decreases ss@.len() - from,
{
    let ghost tail = strings_view(ss@).skip(from as int);
    if from >= ss.len() {
        proof {
            assert(tail =~= Seq::<Seq<char>>::empty());
        }
        String::new()
    } else {
        proof {
            assert(tail[0] == strings_view(ss@)[from as int]);
            assert(strings_view(ss@)[from as int] == ss@[from as int]@);
            assert(tail.len() == ss@.len() - from);
        }
        let head = quote_string(ss[from].as_str());
        if from + 1 >= ss.len() {
            head
        } else {
            proof {
                assert(tail.drop_first() =~= strings_view(ss@).skip(from as int + 1));
            }
            let rest = render_items_x(ss, from + 1);
            head.concat(", ").concat(rest.as_str())
        }
    }
}

/// The array value in its written form.
fn render_list_x(ss: &Vec<String>) -> (r: String)
    ensures
        r@ == render_list(strings_view(ss@)),
{
    proof {
        assert(strings_view(ss@).skip(0) =~= strings_view(ss@));
    }
    let items = render_items_x(ss, 0);
    String::from_str("[").concat(items.as_str()).concat("]")
}

/// Writes the configuration in its canonical text form; parsing the result
/// of a renderable configuration yields the configuration back.
#[verifier::rlimit(80)]
pub fn render_config(c: &Config) -> (r: String)
    ensures
        r@ == spec_render(c@),
{
    let mut out = String::from_str("[").concat("project").concat("]").concat("\n");
    out = out.concat("name").concat(" = ").concat(
        quote_string(c.project.name.as_str()).as_str(),
    ).concat("\n");
    out = out.concat("\n");
    out = out.concat("[").concat("check").concat("]").concat("\n");
    out = out.concat("linters").concat(" = ").concat(
        render_list_x(&c.check.linters).as_str(),
    ).concat("\n");
    out = out.concat("testers").concat(" = ").concat(
        render_list_x(&c.check.testers).as_str(),
    ).concat("\n");
    out = out.concat("\n");
    out = out.concat("[").concat("tasks").concat("]");
    proof {
        assert(out@ =~= join_nl_partial_eight(c@));
    }
    let mut i: usize = 0;
    while i < c.tasks.len()
        invariant
            i <= c.tasks@.len(),
            out@ == join_nl_partial_eight(c@) + tasks_suffix(tasks_upto(c@.tasks, i as int)),
            c@.tasks.len() == c.tasks@.len(),
        decreases c.tasks@.len() - i,
    {
        proof {
            assert(c@.tasks[i as int] == (c.tasks@[i as int].0@, strings_view(
                c.tasks@[i as int].1@,
            )));
        }
        let line = String::from_str(c.tasks[i].0.as_str()).concat(" = ").concat(
            render_list_x(&c.tasks[i].1).as_str(),
        );
        out = out.concat("\n").concat(line.as_str());
        proof {
            assert(tasks_upto(c@.tasks, i as int + 1) =~= tasks_upto(c@.tasks, i as int).push(
                c@.tasks[i as int],
            ));
            lemma_tasks_suffix_push(tasks_upto(c@.tasks, i as int), c@.tasks[i as int]);
        }
        i = i + 1;
    }
    proof {
        assert(tasks_upto(c@.tasks, c@.tasks.len() as int) =~= c@.tasks);
        lemma_render_join(c@);
    }
    out
}

/// The first eight rendered lines, joined.
pub open spec fn join_nl_partial_eight(c: SpecConfig) -> Seq<char> {
    render_header("project"@) + "\n"@ + render_str_line("name"@, c.name) + "\n"@ + "\n"@
        + render_header("check"@) + "\n"@ + render_task_line("linters"@, c.linters) + "\n"@
        + render_task_line("testers"@, c.testers) + "\n"@ + "\n"@ + render_header("tasks"@)
}

pub open spec fn tasks_upto(
    tasks: Seq<(Seq<char>, Seq<Seq<char>>)>,
    n: int,
) -> Seq<(Seq<char>, Seq<Seq<char>>)> {
    tasks.subrange(0, n)
}

/// The newline-prefixed task lines, joined.
pub open spec fn tasks_suffix(tasks: Seq<(Seq<char>, Seq<Seq<char>>)>) -> Seq<char>
    decreases tasks.len(),
{
    if tasks.len() == 0 {
        Seq::<char>::empty()
    } else {
        tasks_suffix(tasks.drop_last()) + "\n"@ + render_task_line(
            tasks.last().0,
            tasks.last().1,
        )
    }
}

proof fn lemma_tasks_suffix_push(tasks: Seq<(Seq<char>, Seq<Seq<char>>)>, t: (
    Seq<char>,
    Seq<Seq<char>>,
))
    ensures
        tasks_suffix(tasks.push(t)) == tasks_suffix(tasks) + "\n"@ + render_task_line(t.0, t.1),
{
    assert(tasks.push(t).drop_last() =~= tasks);
    assert(tasks.push(t).last() == t);
}

/// Joining the eight fixed lines and the task lines is exactly the
/// rendered text.
proof fn lemma_render_join(c: SpecConfig)
    ensures
        join_nl_partial_eight(c) + tasks_suffix(c.tasks) == spec_render(c),
{
    lemma_join_split_general(c);
}

proof fn lemma_join_push_line(lines: Seq<Seq<char>>, l: Seq<char>)
    requires
        lines.len() > 0,
    ensures
        join_nl(lines.push(l)) == join_nl(lines) + "\n"@ + l,
    decreases lines.len(),
{
    if lines.len() == 1 {
        assert(lines.push(l).drop_first() =~= seq![l]);
        assert(join_nl(seq![l]) == l);
    } else {
        assert(lines.push(l).drop_first() =~= lines.drop_first().push(l));
        lemma_join_push_line(lines.drop_first(), l);
        assert(join_nl(lines.push(l)) == lines[0] + "\n"@ + join_nl(lines.drop_first().push(l)));
        assert((lines[0] + "\n"@ + (join_nl(lines.drop_first()) + "\n"@ + l)) =~= ((lines[0] + "\n"@
            + join_nl(lines.drop_first())) + "\n"@ + l));
    }
}

proof fn lemma_join_split_general(c: SpecConfig)
    ensures
        join_nl(render_lines(c)) == join_nl_partial_eight(c) + tasks_suffix(c.tasks),
{
    lemma_join_tasks(c, c.tasks.len() as int);
    assert(tasks_upto(c.tasks, c.tasks.len() as int) =~= c.tasks);
    assert(render_task_lines_upto_all(c));
}

/// Helper fact: the fixed eight lines plus the first `n` task lines join
/// to the partial text plus the first `n` task suffixes.
proof fn lemma_join_tasks(c: SpecConfig, n: int)
    requires
        0 <= n <= c.tasks.len(),
    ensures
        join_nl(
            eight_lines(c) + render_task_lines(tasks_upto(c.tasks, n)),
        ) == join_nl_partial_eight(c) + tasks_suffix(tasks_upto(c.tasks, n)),
    decreases n,
{
    if n == 0 {
        assert(render_task_lines(tasks_upto(c.tasks, 0)) =~= Seq::<Seq<char>>::empty());
        assert(eight_lines(c) + render_task_lines(tasks_upto(c.tasks, 0)) =~= eight_lines(c));
        lemma_join_eight(c);
    } else {
        lemma_join_tasks(c, n - 1);
        let prev = tasks_upto(c.tasks, n - 1);
        let cur = tasks_upto(c.tasks, n);
        assert(cur =~= prev.push(c.tasks[n - 1]));
        lemma_render_task_lines_push(prev, c.tasks[n - 1]);
        assert(eight_lines(c) + render_task_lines(cur) =~= (eight_lines(c) + render_task_lines(
            prev,
        )).push(render_task_line(c.tasks[n - 1].0, c.tasks[n - 1].1)));
        lemma_join_push_line(
            eight_lines(c) + render_task_lines(prev),
            render_task_line(c.tasks[n - 1].0, c.tasks[n - 1].1),
        );
        lemma_tasks_suffix_push(prev, c.tasks[n - 1]);
        assert((join_nl_partial_eight(c) + tasks_suffix(prev)) + "\n"@ + render_task_line(
            c.tasks[n - 1].0,
            c.tasks[n - 1].1,
        ) =~= join_nl_partial_eight(c) + (tasks_suffix(prev) + "\n"@ + render_task_line(
            c.tasks[n - 1].0,
            c.tasks[n - 1].1,
        )));
    }
}

proof fn lemma_render_task_lines_push(tasks: Seq<(Seq<char>, Seq<Seq<char>>)>, t: (
    Seq<char>,
    Seq<Seq<char>>,
))
    ensures
        render_task_lines(tasks.push(t)) =~= render_task_lines(tasks).push(
            render_task_line(t.0, t.1),
        ),
    decreases tasks.len(),
{
    if tasks.len() == 0 {
        assert(tasks.push(t)[0] == t);
        assert(tasks.push(t).drop_first() =~= Seq::<(Seq<char>, Seq<Seq<char>>)>::empty());
        assert(render_task_lines(Seq::<(Seq<char>, Seq<Seq<char>>)>::empty())
            == Seq::<Seq<char>>::empty());
        assert(seq![render_task_line(t.0, t.1)] + Seq::<Seq<char>>::empty() =~= Seq::<
            Seq<char>,
        >::empty().push(render_task_line(t.0, t.1)));
    } else {
        assert(tasks.push(t)[0] == tasks[0]);
        assert(tasks.push(t).drop_first() =~= tasks.drop_first().push(t));
        lemma_render_task_lines_push(tasks.drop_first(), t);
        assert(render_task_lines(tasks.push(t)) == seq![render_task_line(
            tasks.push(t)[0].0,
            tasks.push(t)[0].1,
        )] + render_task_lines(tasks.push(t).drop_first()));
        assert(render_task_line(tasks.push(t)[0].0, tasks.push(t)[0].1) == render_task_line(
            tasks[0].0,
            tasks[0].1,
        ));
        assert(render_task_lines(tasks.push(t).drop_first()) == render_task_lines(
            tasks.drop_first(),
        ).push(render_task_line(t.0, t.1)));
        assert(render_task_lines(tasks) == seq![render_task_line(tasks[0].0, tasks[0].1)]
            + render_task_lines(tasks.drop_first()));
        assert(seq![render_task_line(tasks[0].0, tasks[0].1)] + render_task_lines(
            tasks.drop_first(),
        ).push(render_task_line(t.0, t.1)) =~= (seq![render_task_line(tasks[0].0, tasks[0].1)]
            + render_task_lines(tasks.drop_first())).push(render_task_line(t.0, t.1)));
    }
}

/// The eight fixed lines of the rendered form.
pub open spec fn eight_lines(c: SpecConfig) -> Seq<Seq<char>> {
    seq![
        render_header("project"@),
        render_str_line("name"@, c.name),
        Seq::<char>::empty(),
        render_header("check"@),
        render_task_line("linters"@, c.linters),
        render_task_line("testers"@, c.testers),
        Seq::<char>::empty(),
        render_header("tasks"@),
    ]
}

/// `render_lines` is the eight fixed lines followed by the task lines.
pub open spec fn render_task_lines_upto_all(c: SpecConfig) -> bool {
    render_lines(c) == eight_lines(c) + render_task_lines(c.tasks)
}

#[verifier::rlimit(60)]
proof fn lemma_join_eight(c: SpecConfig)
    ensures
        join_nl(eight_lines(c)) == join_nl_partial_eight(c),
{
    let ls = eight_lines(c);
    let l7 = seq![render_header("tasks"@)];
    let l6 = seq![Seq::<char>::empty(), render_header("tasks"@)];
    let l5 = seq![
        render_task_line("testers"@, c.testers),
        Seq::<char>::empty(),
        render_header("tasks"@),
    ];
    let l4 = seq![
        render_task_line("linters"@, c.linters),
        render_task_line("testers"@, c.testers),
        Seq::<char>::empty(),
        render_header("tasks"@),
    ];
    let l3 = seq![
        render_header("check"@),
        render_task_line("linters"@, c.linters),
        render_task_line("testers"@, c.testers),
        Seq::<char>::empty(),
        render_header("tasks"@),
    ];
    let l2 = seq![
        Seq::<char>::empty(),
        render_header("check"@),
        render_task_line("linters"@, c.linters),
        render_task_line("testers"@, c.testers),
        Seq::<char>::empty(),
        render_header("tasks"@),
    ];
    let l1 = seq![
        render_str_line("name"@, c.name),
        Seq::<char>::empty(),
        render_header("check"@),
        render_task_line("linters"@, c.linters),
        render_task_line("testers"@, c.testers),
        Seq::<char>::empty(),
        render_header("tasks"@),
    ];
    assert(join_nl(l7) == render_header("tasks"@));
    assert(l6.drop_first() =~= l7);
    assert(join_nl(l6) == l6[0] + "\n"@ + join_nl(l7));
    assert(l5.drop_first() =~= l6);
    assert(join_nl(l5) == l5[0] + "\n"@ + join_nl(l6));
    assert(l4.drop_first() =~= l5);
    assert(join_nl(l4) == l4[0] + "\n"@ + join_nl(l5));
    assert(l3.drop_first() =~= l4);
    assert(join_nl(l3) == l3[0] + "\n"@ + join_nl(l4));
    assert(l2.drop_first() =~= l3);
    assert(join_nl(l2) == l2[0] + "\n"@ + join_nl(l3));
    assert(l1.drop_first() =~= l2);
    assert(join_nl(l1) == l1[0] + "\n"@ + join_nl(l2));
    assert(ls.drop_first() =~= l1);
    assert(join_nl(ls) == ls[0] + "\n"@ + join_nl(l1));
    assert(join_nl(ls) =~= join_nl_partial_eight(c));
}

} // verus!
