//! The loaded project configuration and the loader around the parser.
//!
//! `Config` is the structured form of the marker file: project metadata, the
//! check command lists, and the named tasks. The task table is an ordered
//! association list, keeping each task's commands in declaration order;
//! lookup is by exact name.

use vstd::prelude::*;

use crate::errors::AoError;
use crate::errors::ErrorKind;
use crate::errors::config_not_found_msg;
use crate::errors::config_parse_msg;
use crate::errors::config_read_msg;
use crate::parse::ELine;
use crate::parse::EVal;
use crate::parse::Section;
use crate::parse::SpecConfig;
use crate::parse::SpecState;
use crate::parse::describe_val_x;
use crate::parse::init_state;
use crate::parse::lines_view;
use crate::parse::parse_doc;
use crate::parse::parse_line;
use crate::parse::parse_line_x;
use crate::parse::run_lines;
use crate::parse::split_lines;
use crate::parse::split_lines_x;
use crate::parse::step_line;
use crate::parse::strings_view;
use crate::parse::task_defined;
use crate::parse::val_as_string_list;
use crate::parse::val_as_string_list_x;
use crate::text::chars_vec;
use crate::text::str_eq;
use crate::text::string_of;
use crate::text::vec_str_eq;

verus! {

/// The `[project]` table: the mandatory project name.
#[derive(Debug)]
pub struct ProjectConfig {
    pub name: String,
}

/// The `[check]` table: the linter and tester command lists, each empty when
/// absent.
#[derive(Debug)]
pub struct CheckConfig {
    pub linters: Vec<String>,
    pub testers: Vec<String>,
}

/// A parsed marker configuration file.
#[derive(Debug)]
pub struct Config {
    pub project: ProjectConfig,
    pub check: CheckConfig,
    /// The named tasks in declaration order; names are unique.
    pub tasks: Vec<(String, Vec<String>)>,
}

pub open spec fn tasks_view(ts: Seq<(String, Vec<String>)>) -> Seq<(Seq<char>, Seq<Seq<char>>)> {
    ts.map_values(|t: (String, Vec<String>)| (t.0@, strings_view(t.1@)))
}

impl View for Config {
    type V = SpecConfig;

    open spec fn view(&self) -> SpecConfig {
        SpecConfig {
            name: self.project.name@,
            linters: strings_view(self.check.linters@),
            testers: strings_view(self.check.testers@),
            tasks: tasks_view(self.tasks@),
        }
    }
}

proof fn lemma_tasks_view_push(ts: Seq<(String, Vec<String>)>, pair: (String, Vec<String>))
    ensures
        tasks_view(ts.push(pair)) =~= tasks_view(ts).push((pair.0@, strings_view(pair.1@))),
{
    assert forall|k: int| 0 <= k < ts.push(pair).len() implies tasks_view(ts.push(pair))[k] == (
    tasks_view(ts).push((pair.0@, strings_view(pair.1@))))[k] by {
        if k < ts.len() {
            assert(ts.push(pair)[k] == ts[k]);
        }
    }
}

// ===== the executable document fold =====

/// The reader's state between lines: the executable counterpart of
/// [`SpecState`].
pub struct Builder {
    pub section: Section,
    pub seen_project: bool,
    pub seen_check: bool,
    pub seen_tasks: bool,
    pub name: Option<String>,
    pub linters: Option<Vec<String>>,
    pub testers: Option<Vec<String>>,
    pub tasks: Vec<(String, Vec<String>)>,
}

impl View for Builder {
    type V = SpecState;

    open spec fn view(&self) -> SpecState {
        SpecState {
            section: self.section,
            seen_project: self.seen_project,
            seen_check: self.seen_check,
            seen_tasks: self.seen_tasks,
            name: match self.name {
                Some(ref s) => Some(s@),
                None => None,
            },
            linters: match self.linters {
                Some(ref x) => Some(strings_view(x@)),
                None => None,
            },
            testers: match self.testers {
                Some(ref x) => Some(strings_view(x@)),
                None => None,
            },
            tasks: tasks_view(self.tasks@),
        }
    }
}

fn task_defined_x(tasks: &Vec<(String, Vec<String>)>, k: &Vec<char>) -> (r: bool)
    ensures
        r == task_defined(tasks_view(tasks@), k@),
{
    let kk = string_of(k);
    let mut i: usize = 0;
    while i < tasks.len()
        invariant
            i <= tasks@.len(),
            kk@ == k@,
            forall|j: int| 0 <= j < i ==> tasks_view(tasks@)[j].0 != k@,
        decreases tasks@.len() - i,
    {
        if str_eq(tasks[i].0.as_str(), kk.as_str()) {
            proof {
                assert(tasks_view(tasks@)[i as int].0 == k@);
            }
            return true;
        }
        proof {
            assert(tasks_view(tasks@)[i as int].0 == tasks@[i as int].0@);
        }
        i = i + 1;
    }
    false
}

/// Applies one parsed line to the builder, as [`step_line`] specifies.
fn step_line_x(st: Builder, line: ELine) -> (r: Result<Builder, String>)
    ensures
        match r {
            Ok(st2) => step_line(st@, line@) matches Ok(sp) && st2@ == sp,
            Err(m) => step_line(st@, line@) matches Err(d) && m@ == d,
        },
{
    match line {
        ELine::Blank => Ok(st),
        ELine::Header(h) => {
            if vec_str_eq(&h, "project") {
                if st.seen_project {
                    Err(String::from_str("duplicate table `project`"))
                } else {
                    Ok(Builder { section: Section::Project, seen_project: true, ..st })
                }
            } else if vec_str_eq(&h, "check") {
                if st.seen_check {
                    Err(String::from_str("duplicate table `check`"))
                } else {
                    Ok(Builder { section: Section::Check, seen_check: true, ..st })
                }
            } else if vec_str_eq(&h, "tasks") {
                if st.seen_tasks {
                    Err(String::from_str("duplicate table `tasks`"))
                } else {
                    Ok(Builder { section: Section::Tasks, seen_tasks: true, ..st })
                }
            } else {
                Ok(Builder { section: Section::Other, ..st })
            }
        },
        ELine::KeyVal(k, v) => match st.section {
            Section::Top => Ok(st),
            Section::Other => Ok(st),
            Section::Project => {
                if vec_str_eq(&k, "name") {
                    if st.name.is_some() {
                        Err(String::from_str("duplicate key `name`"))
                    } else {
                        match v {
                            EVal::VStr(s) => {
                                let text = string_of(&s);
                                Ok(Builder { name: Some(text), ..st })
                            },
                            other => {
                                let found = describe_val_x(&other);
                                Err(
                                    String::from_str("invalid type: expected ").concat(
                                        "string",
                                    ).concat(", found ").concat(found.as_str()),
                                )
                            },
                        }
                    }
                } else {
                    Ok(st)
                }
            },
            Section::Check => {
                if vec_str_eq(&k, "linters") {
                    if st.linters.is_some() {
                        Err(String::from_str("duplicate key `linters`"))
                    } else {
                        match val_as_string_list_x(v) {
                            Ok(ss) => Ok(Builder { linters: Some(ss), ..st }),
                            Err(m) => Err(m),
                        }
                    }
                } else if vec_str_eq(&k, "testers") {
                    if st.testers.is_some() {
                        Err(String::from_str("duplicate key `testers`"))
                    } else {
                        match val_as_string_list_x(v) {
                            Ok(ss) => Ok(Builder { testers: Some(ss), ..st }),
                            Err(m) => Err(m),
                        }
                    }
                } else {
                    Ok(st)
                }
            },
            Section::Tasks => {
                if task_defined_x(&st.tasks, &k) {
                    let ktext = string_of(&k);
                    let msg = String::from_str("duplicate key `").concat(ktext.as_str()).concat(
                        "`",
                    );
                    Err(msg)
                } else {
                    match val_as_string_list_x(v) {
                        Ok(ss) => {
                            let ktext = string_of(&k);
                            let mut st2 = st;
                            let ghost pre = st2.tasks@;
                            st2.tasks.push((ktext, ss));
                            proof {
                                lemma_tasks_view_push(pre, (ktext, ss));
                            }
                            st2.section = Section::Tasks;
                            Ok(st2)
                        },
                        Err(m) => Err(m),
                    }
                }
            },
        },
    }
}

// ===== the loader =====

/// Parses the marker file's text into a [`Config`], or fails with the parse
/// diagnostic, wrapped in the loader's context. The returned error names the
/// offending field or value whenever the grammar knows it.
pub fn parse_config(text: &str) -> (r: Result<Config, AoError>)
    ensures
        match r {
            Ok(c) => parse_doc(text@) matches Ok(sc) && c@ == sc,
            Err(e) => parse_doc(text@) matches Err(d) && e.kind == ErrorKind::ConfigParse
                && e.message@ == config_parse_msg(d),
        },
{
    let cs = chars_vec(text);
    let lines = split_lines_x(&cs);
    let ghost lseq = lines_view(lines@);
    let mut st = Builder {
        section: Section::Top,
        seen_project: false,
        seen_check: false,
        seen_tasks: false,
        name: None,
        linters: None,
        testers: None,
        tasks: Vec::new(),
    };
    proof {
        assert(tasks_view(Seq::<(String, Vec<String>)>::empty()) =~= Seq::<(
            Seq<char>,
            Seq<Seq<char>>,
        )>::empty());
        assert(st@ == init_state());
        assert(lseq.skip(0) =~= lseq);
    }
    let mut i: usize = 0;
    while i < lines.len()
        invariant
            i <= lines@.len(),
            lseq == lines_view(lines@),
            lseq == split_lines(text@),
            run_lines(lseq, init_state()) == run_lines(lseq.skip(i as int), st@),
        decreases lines@.len() - i,
    {
        proof {
            assert(lseq.skip(i as int)[0] == lseq[i as int]);
            assert(lseq[i as int] == lines@[i as int]@);
        }
        let line_res = parse_line_x(&lines[i]);
        match line_res {
            Ok(li) => {
                let ghost prev = st@;
                match step_line_x(st, li) {
                    Ok(st2) => {
                        st = st2;
                        proof {
                            assert(lseq.skip(i as int).drop_first() =~= lseq.skip(i as int + 1));
                            assert(run_lines(lseq.skip(i as int), prev) == run_lines(
                                lseq.skip(i as int + 1),
                                st@,
                            ));
                        }
                    },
                    Err(m) => {
                        proof {
                            assert(run_lines(lseq.skip(i as int), prev) matches Err(d) && d == m@);
                        }
                        return Err(AoError::config_parse(m.as_str()));
                    },
                }
            },
            Err(m) => {
                proof {
                    assert(run_lines(lseq.skip(i as int), st@) matches Err(d) && d == m@);
                }
                return Err(AoError::config_parse(m.as_str()));
            },
        }
        i = i + 1;
    }
    proof {
        assert(lseq.skip(lines@.len() as int) =~= Seq::<Seq<char>>::empty());
        assert(run_lines(lseq, init_state()) == Ok::<SpecState, Seq<char>>(st@));
    }
    if !st.seen_project {
        return Err(AoError::config_parse("missing field `project`"));
    }
    match st.name {
        None => Err(AoError::config_parse("missing field `name`")),
        Some(n) => {
            if n.as_str().is_empty() {
                Err(AoError::config_parse("project name must be non-empty"))
            } else {
                let linters = match st.linters {
                    Some(x) => x,
                    None => Vec::new(),
                };
                let testers = match st.testers {
                    Some(x) => x,
                    None => Vec::new(),
                };
                proof {
                    assert(strings_view(Seq::<String>::empty()) =~= Seq::<Seq<char>>::empty());
                }
                Ok(
                    Config {
                        project: ProjectConfig { name: n },
                        check: CheckConfig { linters, testers },
                        tasks: st.tasks,
                    },
                )
            }
        },
    }
}

/// What the caller found when probing and reading the marker file at the
/// project root. Reading the file is the caller's work; interpreting what it
/// found is the loader's.
#[derive(Debug)]
pub enum ConfigSource {
    /// The marker file does not exist at this path.
    Missing { path: String },
    /// The marker file exists but could not be read; `cause` is the
    /// operating system's message.
    Unreadable { path: String, cause: String },
    /// The marker file's text.
    Text { content: String },
}

/// Loads the configuration from what the caller found at the project root:
/// a missing file, an unreadable file, or its text, which is parsed.
pub fn load_config(src: &ConfigSource) -> (r: Result<Config, AoError>)
    ensures
        match src {
            ConfigSource::Missing { path } => r matches Err(e) && e.kind
                == ErrorKind::ConfigNotFound && e.message@ == config_not_found_msg(path@),
            ConfigSource::Unreadable { path, cause } => r matches Err(e) && e.kind
                == ErrorKind::ConfigRead && e.message@ == config_read_msg(path@, cause@),
            ConfigSource::Text { content } => (match r {
                Ok(c) => parse_doc(content@) matches Ok(sc) && c@ == sc,
                Err(e) => parse_doc(content@) matches Err(d) && e.kind == ErrorKind::ConfigParse
                    && e.message@ == config_parse_msg(d),
            }),
        },
{
    match src {
        ConfigSource::Missing { path } => Err(AoError::config_not_found(path.as_str())),
        ConfigSource::Unreadable { path, cause } => Err(
            AoError::config_read(path.as_str(), cause.as_str()),
        ),
        ConfigSource::Text { content } => parse_config(content.as_str()),
    }
}

// ===== task lookup =====

/// The commands of the first task with the given name, if any. With unique
/// names — which parsing guarantees — this is plain map lookup.
pub open spec fn lookup_task(tasks: Seq<(Seq<char>, Seq<Seq<char>>)>, name: Seq<char>) -> Option<
    Seq<Seq<char>>,
>
    decreases tasks.len(),
{
    if tasks.len() == 0 {
        None
    } else if tasks[0].0 == name {
        Some(tasks[0].1)
    } else {
        lookup_task(tasks.drop_first(), name)
    }
}

/// Looks the task up by exact name in the configuration's task table.
pub fn find_task<'a>(config: &'a Config, name: &str) -> (r: Option<&'a Vec<String>>)
    ensures
        match r {
            Some(cmds) => lookup_task(config@.tasks, name@) == Some(strings_view(cmds@)),
            None => lookup_task(config@.tasks, name@) is None,
        },
{
    let ghost tseq = config@.tasks;
    proof {
        assert(tseq.skip(0) =~= tseq);
    }
    let mut i: usize = 0;
    while i < config.tasks.len()
        invariant
            i <= config.tasks@.len(),
            tseq == config@.tasks,
            tseq.len() == config.tasks@.len(),
            lookup_task(tseq, name@) == lookup_task(tseq.skip(i as int), name@),
        decreases config.tasks@.len() - i,
    {
        proof {
            assert(tseq[i as int] == (config.tasks@[i as int].0@, strings_view(
                config.tasks@[i as int].1@,
            )));
            assert(tseq.skip(i as int)[0] == tseq[i as int]);
        }
        if str_eq(config.tasks[i].0.as_str(), name) {
            return Some(&config.tasks[i].1);
        }
        proof {
            assert(tseq.skip(i as int).drop_first() =~= tseq.skip(i as int + 1));
        }
        i = i + 1;
    }
    proof {
        assert(tseq.skip(config.tasks@.len() as int) =~= Seq::<(Seq<char>, Seq<Seq<char>>)>::empty());
    }
    None
}

} // verus!

verus! {

/// Task names are unique within the table.
pub open spec fn tasks_unique(tasks: Seq<(Seq<char>, Seq<Seq<char>>)>) -> bool {
    forall|i: int, j: int| 0 <= i < j < tasks.len() ==> tasks[i].0 != tasks[j].0
}

/// One reading step keeps the task names unique: the only step that grows
/// the table first checks that the key is not yet defined.
proof fn lemma_step_line_keeps_unique(st: SpecState, line: crate::parse::SpecLine)
    requires
        tasks_unique(st.tasks),
    ensures
        step_line(st, line) matches Ok(st2) ==> tasks_unique(st2.tasks),
{
    match step_line(st, line) {
        Err(e) => {
        },
        Ok(st2) => if st2.tasks != st.tasks {
            match line {
                crate::parse::SpecLine::KeyVal(k, v) => {
                    assert(!task_defined(st.tasks, k));
                    match val_as_string_list(v) {
                        Ok(ss) => {
                            assert(st2.tasks == st.tasks.push((k, ss)));
                            assert forall|i: int, j: int|
                                0 <= i < j < st2.tasks.len() implies st2.tasks[i].0
                                != st2.tasks[j].0 by {
                                if j < st.tasks.len() {
                                    assert(st2.tasks[i] == st.tasks[i]);
                                    assert(st2.tasks[j] == st.tasks[j]);
                                } else {
                                    assert(st2.tasks[i] == st.tasks[i]);
                                    assert(st2.tasks[j] == (k, ss));
                                    if st.tasks[i].0 == k {
                                        assert(task_defined(st.tasks, k));
                                    }
                                }
                            }
                        },
                        Err(e) => {
                            assert(false);
                        },
                    }
                },
                _ => {
                    assert(false);
                },
            }
        },
    }
}

proof fn lemma_run_lines_keeps_unique(lines: Seq<Seq<char>>, st: SpecState)
    requires
        tasks_unique(st.tasks),
    ensures
        run_lines(lines, st) matches Ok(st2) ==> tasks_unique(st2.tasks),
    decreases lines.len(),
{
    if lines.len() > 0 {
        match parse_line(lines[0]) {
            Err(e) => {
            },
            Ok(li) => match step_line(st, li) {
                Err(e) => {
                },
                Ok(stn) => {
                    lemma_step_line_keeps_unique(st, li);
                    lemma_run_lines_keeps_unique(lines.drop_first(), stn);
                },
            },
        }
    }
}

/// The loader's table invariant: whatever text the configuration was
/// parsed from, its task names are unique.
pub proof fn lemma_parsed_task_names_unique(s: Seq<char>)
    ensures
        parse_doc(s) matches Ok(c) ==> tasks_unique(c.tasks),
{
    assert(tasks_unique(init_state().tasks));
    lemma_run_lines_keeps_unique(split_lines(s), init_state());
}

} // verus!
