//! Reading the protected paths from configuration files: every line of every
//! file is expanded, and what the lines contribute is put together in the
//! order of the files and of their lines.

use vstd::prelude::*;
use crate::defaults::{default_paths, default_texts, lemma_defaults_sorted};
use crate::expand::{
    collected, is_outcome_of, lemma_collected_is_budgeted, matches_of, parse_line, LineOutcome,
    Outcome, MAX_GLOB_EXPANSION,
};
use crate::pathops::{join, joined, opt_text};
use crate::protected::{is_sorted_set_of, lemma_sorted_set_unique, sort_and_dedup};
use crate::report::{warning_views, Warning, WarningText};
use crate::text::{strictly_sorted, texts};

verus! {

/// What was found where a configuration file is expected.
#[derive(Debug, PartialEq, Eq)]
pub enum Content {
    /// There is no such file.
    Missing,
    /// The file exists but could not be opened.
    Unreadable,
    /// The file's lines, in order; `None` stands for a line that could not be
    /// read.
    Lines(Vec<Option<String>>),
}

/// One configuration file.
#[derive(Debug, PartialEq, Eq)]
pub struct ConfigFile {
    /// The name by which warnings speak of the file.
    pub name: String,
    /// What was found under that name.
    pub content: Content,
}

/// The texts of a file's lines, in order.
pub open spec fn line_views(lines: Seq<Option<String>>) -> Seq<Option<Seq<char>>> {
    Seq::new(lines.len(), |i: int| opt_text(lines[i]))
}

/// The text of a line, empty for one that could not be read.
pub open spec fn line_text(line: Option<Seq<char>>) -> Seq<char> {
    match line {
        Some(l) => l,
        None => Seq::empty(),
    }
}

/// `n` times the same warning.
pub open spec fn repeated(w: WarningText, n: nat) -> Seq<WarningText> {
    Seq::new(n, |i: int| w)
}

/// The paths that a line contributes, given its outcome.
pub open spec fn line_paths(o: Outcome) -> Seq<Seq<char>> {
    match o {
        Outcome::Expanded(c) => c.paths,
        _ => Seq::empty(),
    }
}

/// The warnings that a line gives rise to, given its outcome: one for a line
/// that is skipped; for an expanded line one for each unreadable entry, then
/// one if it was truncated.
pub open spec fn line_warnings(file: Seq<char>, line: Option<Seq<char>>, o: Outcome) -> Seq<
    WarningText,
> {
    match o {
        Outcome::UnreadableLine => seq![WarningText::UnreadableLine { file }],
        Outcome::InvalidPattern => seq![
            WarningText::InvalidPattern { file, line: line_text(line) },
        ],
        Outcome::Expanded(c) => repeated(
            WarningText::UnreadableMatch { file, line: line_text(line) },
            c.unreadable,
        ) + (if c.truncated {
            seq![WarningText::Truncated { file, line: line_text(line) }]
        } else {
            Seq::empty()
        }),
    }
}

/// A pattern with more matches than the budget allows contributes exactly the
/// budget, the first of its matches in their order, and is warned about as
/// truncated, after the warnings for what could not be read.
pub proof fn lemma_overfull_line(
    file: Seq<char>,
    line: Option<Seq<char>>,
    entries: Seq<Option<Seq<char>>>,
)
    requires
        matches_of(entries).len() > MAX_GLOB_EXPANSION,
    ensures
        line_paths(Outcome::Expanded(collected(entries))) == matches_of(entries).take(
            MAX_GLOB_EXPANSION as int,
        ),
        line_paths(Outcome::Expanded(collected(entries))).len() == MAX_GLOB_EXPANSION,
        line_warnings(file, line, Outcome::Expanded(collected(entries))).last() == (
        WarningText::Truncated { file, line: line_text(line) }),
{
    lemma_collected_is_budgeted(entries);
}

/// Adds to `paths` and `warnings` what a line contributes, given its outcome.
pub fn record_line(
    file: &str,
    line: &Option<String>,
    outcome: &LineOutcome,
    paths: &mut Vec<String>,
    warnings: &mut Vec<Warning>,
)
    ensures
        texts(final(paths)@) == texts(old(paths)@) + line_paths(outcome@),
        warning_views(final(warnings)@) == warning_views(old(warnings)@) + line_warnings(
            file@,
            opt_text(*line),
            outcome@,
        ),
{
    let text: String = match line {
        Some(l) => l.clone(),
        None => String::new(),
    };
    assert(text@ == line_text(opt_text(*line)));
    match outcome {
        LineOutcome::UnreadableLine => {
            warnings.push(Warning::UnreadableLine { file: String::from_str(file) });
            assert(texts(paths@) =~= texts(old(paths)@) + line_paths(outcome@));
            assert(warning_views(warnings@) =~= warning_views(old(warnings)@) + line_warnings(
                file@,
                opt_text(*line),
                outcome@,
            ));
        },
        LineOutcome::InvalidPattern => {
            warnings.push(Warning::InvalidPattern { file: String::from_str(file), line: text });
            assert(texts(paths@) =~= texts(old(paths)@) + line_paths(outcome@));
            assert(warning_views(warnings@) =~= warning_views(old(warnings)@) + line_warnings(
                file@,
                opt_text(*line),
                outcome@,
            ));
        },
        LineOutcome::Expanded(e) => {
            let ghost unread = WarningText::UnreadableMatch { file: file@, line: text@ };
            let ghost paths_before = texts(paths@);
            let ghost warnings_before = warning_views(warnings@);
            let ghost found = texts(e.paths@);
            let mut i: usize = 0;
            while i < e.paths.len()
                invariant
                    i <= e.paths.len(),
                    found == texts(e.paths@),
                    warning_views(warnings@) == warnings_before,
                    texts(paths@) == paths_before + found.take(i as int),
                decreases e.paths.len() - i,
            {
                let ghost was = texts(paths@);
                paths.push(e.paths[i].clone());
                proof {
                    assert(texts(paths@) =~= was.push(found[i as int]));
                    assert(found.take(i + 1) =~= found.take(i as int).push(found[i as int]));
                    assert(texts(paths@) =~= paths_before + found.take(i + 1));
                }
                i = i + 1;
            }
            assert(found.take(i as int) =~= found);
            let mut k: usize = 0;
            while k < e.unreadable
                invariant
                    k <= e.unreadable,
                    unread == (WarningText::UnreadableMatch { file: file@, line: text@ }),
                    warning_views(warnings@) == warnings_before + repeated(unread, k as nat),
                decreases e.unreadable - k,
            {
                let ghost was = warning_views(warnings@);
                warnings.push(
                    Warning::UnreadableMatch { file: String::from_str(file), line: text.clone() },
                );
                proof {
                    assert(warning_views(warnings@) =~= was.push(unread));
                    assert(repeated(unread, (k + 1) as nat) =~= repeated(unread, k as nat).push(
                        unread,
                    ));
                    assert(warning_views(warnings@) =~= warnings_before + repeated(
                        unread,
                        (k + 1) as nat,
                    ));
                }
                k = k + 1;
            }
            let ghost counted = warning_views(warnings@);
            if e.truncated {
                warnings.push(Warning::Truncated { file: String::from_str(file), line: text });
                assert(warning_views(warnings@) =~= counted.push(
                    WarningText::Truncated { file: file@, line: text@ },
                ));
            }
            assert(warning_views(warnings@) =~= warnings_before + line_warnings(
                file@,
                opt_text(*line),
                outcome@,
            ));
        },
    }
}

/// The paths that a file's lines contribute, given the outcome of each.
pub open spec fn lines_paths(outs: Seq<Outcome>) -> Seq<Seq<char>>
    decreases outs.len(),
{
    if outs.len() == 0 {
        Seq::empty()
    } else {
        lines_paths(outs.drop_last()) + line_paths(outs.last())
    }
}

/// The warnings that a file's lines give rise to, given the outcome of each.
pub open spec fn lines_warnings(
    file: Seq<char>,
    lines: Seq<Option<Seq<char>>>,
    outs: Seq<Outcome>,
) -> Seq<WarningText>
    decreases outs.len(),
{
    if outs.len() == 0 || lines.len() != outs.len() {
        Seq::empty()
    } else {
        lines_warnings(file, lines.drop_last(), outs.drop_last()) + line_warnings(
            file,
            lines.last(),
            outs.last(),
        )
    }
}

/// Each line has one of the outcomes that it can have.
pub open spec fn are_outcomes_of(outs: Seq<Outcome>, lines: Seq<Option<Seq<char>>>) -> bool {
    &&& outs.len() == lines.len()
    &&& forall|i: int| 0 <= i < outs.len() ==> is_outcome_of(#[trigger] outs[i], lines[i])
}

/// `paths` and `warnings` are what the lines of a file contribute, for some
/// outcome of each line.
pub open spec fn is_reading_of(
    file: Seq<char>,
    lines: Seq<Option<Seq<char>>>,
    paths: Seq<Seq<char>>,
    warnings: Seq<WarningText>,
) -> bool {
    exists|outs: Seq<Outcome>|
        are_outcomes_of(outs, lines) && paths == lines_paths(outs) && warnings
            == #[trigger] lines_warnings(file, lines, outs)
}

/// `after` is `before` with more at its end.
pub open spec fn extends(after: Seq<WarningText>, before: Seq<WarningText>) -> bool {
    before.len() <= after.len() && after.take(before.len() as int) == before
}

/// The protected paths that one configuration file contributes.
///
/// A missing file contributes nothing and is not warned about. A file that
/// could not be opened gives `None` and one warning. Of any other file every
/// line is expanded, and what the lines contribute is put together in their
/// order.
pub fn read_config(file: &ConfigFile, warnings: &mut Vec<Warning>) -> (r: Option<Vec<String>>)
    ensures
        extends(warning_views(final(warnings)@), warning_views(old(warnings)@)),
        file.content is Missing ==> (r matches Some(p) && p@.len() == 0 && warning_views(
            final(warnings)@,
        ) == warning_views(old(warnings)@)),
        file.content is Unreadable ==> r is None && warning_views(final(warnings)@)
            == warning_views(old(warnings)@).push(WarningText::CannotOpen { file: file.name@ }),
        file.content matches Content::Lines(ls) ==> (r matches Some(p) && is_reading_of(
            file.name@,
            line_views(ls@),
            texts(p@),
            warning_views(final(warnings)@).skip(old(warnings)@.len() as int),
        )),
{
    let ghost before = warning_views(warnings@);
    let mut paths: Vec<String> = Vec::new();
    match &file.content {
        Content::Missing => {
            assert(before.take(before.len() as int) =~= before);
            Some(paths)
        },
        Content::Unreadable => {
            warnings.push(Warning::CannotOpen { file: file.name.clone() });
            assert(warning_views(warnings@) =~= before.push(
                WarningText::CannotOpen { file: file.name@ },
            ));
            assert(warning_views(warnings@).take(before.len() as int) =~= before);
            None
        },
        Content::Lines(ls) => {
            let ghost lines = line_views(ls@);
            let ghost mut outs: Seq<Outcome> = Seq::empty();
            let mut i: usize = 0;
            assert(texts(paths@) =~= lines_paths(outs));
            assert(warning_views(warnings@) =~= before + lines_warnings(
                file.name@,
                lines.take(0),
                outs,
            ));
            while i < ls.len()
                invariant
                    i <= ls.len(),
                    lines == line_views(ls@),
                    are_outcomes_of(outs, lines.take(i as int)),
                    texts(paths@) == lines_paths(outs),
                    warning_views(warnings@) == before + lines_warnings(
                        file.name@,
                        lines.take(i as int),
                        outs,
                    ),
                decreases ls.len() - i,
            {
                let outcome = parse_line(&ls[i]);
                record_line(file.name.as_str(), &ls[i], &outcome, &mut paths, warnings);
                proof {
                    let next = outs.push(outcome@);
                    assert(next.drop_last() =~= outs);
                    assert(lines.take(i + 1).drop_last() =~= lines.take(i as int));
                    assert(lines.take(i + 1).last() == opt_text(ls@[i as int]));
                    assert(warning_views(warnings@) =~= before + lines_warnings(
                        file.name@,
                        lines.take(i + 1),
                        next,
                    ));
                    outs = next;
                }
                i = i + 1;
            }
            proof {
                assert(lines.take(i as int) =~= lines);
                let added = lines_warnings(file.name@, lines, outs);
                assert(warning_views(warnings@).skip(before.len() as int) =~= added);
                assert(warning_views(warnings@).take(before.len() as int) =~= before);
            }
            Some(paths)
        },
    }
}

/// The paths to protect, given what the configuration contributed: the
/// default paths where it contributed nothing.
pub open spec fn effective_paths(collected: Seq<Seq<char>>) -> Seq<Seq<char>> {
    if collected.len() == 0 {
        default_texts()
    } else {
        collected
    }
}

/// Makes the set of protected paths from what the configuration contributed:
/// the default paths take the place of an empty contribution, and the paths
/// are then sorted and each of them kept once.
pub fn protected_set(collected: &Vec<String>) -> (r: Vec<String>)
    ensures
        is_sorted_set_of(texts(r@), effective_paths(texts(collected@))),
        collected@.len() == 0 ==> texts(r@) == default_texts(),
        r@.len() > 0,
{
    let r = if collected.len() == 0 {
        let defaults = default_paths();
        let sorted = sort_and_dedup(&defaults);
        proof {
            lemma_defaults_sorted();
            lemma_sorted_set_unique(texts(sorted@), default_texts());
        }
        sorted
    } else {
        sort_and_dedup(collected)
    };
    proof {
        let src = effective_paths(texts(collected@));
        assert(src.len() > 0);
        assert(src.contains(src[0]));
        assert(texts(r@).contains(src[0]));
    }
    r
}

/// The paths that reading one file gave, none where it could not be opened.
pub open spec fn found_paths(found: Option<Vec<String>>) -> Seq<Seq<char>> {
    match found {
        Some(paths) => texts(paths@),
        None => Seq::empty(),
    }
}

/// What one configuration file contributed.
pub struct Reading {
    /// The paths, in the order of the lines.
    pub paths: Seq<Seq<char>>,
    /// The warnings, in the order in which they arose.
    pub warnings: Seq<WarningText>,
}

/// `r` is what the file can contribute: nothing for a missing file; one
/// warning for a file that could not be opened; and else what its lines
/// contribute, for some outcome of each line.
pub open spec fn is_reading_of_file(r: Reading, file: ConfigFile) -> bool {
    match file.content {
        Content::Missing => r.paths.len() == 0 && r.warnings.len() == 0,
        Content::Unreadable => r.paths.len() == 0 && r.warnings == seq![
            WarningText::CannotOpen { file: file.name@ },
        ],
        Content::Lines(ls) => is_reading_of(file.name@, line_views(ls@), r.paths, r.warnings),
    }
}

/// Each file has contributed what it can contribute.
pub open spec fn are_readings_of(rs: Seq<Reading>, files: Seq<ConfigFile>) -> bool {
    &&& rs.len() == files.len()
    &&& forall|i: int| 0 <= i < rs.len() ==> is_reading_of_file(#[trigger] rs[i], files[i])
}

/// The paths of all the files, in the order of the files.
pub open spec fn all_paths(rs: Seq<Reading>) -> Seq<Seq<char>>
    decreases rs.len(),
{
    if rs.len() == 0 {
        Seq::empty()
    } else {
        all_paths(rs.drop_last()) + rs.last().paths
    }
}

/// The warnings of all the files, in the order of the files.
pub open spec fn all_warnings(rs: Seq<Reading>) -> Seq<WarningText>
    decreases rs.len(),
{
    if rs.len() == 0 {
        Seq::empty()
    } else {
        all_warnings(rs.drop_last()) + rs.last().warnings
    }
}

/// No file has a line to expand.
pub open spec fn without_lines(files: Seq<ConfigFile>) -> bool {
    forall|i: int|
        0 <= i < files.len() ==> match (#[trigger] files[i]).content {
            Content::Lines(ls) => ls@.len() == 0,
            _ => true,
        }
}

/// Files without a line to expand contribute no path.
pub proof fn lemma_without_lines(rs: Seq<Reading>, files: Seq<ConfigFile>)
    requires
        are_readings_of(rs, files),
        without_lines(files),
    ensures
        all_paths(rs).len() == 0,
    decreases rs.len(),
{
    if rs.len() > 0 {
        let last = rs.len() - 1;
        assert(is_reading_of_file(rs[last], files[last]));
        assert(are_readings_of(rs.drop_last(), files.drop_last()));
        assert(without_lines(files.drop_last())) by {
            assert forall|i: int| 0 <= i < files.drop_last().len() implies match (
            #[trigger] files.drop_last()[i]).content {
                Content::Lines(ls) => ls@.len() == 0,
                _ => true,
            } by {
                assert(files.drop_last()[i] == files[i]);
            }
        }
        lemma_without_lines(rs.drop_last(), files.drop_last());
        match files[last].content {
            Content::Lines(ls) => {
                let outs = choose|outs: Seq<Outcome>|
                    are_outcomes_of(outs, line_views(ls@)) && rs[last].paths == lines_paths(outs);
                assert(outs.len() == 0);
            },
            _ => {},
        }
    }
}

/// Every file that could not be opened is warned about.
pub proof fn lemma_cannot_open_is_warned(rs: Seq<Reading>, files: Seq<ConfigFile>, i: int)
    requires
        are_readings_of(rs, files),
        0 <= i < files.len(),
        files[i].content is Unreadable,
    ensures
        all_warnings(rs).contains(WarningText::CannotOpen { file: files[i].name@ }),
    decreases rs.len(),
{
    let last = rs.len() - 1;
    let w = WarningText::CannotOpen { file: files[i].name@ };
    let before = all_warnings(rs.drop_last());
    if i == last {
        assert(is_reading_of_file(rs[last], files[last]));
        assert(rs.last().warnings[0] == w);
        assert(all_warnings(rs)[before.len() as int] == w);
    } else {
        assert(are_readings_of(rs.drop_last(), files.drop_last()));
        lemma_cannot_open_is_warned(rs.drop_last(), files.drop_last(), i);
        let k = choose|k: int| 0 <= k < before.len() && before[k] == w;
        assert(all_warnings(rs)[k] == w);
    }
}

/// The protected paths `set` and the warnings `added` are what reading the
/// files gives, for some outcome of each line: what the files contribute is
/// put together in their order, the default paths take the place of an empty
/// contribution, and the paths are sorted and each of them kept once.
pub open spec fn is_loading_of(
    files: Seq<ConfigFile>,
    set: Seq<Seq<char>>,
    added: Seq<WarningText>,
) -> bool {
    exists|rs: Seq<Reading>| #[trigger]
        are_readings_of(rs, files) && added == all_warnings(rs) && is_sorted_set_of(
            set,
            effective_paths(all_paths(rs)),
        )
}

/// Reads the protected paths from the configuration files, in their order.
///
/// What the files contribute is put together, the default paths take the
/// place of an empty contribution, and the paths are sorted and each of them
/// kept once. So the result is never empty and in strictly ascending order,
/// and where no file has a line to expand it is the default list. The warnings
/// are added to those that were there; each file that could not be opened is
/// among them.
pub fn read_config_files(files: &Vec<ConfigFile>, warnings: &mut Vec<Warning>) -> (r: Vec<String>)
    ensures
        extends(warning_views(final(warnings)@), warning_views(old(warnings)@)),
        is_loading_of(
            files@,
            texts(r@),
            warning_views(final(warnings)@).skip(old(warnings)@.len() as int),
        ),
        strictly_sorted(texts(r@)),
        r@.len() > 0,
        without_lines(files@) ==> texts(r@) == default_texts(),
        forall|i: int|
            0 <= i < files@.len() && (#[trigger] files@[i]).content is Unreadable
                ==> warning_views(final(warnings)@).contains(
                WarningText::CannotOpen { file: files@[i].name@ },
            ),
{
    let ghost before = warning_views(warnings@);
    let ghost mut rs: Seq<Reading> = Seq::empty();
    let mut collected: Vec<String> = Vec::new();
    let mut i: usize = 0;
    assert(texts(collected@) =~= all_paths(rs));
    assert(warning_views(warnings@) =~= before + all_warnings(rs));
    while i < files.len()
        invariant
            i <= files.len(),
            are_readings_of(rs, files@.take(i as int)),
            texts(collected@) == all_paths(rs),
            warning_views(warnings@) == before + all_warnings(rs),
        decreases files.len() - i,
    {
        let ghost was = warning_views(warnings@);
        let ghost had = texts(collected@);
        let found = read_config(&files[i], warnings);
        let ghost now = warning_views(warnings@);
        let ghost added = now.skip(was.len() as int);
        assert(now =~= was + added) by {
            assert(now.take(was.len() as int) == was);
            assert forall|k: int| 0 <= k < was.len() implies now[k] == was[k] by {
                assert(now.take(was.len() as int)[k] == was[k]);
            }
        }
        let ghost got = found_paths(found);
        match found {
            Some(mut paths) => {
                collected.append(&mut paths);
            },
            None => {},
        }
        proof {
            assert(texts(collected@) =~= had + got);
            let reading = Reading { paths: got, warnings: added };
            assert(is_reading_of_file(reading, files@[i as int])) by {
                match files@[i as int].content {
                    Content::Missing => {
                        assert(got.len() == 0);
                    },
                    Content::Unreadable => {
                        assert(added =~= seq![
                            WarningText::CannotOpen { file: files@[i as int].name@ },
                        ]);
                    },
                    Content::Lines(ls) => {},
                }
            }
            let next = rs.push(reading);
            assert(next.drop_last() =~= rs);
            assert forall|k: int| 0 <= k < next.len() implies is_reading_of_file(
                #[trigger] next[k],
                files@.take(i + 1)[k],
            ) by {
                if k < i {
                    assert(next[k] == rs[k]);
                    assert(files@.take(i + 1)[k] == files@.take(i as int)[k]);
                }
            }
            assert(warning_views(warnings@) =~= before + all_warnings(next));
            rs = next;
        }
        i = i + 1;
    }
    let r = protected_set(&collected);
    proof {
        assert(files@.take(i as int) =~= files@);
        let added = all_warnings(rs);
        let now = warning_views(warnings@);
        assert(now.skip(before.len() as int) =~= added);
        assert(now.take(before.len() as int) =~= before);
        if without_lines(files@) {
            lemma_without_lines(rs, files@);
        }
        assert forall|k: int|
            0 <= k < files@.len() && (#[trigger] files@[k]).content is Unreadable implies now.contains(
            WarningText::CannotOpen { file: files@[k].name@ },
        ) by {
            lemma_cannot_open_is_warned(rs, files@, k);
            let w = WarningText::CannotOpen { file: files@[k].name@ };
            let j = choose|j: int| 0 <= j < added.len() && added[j] == w;
            assert(now[before.len() + j] == w);
        }
    }
    r
}

/// The names of the configuration files to read, in the order in which they
/// are read: the global ones, then the local ones under the home directory.
/// Without a home directory the local ones are left out.
pub open spec fn config_file_names(
    globals: Seq<Seq<char>>,
    locals: Seq<Seq<char>>,
    home: Option<Seq<char>>,
) -> Seq<Seq<char>> {
    match home {
        Some(h) => globals + Seq::new(locals.len(), |i: int| joined(h, locals[i])),
        None => globals,
    }
}

/// Lists the configuration files to read.
pub fn config_files(globals: &Vec<String>, locals: &Vec<String>, home: &Option<String>) -> (r:
    Vec<String>)
    ensures
        texts(r@) == config_file_names(texts(globals@), texts(locals@), opt_text(*home)),
{
    let mut names: Vec<String> = Vec::new();
    let mut i: usize = 0;
    while i < globals.len()
        invariant
            i <= globals.len(),
            texts(names@) == texts(globals@).take(i as int),
        decreases globals.len() - i,
    {
        let ghost was = texts(names@);
        names.push(globals[i].clone());
        proof {
            let src = texts(globals@);
            assert(texts(names@) =~= was.push(src[i as int]));
            assert(src.take(i + 1) =~= src.take(i as int).push(src[i as int]));
        }
        i = i + 1;
    }
    assert(texts(globals@).take(i as int) =~= texts(globals@));
    match home {
        Some(h) => {
            let ghost under = Seq::new(locals@.len(), |i: int| joined(h@, texts(locals@)[i]));
            let mut k: usize = 0;
            assert(texts(names@) =~= texts(globals@) + under.take(0));
            while k < locals.len()
                invariant
                    k <= locals.len(),
                    under == Seq::new(locals@.len(), |i: int| joined(h@, texts(locals@)[i])),
                    texts(names@) == texts(globals@) + under.take(k as int),
                decreases locals.len() - k,
            {
                let ghost was = texts(names@);
                names.push(join(h.as_str(), locals[k].as_str()));
                proof {
                    assert(texts(names@) =~= was.push(under[k as int]));
                    assert(under.take(k + 1) =~= under.take(k as int).push(under[k as int]));
                    assert(texts(names@) =~= texts(globals@) + under.take(k + 1));
                }
                k = k + 1;
            }
            assert(under.take(k as int) =~= under);
        },
        None => {},
    }
    names
}

} // verus!
