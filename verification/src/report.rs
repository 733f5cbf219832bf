//! From what a command printed to what a tool reports.

use vstd::prelude::*;
use crate::order::{lemma_sorted_unique, sorted_unique, strictly_sorted};
use crate::text::{chars_of, concat3, first_line, first_line_of, is_space, is_str, is_whitespace,
    join, joined, lemma_views_push, lemma_views_take, lines_of, slice, split_lines, text_of,
    trim, trimmed, views};
use crate::tools::{MAX_HELP_LINES, MAX_SIMILAR, MAX_SYNOPSIS_LINES, ToolResult, ToolResultView,
    failed, succeeded};

verus! {

/// `char::is_uppercase` tells whether a character has the property Uppercase.
pub assume_specification[ char::is_uppercase ](c: char) -> (b: bool)
    ensures
        b == is_upper(c),
;

/// Whether a character has the Unicode property Uppercase, as
/// `char::is_uppercase` tells it.
pub uninterp spec fn is_upper(c: char) -> bool;

/// The first `n` rows, or all where there are fewer.
pub open spec fn capped<T>(rows: Seq<T>, n: nat) -> Seq<T> {
    if rows.len() <= n {
        rows
    } else {
        rows.take(n as int)
    }
}

/// The first `n` lines of `s`, each ended by a line feed but the last.
pub open spec fn head_lines(s: Seq<char>, n: nat) -> Seq<char> {
    joined(capped(lines_of(s), n), "\n"@)
}

/// The lines trimmed, without those that are empty then.
pub open spec fn trimmed_nonempty(lines: Seq<Seq<char>>) -> Seq<Seq<char>>
    decreases lines.len(),
{
    if lines.len() == 0 {
        seq![]
    } else {
        let head = trimmed_nonempty(lines.drop_last());
        let t = trimmed(lines.last());
        if t.len() > 0 {
            head.push(t)
        } else {
            head
        }
    }
}

/// The strings of `rows` in strict order: the one sequence in that order that
/// holds exactly the strings of `rows`.
pub open spec fn sorted_set_of(rows: Seq<Seq<char>>) -> Seq<Seq<char>> {
    choose|r: Seq<Seq<char>>|
        strictly_sorted(r) && forall|x: Seq<char>| r.contains(x) <==> rows.contains(x)
}

/// The listing made of names: sorted, each once, the first twenty of them, one
/// to a line.
pub open spec fn listing_of(names: Seq<Seq<char>>) -> Seq<char> {
    joined(capped(sorted_set_of(names), MAX_SIMILAR as nat), "\n"@)
}

/// Whether a trimmed line is a section heading of a manual page: not empty,
/// and made of uppercase letters and white space only.
pub open spec fn is_heading(line: Seq<char>) -> bool {
    line.len() > 0 && forall|i: int| 0 <= i < line.len() ==> is_upper(#[trigger] line[i]) || is_space(
        line[i],
    )
}

/// Whether a trimmed line opens the synopsis.
pub open spec fn opens_synopsis(line: Seq<char>) -> bool {
    line == "SYNOPSIS"@ || line == "Synopsis"@
}

/// The lines of the synopsis: those after a line that opens it, up to the next
/// heading. `inside` says whether the synopsis is open already.
pub open spec fn synopsis_lines(lines: Seq<Seq<char>>, inside: bool) -> Seq<Seq<char>>
    decreases lines.len(),
{
    if lines.len() == 0 {
        seq![]
    } else {
        let t = trimmed(lines[0]);
        if opens_synopsis(t) {
            synopsis_lines(lines.drop_first(), true)
        } else if !inside {
            synopsis_lines(lines.drop_first(), false)
        } else if is_heading(t) {
            seq![]
        } else {
            seq![lines[0]] + synopsis_lines(lines.drop_first(), true)
        }
    }
}

/// The synopsis of a manual page: at most ten of its lines, trimmed as a whole.
pub open spec fn synopsis_of(page: Seq<char>) -> Seq<char> {
    trimmed(
        joined(capped(synopsis_lines(lines_of(page), false), MAX_SYNOPSIS_LINES as nat), "\n"@),
    )
}

/// What the help tool reports of a command's output.
pub open spec fn help_report_of(output: Seq<char>) -> ToolResultView {
    succeeded(head_lines(output, MAX_HELP_LINES as nat))
}

/// What the which tool reports: the first line of the output, trimmed, or
/// that the command was not found where that is empty.
pub open spec fn which_report_of(command: Seq<char>, output: Seq<char>) -> ToolResultView {
    let path = trimmed(first_line_of(output));
    if path.len() == 0 {
        failed("Command '"@ + command + "' not found"@)
    } else {
        succeeded(path)
    }
}

/// What the list tool reports: the listing of the output's non-empty lines.
pub open spec fn similar_report_of(output: Seq<char>) -> ToolResultView {
    succeeded(listing_of(trimmed_nonempty(lines_of(output))))
}

/// What the manual tool reports of a one-line description.
pub open spec fn man_brief_report_of(command: Seq<char>, output: Seq<char>) -> ToolResultView {
    let brief = trimmed(output);
    if brief.len() == 0 {
        failed("No man page found for '"@ + command + "'"@)
    } else {
        succeeded(brief)
    }
}

/// What the manual tool reports of a whole page.
pub open spec fn man_page_report_of(command: Seq<char>, page: Seq<char>) -> ToolResultView {
    let synopsis = synopsis_of(page);
    if synopsis.len() == 0 {
        failed("No man page found for '"@ + command + "'"@)
    } else {
        succeeded(synopsis)
    }
}

/// Keeps the first `n` rows.
fn cap(rows: &mut Vec<Vec<char>>, n: usize)
    ensures
        views(final(rows)@) == capped(views(old(rows)@), n as nat),
{
    if rows.len() > n {
        proof {
            lemma_views_take(rows@, n as int);
        }
        rows.truncate(n);
    }
}

/// The first `n` lines of `text`.
pub fn first_lines(text: &str, n: usize) -> (r: String)
    ensures
        r@ == head_lines(text@, n as nat),
{
    let s = chars_of(text);
    let mut lines = split_lines(&s);
    cap(&mut lines, n);
    let sep = chars_of("\n");
    let r = join(&lines, &sep);
    text_of(&r)
}

/// The names in strict order, each once.
pub fn sort_names(names: &Vec<Vec<char>>) -> (r: Vec<Vec<char>>)
    ensures
        views(r@) == sorted_set_of(views(names@)),
{
    let r = sorted_unique(names);
    proof {
        let rows = views(names@);
        let chosen = sorted_set_of(rows);
        assert(strictly_sorted(chosen) && forall|x: Seq<char>|
            chosen.contains(x) <==> rows.contains(x));
        lemma_sorted_unique(views(r@), chosen);
    }
    r
}

/// The listing made of names.
pub fn listing(names: &Vec<Vec<char>>) -> (r: Vec<char>)
    ensures
        r@ == listing_of(views(names@)),
{
    let mut sorted = sort_names(names);
    cap(&mut sorted, MAX_SIMILAR);
    let sep = chars_of("\n");
    join(&sorted, &sep)
}

/// The lines trimmed, without those that are empty then.
fn keep_nonempty(lines: &Vec<Vec<char>>) -> (r: Vec<Vec<char>>)
    ensures
        views(r@) == trimmed_nonempty(views(lines@)),
{
    let mut r: Vec<Vec<char>> = Vec::new();
    let mut i: usize = 0;
    assert(views(lines@).take(0) =~= Seq::<Seq<char>>::empty());
    assert(views(r@) =~= Seq::<Seq<char>>::empty());
    while i < lines.len()
        invariant
            i <= lines.len(),
            views(r@) == trimmed_nonempty(views(lines@).take(i as int)),
        decreases lines.len() - i,
    {
        let ghost next = views(lines@).take(i + 1);
        assert(next.drop_last() =~= views(lines@).take(i as int));
        assert(next.last() == lines@[i as int]@);
        let t = trim(&lines[i]);
        if t.len() > 0 {
            proof {
                lemma_views_push(r@, t);
            }
            r.push(t);
        }
        i += 1;
    }
    assert(views(lines@).take(lines.len() as int) =~= views(lines@));
    r
}

/// What the help tool reports of a command's output.
pub fn help_report(output: &str) -> (r: ToolResult)
    ensures
        r@ == help_report_of(output@),
{
    ToolResult::success(first_lines(output, MAX_HELP_LINES))
}

/// What the which tool reports of a command's output.
pub fn which_report(command: &str, output: &str) -> (r: ToolResult)
    ensures
        r@ == which_report_of(command@, output@),
{
    let s = chars_of(output);
    let line = first_line(&s);
    let path = trim(&line);
    if path.len() == 0 {
        ToolResult::failure(concat3("Command '", command, "' not found"))
    } else {
        ToolResult::success(text_of(&path))
    }
}

/// What the list tool reports of a command's output.
pub fn similar_report(output: &str) -> (r: ToolResult)
    ensures
        r@ == similar_report_of(output@),
{
    let s = chars_of(output);
    let lines = split_lines(&s);
    let names = keep_nonempty(&lines);
    let r = listing(&names);
    ToolResult::success(text_of(&r))
}

/// What the manual tool reports of a one-line description.
pub fn man_brief_report(command: &str, output: &str) -> (r: ToolResult)
    ensures
        r@ == man_brief_report_of(command@, output@),
{
    let s = chars_of(output);
    let brief = trim(&s);
    if brief.len() == 0 {
        ToolResult::failure(concat3("No man page found for '", command, "'"))
    } else {
        ToolResult::success(text_of(&brief))
    }
}

/// Whether a trimmed line is a section heading of a manual page.
fn heading(line: &Vec<char>) -> (b: bool)
    ensures
        b == is_heading(line@),
{
    if line.len() == 0 {
        return false;
    }
    let mut i: usize = 0;
    while i < line.len()
        invariant
            i <= line.len(),
            forall|k: int| 0 <= k < i ==> is_upper(#[trigger] line@[k]) || is_space(line@[k]),
        decreases line.len() - i,
    {
        let c: char = line[i];
        if !(c.is_uppercase() || is_whitespace(c)) {
            return false;
        }
        i += 1;
    }
    true
}

/// The lines of the synopsis among the lines of a manual page.
fn synopsis_rows(lines: &Vec<Vec<char>>) -> (r: Vec<Vec<char>>)
    ensures
        views(r@) == synopsis_lines(views(lines@), false),
{
    let mut r: Vec<Vec<char>> = Vec::new();
    let mut inside = false;
    let mut i: usize = 0;
    assert(views(lines@).skip(0) =~= views(lines@));
    assert(views(r@) =~= Seq::<Seq<char>>::empty());
    while i < lines.len()
        invariant
            i <= lines.len(),
            synopsis_lines(views(lines@), false) == views(r@) + synopsis_lines(
                views(lines@).skip(i as int),
                inside,
            ),
        decreases lines.len() - i,
    {
        let ghost rest = views(lines@).skip(i as int);
        assert(rest[0] == lines@[i as int]@);
        assert(rest.drop_first() =~= views(lines@).skip(i + 1));
        let t = trim(&lines[i]);
        if is_str(&t, "SYNOPSIS") || is_str(&t, "Synopsis") {
            inside = true;
        } else if inside {
            if heading(&t) {
                assert(views(r@) + Seq::<Seq<char>>::empty() =~= views(r@));
                return r;
            }
            let row = slice(&lines[i], 0, lines[i].len());
            assert(row@ =~= lines@[i as int]@);
            proof {
                lemma_views_push(r@, row);
                assert(views(r@) + (seq![row@] + synopsis_lines(rest.drop_first(), true))
                    =~= views(r@).push(row@) + synopsis_lines(rest.drop_first(), true));
            }
            r.push(row);
        }
        i += 1;
    }
    assert(views(r@) + Seq::<Seq<char>>::empty() =~= views(r@));
    r
}

/// The synopsis of a manual page.
pub fn extract_man_synopsis(man_output: &str) -> (r: String)
    ensures
        r@ == synopsis_of(man_output@),
{
    let s = chars_of(man_output);
    let lines = split_lines(&s);
    let mut rows = synopsis_rows(&lines);
    cap(&mut rows, MAX_SYNOPSIS_LINES);
    let sep = chars_of("\n");
    let text = join(&rows, &sep);
    let r = trim(&text);
    text_of(&r)
}

/// What the manual tool reports of a whole page.
pub fn man_page_report(command: &str, page: &str) -> (r: ToolResult)
    ensures
        r@ == man_page_report_of(command@, page@),
{
    let synopsis = extract_man_synopsis(page);
    if synopsis.as_str().is_empty() {
        ToolResult::failure(concat3("No man page found for '", command, "'"))
    } else {
        ToolResult::success(synopsis)
    }
}

} // verus!
