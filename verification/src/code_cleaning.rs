//! Re-indenting replacement code to the style of the code it replaces, and
//! finding the code block in a chat answer.

use vstd::prelude::*;
use crate::text::{
    append_from, chars_of, count_leading_whitespace, is_blank, is_whitespace, join_lines,
    all_plain, is_plain_line, leading_whitespace, lemma_blank_iff_all_leading, lemma_join_then_newline,
    lemma_lines_of_rendered, lemma_run_length, lemma_run_length_bounds, line_is_blank, lines_of,
    render_lines, rows, split_lines, starts_with, starts_with_at, string_of, with_final_newline,
};

verus! {

/// The indentation of a block: the whitespace that its first non-blank
/// line starts with; empty where every line is blank.
pub open spec fn indent_unit(lines: Seq<Seq<char>>) -> Seq<char>
    decreases lines.len(),
{
    if lines.len() == 0 {
        Seq::empty()
    } else if !is_blank(lines[0]) {
        lines[0].take(leading_whitespace(lines[0]) as int)
    } else {
        indent_unit(lines.drop_first())
    }
}

/// The least leading whitespace among the non-blank lines, if there is one.
pub open spec fn least_indent(lines: Seq<Seq<char>>) -> Option<nat>
    decreases lines.len(),
{
    if lines.len() == 0 {
        None
    } else {
        let rest = least_indent(lines.drop_last());
        let line = lines.last();
        if is_blank(line) {
            rest
        } else {
            match rest {
                None => Some(leading_whitespace(line)),
                Some(m) => Some(if leading_whitespace(line) < m {
                    leading_whitespace(line)
                } else {
                    m
                }),
            }
        }
    }
}

/// The base indentation of a block: the least leading whitespace among its
/// non-blank lines, and 0 where every line is blank.
pub open spec fn base_indent(lines: Seq<Seq<char>>) -> nat {
    match least_indent(lines) {
        Some(m) => m,
        None => 0,
    }
}

/// One line of the replacement, re-indented: a blank line as it is; of any
/// other line the first `base` characters (the whole line where it is
/// shorter) give way to `unit`.
pub open spec fn reindent_line(line: Seq<char>, base: nat, unit: Seq<char>) -> Seq<char> {
    if is_blank(line) {
        line
    } else if base <= line.len() {
        unit + line.skip(base as int)
    } else {
        unit
    }
}

/// Every line of the replacement, re-indented.
pub open spec fn reindent_lines(lines: Seq<Seq<char>>, base: nat, unit: Seq<char>) -> Seq<
    Seq<char>,
> {
    lines.map_values(|line: Seq<char>| reindent_line(line, base, unit))
}

/// The replacement `new_code` in the indentation of `old_code`: its lines
/// re-indented from its own base indentation to the indentation of
/// `old_code`, joined by line feeds, with a line feed at the end.
pub open spec fn normalized(old_code: Seq<char>, new_code: Seq<char>) -> Seq<char> {
    let lines = lines_of(new_code);
    with_final_newline(
        join_lines(reindent_lines(lines, base_indent(lines), indent_unit(lines_of(old_code)))),
    )
}

/// The indentation of a block is whitespace.
pub proof fn lemma_indent_unit_is_whitespace(lines: Seq<Seq<char>>)
    ensures
        is_blank(indent_unit(lines)),
    decreases lines.len(),
{
    if lines.len() == 0 {
    } else if !is_blank(lines[0]) {
        lemma_run_length_bounds(lines[0], |c: char| is_whitespace(c));
    } else {
        lemma_indent_unit_is_whitespace(lines.drop_first());
    }
}

/// No non-blank line has less leading whitespace than the base indentation,
/// and where there is a non-blank line one has exactly that much.
pub proof fn lemma_base_indent_is_least(lines: Seq<Seq<char>>)
    ensures
        forall|i: int|
            0 <= i < lines.len() && !is_blank(#[trigger] lines[i]) ==> base_indent(lines)
                <= leading_whitespace(lines[i]),
        least_indent(lines) is Some <==> exists|i: int|
            0 <= i < lines.len() && !is_blank(#[trigger] lines[i]),
        least_indent(lines) is Some ==> exists|i: int|
            0 <= i < lines.len() && !is_blank(#[trigger] lines[i]) && leading_whitespace(lines[i])
                == base_indent(lines),
    decreases lines.len(),
{
    if lines.len() > 0 {
        let front = lines.drop_last();
        let line = lines.last();
        lemma_base_indent_is_least(front);
        assert forall|i: int| 0 <= i < lines.len() && !is_blank(#[trigger] lines[i]) implies 
            base_indent(lines) <= leading_whitespace(lines[i]) by {
            if i < front.len() {
                assert(front[i] == lines[i]);
            }
        }
        if least_indent(lines) is Some {
            if !is_blank(line) && base_indent(lines) == leading_whitespace(line) {
                assert(!is_blank(lines[lines.len() - 1]));
            } else {
                let i = choose|i: int|
                    0 <= i < front.len() && !is_blank(#[trigger] front[i]) && leading_whitespace(
                        front[i],
                    ) == base_indent(front);
                assert(lines[i] == front[i]);
            }
        } else {
            assert forall|i: int| 0 <= i < lines.len() implies is_blank(#[trigger] lines[i]) by {
                if i < front.len() {
                    assert(front[i] == lines[i]);
                }
            }
        }
    }
}

/// The indentation law. A non-blank line of the replacement comes out with
/// the indentation of the old code in place of the base indentation of the
/// replacement: it begins with as much whitespace as the old code's
/// indentation and its own indentation beyond the base make together; a
/// blank line comes out as it is. The text that comes back is those lines,
/// joined, with a line feed at the end.
pub proof fn lemma_indentation_law(old_code: Seq<char>, new_code: Seq<char>, i: int)
    requires
        0 <= i < lines_of(new_code).len(),
    ensures
        ({
            let lines = lines_of(new_code);
            let unit = indent_unit(lines_of(old_code));
            let base = base_indent(lines);
            let out = reindent_lines(lines, base, unit);
            &&& normalized(old_code, new_code) == with_final_newline(join_lines(out))
            &&& out.len() == lines.len()
            &&& is_blank(unit)
            &&& is_blank(lines[i]) ==> out[i] == lines[i]
            &&& !is_blank(lines[i]) ==> {
                &&& base <= leading_whitespace(lines[i]) < lines[i].len()
                &&& out[i] == unit + lines[i].skip(base as int)
                &&& leading_whitespace(out[i]) == unit.len() + leading_whitespace(lines[i]) - base
            }
        }),
{
    let lines = lines_of(new_code);
    let unit = indent_unit(lines_of(old_code));
    let base = base_indent(lines);
    let line = lines[i];
    lemma_indent_unit_is_whitespace(lines_of(old_code));
    if !is_blank(line) {
        lemma_base_indent_is_least(lines);
        lemma_blank_iff_all_leading(line);
        let keep = |c: char| is_whitespace(c);
        lemma_run_length_bounds(line, keep);
        let out = unit + line.skip(base as int);
        let k = unit.len() + leading_whitespace(line) - base;
        assert forall|j: int| 0 <= j < k implies keep(#[trigger] out[j]) by {
            if j >= unit.len() {
                assert(out[j] == line[j - unit.len() + base]);
            }
        }
        assert(out[k as int] == line[leading_whitespace(line) as int]);
        lemma_run_length(out, keep, k as int);
    }
}

/// The indentation of a block is the leading whitespace of one of its
/// non-blank lines, if it has one.
pub proof fn lemma_indent_unit_of_a_line(lines: Seq<Seq<char>>)
    ensures
        least_indent(lines) is Some ==> exists|i: int|
            0 <= i < lines.len() && !is_blank(#[trigger] lines[i]) && indent_unit(lines)
                == lines[i].take(leading_whitespace(lines[i]) as int),
    decreases lines.len(),
{
    lemma_base_indent_is_least(lines);
    if least_indent(lines) is Some {
        if !is_blank(lines[0]) {
        } else {
            let rest = lines.drop_first();
            lemma_base_indent_is_least(rest);
            let k = choose|k: int| 0 <= k < lines.len() && !is_blank(#[trigger] lines[k]);
            assert(rest[k - 1] == lines[k]);
            lemma_indent_unit_of_a_line(rest);
            let i = choose|i: int|
                0 <= i < rest.len() && !is_blank(#[trigger] rest[i]) && indent_unit(rest)
                    == rest[i].take(leading_whitespace(rest[i]) as int);
            assert(lines[i + 1] == rest[i]);
        }
    }
}

/// Code keeps its own indentation where every non-blank line of it begins
/// with the whitespace that the first non-blank line begins with.
pub open spec fn keeps_own_indentation(lines: Seq<Seq<char>>) -> bool {
    forall|i: int|
        0 <= i < lines.len() && !is_blank(#[trigger] lines[i]) ==> starts_with(
            lines[i],
            indent_unit(lines),
        )
}

/// Code that keeps its own indentation is re-indented to itself.
pub proof fn lemma_own_indentation_kept(lines: Seq<Seq<char>>)
    requires
        keeps_own_indentation(lines),
    ensures
        reindent_lines(lines, base_indent(lines), indent_unit(lines)) == lines,
{
    let unit = indent_unit(lines);
    let base = base_indent(lines);
    let out = reindent_lines(lines, base, unit);
    lemma_base_indent_is_least(lines);
    lemma_indent_unit_of_a_line(lines);
    lemma_indent_unit_is_whitespace(lines);
    assert forall|i: int| 0 <= i < lines.len() implies out[i] == lines[i] by {
        let line = lines[i];
        if !is_blank(line) {
            let keep = |c: char| is_whitespace(c);
            assert forall|k: int| 0 <= k < lines.len() && !is_blank(
                #[trigger] lines[k],
            ) implies unit.len() <= leading_whitespace(lines[k]) by {
                lemma_run_length_bounds(lines[k], keep);
                let n = leading_whitespace(lines[k]) as int;
                if n < unit.len() {
                    assert(lines[k].take(unit.len() as int)[n] == unit[n]);
                }
            }
            let f = choose|f: int|
                0 <= f < lines.len() && !is_blank(#[trigger] lines[f]) && unit == lines[f].take(
                    leading_whitespace(lines[f]) as int,
                );
            let g = choose|g: int|
                0 <= g < lines.len() && !is_blank(#[trigger] lines[g]) && leading_whitespace(
                    lines[g],
                ) == base;
            lemma_run_length_bounds(lines[f], keep);
            assert(unit.len() == leading_whitespace(lines[f]));
            assert(base == unit.len());
            assert(unit + line.skip(base as int) =~= line) by {
                assert(line.take(unit.len() as int) == unit);
                assert(line.take(base as int) + line.skip(base as int) =~= line);
            }
        }
    }
    assert(out =~= lines);
}

/// Code put in place of itself gives its own lines again, where it has a
/// line, its lines are plain and keep their own indentation, and it does
/// not end with an empty line behind another line.
pub proof fn lemma_same_code_same_lines(code: Seq<char>)
    requires
        lines_of(code).len() > 0,
        all_plain(lines_of(code)),
        keeps_own_indentation(lines_of(code)),
        lines_of(code).len() == 1 || lines_of(code).last().len() > 0,
    ensures
        normalized(code, code) == render_lines(lines_of(code)),
        lines_of(normalized(code, code)) == lines_of(code),
{
    let lines = lines_of(code);
    lemma_own_indentation_kept(lines);
    lemma_join_then_newline(lines);
    lemma_lines_of_rendered(lines);
    let joined = join_lines(lines);
    if lines.len() == 1 {
        if joined.len() > 0 {
            assert(is_plain_line(lines[0]));
            assert(joined[joined.len() - 1] != '\n');
        }
    } else {
        assert(is_plain_line(lines[lines.len() - 1]));
        let tail = lines.last();
        assert(joined.last() == tail[tail.len() - 1]);
    }
}

/// Finds the whitespace before the first non-blank line.
fn find_indent_unit(lines: &Vec<Vec<char>>) -> (unit: Vec<char>)
    ensures
        unit@ == indent_unit(rows(lines@)),
{
    let mut i: usize = 0;
    assert(rows(lines@).skip(0) =~= rows(lines@));
    while i < lines.len()
        invariant
            i <= lines.len(),
            indent_unit(rows(lines@)) == indent_unit(rows(lines@).skip(i as int)),
        decreases lines.len() - i,
    {
        let line = &lines[i];
        let n = count_leading_whitespace(line);
        proof {
            lemma_blank_iff_all_leading(line@);
            assert(rows(lines@).skip(i as int)[0] == line@);
            assert(rows(lines@).skip(i as int).drop_first() =~= rows(lines@).skip(i + 1));
        }
        if n < line.len() {
            let mut unit: Vec<char> = Vec::new();
            let mut j: usize = 0;
            while j < n
                invariant
                    j <= n <= line.len(),
                    unit@ == line@.take(j as int),
                decreases n - j,
            {
                unit.push(line[j]);
                j += 1;
                assert(unit@ =~= line@.take(j as int));
            }
            return unit;
        }
        i += 1;
    }
    Vec::new()
}

/// Finds the least leading whitespace among the non-blank lines.
fn find_base_indent(lines: &Vec<Vec<char>>) -> (base: usize)
    ensures
        base == base_indent(rows(lines@)),
{
    let mut least: Option<usize> = None;
    let mut i: usize = 0;
    assert(rows(lines@).take(0) =~= Seq::<Seq<char>>::empty());
    while i < lines.len()
        invariant
            i <= lines.len(),
            match least {
                Some(m) => least_indent(rows(lines@).take(i as int)) == Some(m as nat),
                None => least_indent(rows(lines@).take(i as int)) is None,
            },
        decreases lines.len() - i,
    {
        let line = &lines[i];
        let n = count_leading_whitespace(line);
        proof {
            lemma_blank_iff_all_leading(line@);
            let next = rows(lines@).take(i + 1);
            assert(next.last() == line@);
            assert(next.drop_last() =~= rows(lines@).take(i as int));
        }
        if n < line.len() {
            least = match least {
                None => Some(n),
                Some(m) => Some(if n < m { n } else { m }),
            };
        }
        i += 1;
    }
    assert(rows(lines@).take(i as int) =~= rows(lines@));
    match least {
        Some(m) => m,
        None => 0,
    }
}

/// The characters of `new_code` in the indentation of `old_code`.
pub fn normalized_chars(old_code: &str, new_code: &str) -> (out: Vec<char>)
    ensures
        out@ == normalized(old_code@, new_code@),
{
    let old_lines = split_lines(&chars_of(old_code));
    let new_lines = split_lines(&chars_of(new_code));
    let unit = find_indent_unit(&old_lines);
    let base = find_base_indent(&new_lines);
    let ghost target = reindent_lines(rows(new_lines@), base as nat, unit@);
    let mut out: Vec<char> = Vec::new();
    let mut i: usize = 0;
    assert(target.take(0) =~= Seq::<Seq<char>>::empty());
    while i < new_lines.len()
        invariant
            i <= new_lines.len(),
            target == reindent_lines(rows(new_lines@), base as nat, unit@),
            out@ == join_lines(target.take(i as int)),
        decreases new_lines.len() - i,
    {
        let line = &new_lines[i];
        let ghost before = out@;
        proof {
            let next = target.take(i + 1);
            assert(next.last() == reindent_line(line@, base as nat, unit@));
            assert(next.drop_last() =~= target.take(i as int));
        }
        if i > 0 {
            out.push('\n');
        }
        if line_is_blank(line) {
            append_from(&mut out, line, 0);
            assert(line@.skip(0) =~= line@);
        } else {
            append_from(&mut out, &unit, 0);
            assert(unit@.skip(0) =~= unit@);
            if base <= line.len() {
                append_from(&mut out, line, base);
            }
        }
        proof {
            let piece = reindent_line(line@, base as nat, unit@);
            if i > 0 {
                assert(out@ =~= before + seq!['\n'] + piece);
            } else {
                assert(out@ =~= piece);
            }
        }
        i += 1;
    }
    assert(target.take(i as int) =~= target);
    let n = out.len();
    if !(n > 0 && out[n - 1] == '\n') {
        out.push('\n');
    }
    out
}

/// Rewrites `new_code` so that its lines carry the indentation of `old_code`.
///
/// The indentation of `old_code` is the whitespace before its first
/// non-blank line. The base indentation of `new_code`, the least among its
/// non-blank lines, is taken off each of them and the indentation of
/// `old_code` put in its place; blank lines stay as they are. The result
/// ends with a line feed.
pub fn apply_indentation(old_code: &str, new_code: &str) -> (indented: String)
    ensures
        indented@ == normalized(old_code@, new_code@),
{
    string_of(&normalized_chars(old_code, new_code))
}

/// The line, after any whitespace, begins a block of Python code.
pub open spec fn opens_python_block(line: Seq<char>) -> bool {
    starts_with(line.skip(leading_whitespace(line) as int), "```python"@)
}

/// The line, after any whitespace, begins with a code fence.
pub open spec fn is_fence(line: Seq<char>) -> bool {
    starts_with(line.skip(leading_whitespace(line) as int), "```"@)
}

/// The code that `lines` hold from their start up to the fence that closes
/// the first block of Python code, each line of code with a line feed
/// behind it. `inside` says whether such a block is open where the lines
/// begin. A line that opens a Python block is no code; outside a block no
/// line is.
pub open spec fn python_block(lines: Seq<Seq<char>>, inside: bool) -> Seq<char>
    decreases lines.len(),
{
    if lines.len() == 0 {
        Seq::empty()
    } else if opens_python_block(lines[0]) {
        python_block(lines.drop_first(), true)
    } else if is_fence(lines[0]) {
        if inside {
            Seq::empty()
        } else {
            python_block(lines.drop_first(), false)
        }
    } else if inside {
        lines[0] + seq!['\n'] + python_block(lines.drop_first(), true)
    } else {
        python_block(lines.drop_first(), false)
    }
}

/// The code of the first block of Python code in an answer.
pub open spec fn python_code(input: Seq<char>) -> Seq<char> {
    python_block(lines_of(input), false)
}

/// Takes the first block of Python code out of an answer: the lines between
/// a line that begins with ```` ```python ```` and the next line that begins
/// with a code fence. There is nothing where no such line holds code.
pub fn extract_python_code(input: &str) -> (code: Option<String>)
    ensures
        match code {
            Some(text) => text@ == python_code(input@) && text@.len() > 0,
            None => python_code(input@).len() == 0,
        },
{
    let lines = split_lines(&chars_of(input));
    let fence = chars_of("```");
    let python_fence = chars_of("```python");
    let mut code: Vec<char> = Vec::new();
    let mut inside = false;
    let mut closed = false;
    let mut i: usize = 0;
    proof {
        assert(rows(lines@).skip(0) =~= rows(lines@));
        assert(code@ + python_code(input@) =~= python_code(input@));
    }
    while i < lines.len() && !closed
        invariant
            i <= lines.len(),
            fence@ == "```"@,
            python_fence@ == "```python"@,
            rows(lines@) == lines_of(input@),
            !closed ==> python_code(input@) == code@ + python_block(
                rows(lines@).skip(i as int),
                inside,
            ),
            closed ==> python_code(input@) == code@,
        decreases lines.len() - i, if closed { 0int } else { 1int },
    {
        let line = &lines[i];
        let from = count_leading_whitespace(line);
        proof {
            assert(rows(lines@).skip(i as int)[0] == line@);
            assert(rows(lines@).skip(i as int).drop_first() =~= rows(lines@).skip(i + 1));
        }
        let ghost before = code@;
        let ghost rest = python_block(rows(lines@).skip(i + 1), true);
        if starts_with_at(line, from, &python_fence) {
            inside = true;
            i += 1;
        } else if starts_with_at(line, from, &fence) {
            if inside {
                closed = true;
                assert(code@ + Seq::<char>::empty() =~= code@);
            } else {
                i += 1;
            }
        } else if inside {
            append_from(&mut code, line, 0);
            code.push('\n');
            proof {
                assert(line@.skip(0) =~= line@);
                assert(code@ + rest =~= before + (line@ + seq!['\n'] + rest));
            }
            i += 1;
        } else {
            i += 1;
        }
    }
    proof {
        if !closed {
            assert(rows(lines@).skip(i as int).len() == 0);
            assert(code@ + Seq::<char>::empty() =~= code@);
        }
    }
    if code.len() > 0 {
        Some(string_of(&code))
    } else {
        None
    }
}

} // verus!
