//! Text as sequences of characters: whitespace, lines, joining.

use vstd::prelude::*;

verus! {

/// `String::push` appends the one character to the end of the string. This
/// is taken from its documentation, not proved.
pub assume_specification[ String::push ](s: &mut String, c: char)
    ensures
        final(s)@ == old(s)@.push(c),
;

/// True for the characters that carry the Unicode `White_Space` property.
pub open spec fn is_whitespace(c: char) -> bool {
    let n = c as u32;
    (0x09 <= n && n <= 0x0D) || n == 0x20 || n == 0x85 || n == 0xA0 || n == 0x1680
        || (0x2000 <= n && n <= 0x200A) || n == 0x2028 || n == 0x2029 || n == 0x202F
        || n == 0x205F || n == 0x3000
}

/// Tells whether `c` is a whitespace character.
pub fn char_is_whitespace(c: char) -> (b: bool)
    ensures
        b == is_whitespace(c),
{
    let n: u32 = c as u32;
    (0x09 <= n && n <= 0x0D) || n == 0x20 || n == 0x85 || n == 0xA0 || n == 0x1680
        || (0x2000 <= n && n <= 0x200A) || n == 0x2028 || n == 0x2029 || n == 0x202F
        || n == 0x205F || n == 0x3000
}

/// The characters of `s`, in order.
pub fn chars_of(s: &str) -> (v: Vec<char>)
    ensures
        v@ == s@,
{
    let mut v: Vec<char> = Vec::new();
    for c in it: s.chars()
        invariant
            it.seq() == s@,
            v@ == s@.take(it.index()),
    {
        v.push(c);
    }
    v
}

/// The string made of the characters `chars`, in order.
pub fn string_of(chars: &Vec<char>) -> (s: String)
    ensures
        s@ == chars@,
{
    let mut s = String::new();
    let mut i: usize = 0;
    while i < chars.len()
        invariant
            i <= chars.len(),
            s@ == chars@.take(i as int),
        decreases chars.len() - i,
    {
        s.push(chars[i]);
        i += 1;
    }
    s
}

/// The number of characters at the start of `s` that all satisfy `keep`.
pub open spec fn run_length(s: Seq<char>, keep: spec_fn(char) -> bool) -> nat
    decreases s.len(),
{
    if s.len() == 0 || !keep(s[0]) {
        0
    } else {
        1 + run_length(s.drop_first(), keep)
    }
}

/// `run_length` is the one index that ends a run of kept characters.
pub proof fn lemma_run_length(s: Seq<char>, keep: spec_fn(char) -> bool, k: int)
    requires
        0 <= k <= s.len(),
        forall|j: int| 0 <= j < k ==> keep(#[trigger] s[j]),
        k == s.len() || !keep(s[k]),
    ensures
        run_length(s, keep) == k,
    decreases s.len(),
{
    if k > 0 {
        let t = s.drop_first();
        assert forall|j: int| 0 <= j < k - 1 implies keep(#[trigger] t[j]) by {
            assert(t[j] == s[j + 1]);
        }
        lemma_run_length(t, keep, k - 1);
    }
}

/// The run ends inside the sequence, on the first character that is not kept.
pub proof fn lemma_run_length_bounds(s: Seq<char>, keep: spec_fn(char) -> bool)
    ensures
        run_length(s, keep) <= s.len(),
        forall|j: int| 0 <= j < run_length(s, keep) ==> keep(#[trigger] s[j]),
        run_length(s, keep) < s.len() ==> !keep(s[run_length(s, keep) as int]),
    decreases s.len(),
{
    if s.len() == 0 || !keep(s[0]) {
    } else {
        let t = s.drop_first();
        lemma_run_length_bounds(t, keep);
        assert forall|j: int| 0 <= j < run_length(s, keep) implies keep(#[trigger] s[j]) by {
            if j > 0 {
                assert(s[j] == t[j - 1]);
            }
        }
    }
}

/// The number of whitespace characters that `line` starts with.
pub open spec fn leading_whitespace(line: Seq<char>) -> nat {
    run_length(line, |c: char| is_whitespace(c))
}

/// A blank line is empty or holds whitespace only.
pub open spec fn is_blank(line: Seq<char>) -> bool {
    forall|i: int| 0 <= i < line.len() ==> is_whitespace(#[trigger] line[i])
}

/// A line is blank exactly when its leading whitespace is the whole line.
pub proof fn lemma_blank_iff_all_leading(line: Seq<char>)
    ensures
        is_blank(line) <==> leading_whitespace(line) == line.len(),
        leading_whitespace(line) <= line.len(),
{
    let keep = |c: char| is_whitespace(c);
    lemma_run_length_bounds(line, keep);
    if is_blank(line) {
        lemma_run_length(line, keep, line.len() as int);
    }
}

/// Counts the whitespace characters that `line` starts with.
pub fn count_leading_whitespace(line: &Vec<char>) -> (n: usize)
    ensures
        n == leading_whitespace(line@),
        n <= line@.len(),
{
    let mut n: usize = 0;
    while n < line.len() && char_is_whitespace(line[n])
        invariant
            n <= line.len(),
            forall|j: int| 0 <= j < n ==> is_whitespace(#[trigger] line@[j]),
        decreases line.len() - n,
    {
        n += 1;
    }
    proof {
        lemma_run_length(line@, |c: char| is_whitespace(c), n as int);
    }
    n
}

/// Tells whether `line` is empty or whitespace only.
pub fn line_is_blank(line: &Vec<char>) -> (b: bool)
    ensures
        b == is_blank(line@),
{
    let n = count_leading_whitespace(line);
    proof {
        lemma_blank_iff_all_leading(line@);
    }
    n == line.len()
}

/// The position of the first line feed in `s`, or the length of `s` without one.
pub open spec fn first_newline(s: Seq<char>) -> nat {
    run_length(s, |c: char| c != '\n')
}

/// A line without the carriage return that stood before its line feed.
pub open spec fn strip_carriage_return(line: Seq<char>) -> Seq<char> {
    if line.len() > 0 && line.last() == '\r' {
        line.drop_last()
    } else {
        line
    }
}

/// The lines of a text. A line ends at a line feed, which is not part of
/// it, nor is a carriage return directly before that line feed. The last
/// line needs no line feed, and keeps a carriage return at its end. A text
/// that ends with a line feed has no empty line after it.
pub open spec fn lines_of(s: Seq<char>) -> Seq<Seq<char>>
    decreases s.len(),
{
    if s.len() == 0 {
        Seq::empty()
    } else {
        let k = first_newline(s) as int;
        if k >= s.len() {
            seq![s]
        } else {
            seq![strip_carriage_return(s.take(k))] + lines_of(s.skip(k + 1))
        }
    }
}

/// No line of a text holds a line feed.
pub open spec fn no_newline(line: Seq<char>) -> bool {
    forall|i: int| 0 <= i < line.len() ==> #[trigger] line[i] != '\n'
}

/// The lines of a text hold no line feed.
pub proof fn lemma_lines_have_no_newline(s: Seq<char>)
    ensures
        forall|i: int| 0 <= i < lines_of(s).len() ==> no_newline(#[trigger] lines_of(s)[i]),
    decreases s.len(),
{
    if s.len() > 0 {
        lemma_run_length_bounds(s, |c: char| c != '\n');
        let k = first_newline(s) as int;
        if k < s.len() {
            lemma_lines_have_no_newline(s.skip(k + 1));
            let head = strip_carriage_return(s.take(k));
            assert(no_newline(head)) by {
                assert forall|i: int| 0 <= i < head.len() implies #[trigger] head[i] != '\n' by {
                    assert(head[i] == s[i]);
                }
            }
            let rest = lines_of(s.skip(k + 1));
            assert forall|i: int| 0 <= i < lines_of(s).len() implies no_newline(
                #[trigger] lines_of(s)[i],
            ) by {
                if i > 0 {
                    assert(lines_of(s)[i] == rest[i - 1]);
                }
            }
        } else {
            assert(no_newline(s)) by {
                assert forall|i: int| 0 <= i < s.len() implies #[trigger] s[i] != '\n' by {}
            }
        }
    }
}

/// The lines that a vector of character vectors stands for.
pub open spec fn rows(lines: Seq<Vec<char>>) -> Seq<Seq<char>> {
    lines.map_values(|line: Vec<char>| line@)
}

/// Splits a text into its lines.
pub fn split_lines(text: &Vec<char>) -> (lines: Vec<Vec<char>>)
    ensures
        rows(lines@) == lines_of(text@),
{
    let mut lines: Vec<Vec<char>> = Vec::new();
    let mut line: Vec<char> = Vec::new();
    let mut start: usize = 0;
    let mut i: usize = 0;
    proof {
        assert(text@.skip(0) =~= text@);
        assert(rows(lines@) + lines_of(text@) =~= lines_of(text@));
    }
    while i < text.len()
        invariant
            start <= i <= text.len(),
            line@ == text@.subrange(start as int, i as int),
            no_newline(line@),
            lines_of(text@) == rows(lines@) + lines_of(text@.skip(start as int)),
        decreases text.len() - i,
    {
        let c = text[i];
        if c == '\n' {
            let ghost rest = text@.skip(start as int);
            let ghost whole = line@;
            proof {
                assert forall|j: int| 0 <= j < i - start implies rest[j] != '\n' by {
                    assert(rest[j] == line@[j]);
                }
                lemma_run_length(rest, |c: char| c != '\n', i - start);
                assert(rest.take(i - start) =~= whole);
                assert(rest.skip(i - start + 1) =~= text@.skip(i + 1));
            }
            let n = line.len();
            if n > 0 && line[n - 1] == '\r' {
                line.pop();
                assert(line@ == strip_carriage_return(whole));
            }
            let ghost before = rows(lines@);
            lines.push(line);
            proof {
                assert(rows(lines@) =~= before + seq![strip_carriage_return(whole)]);
            }
            line = Vec::new();
            start = i + 1;
            i += 1;
            assert(line@ =~= text@.subrange(start as int, i as int));
        } else {
            line.push(c);
            i += 1;
            assert(line@ =~= text@.subrange(start as int, i as int));
        }
    }
    if start < text.len() {
        let ghost rest = text@.skip(start as int);
        let ghost before = rows(lines@);
        proof {
            assert(rest =~= line@);
            lemma_run_length(rest, |c: char| c != '\n', rest.len() as int);
        }
        lines.push(line);
        proof {
            assert(rows(lines@) =~= before + seq![rest]);
        }
    } else {
        assert(text@.skip(start as int).len() == 0);
        assert(rows(lines@) + Seq::<Seq<char>>::empty() =~= rows(lines@));
    }
    lines
}

/// The lines joined into one text, with a line feed between two lines.
pub open spec fn join_lines(lines: Seq<Seq<char>>) -> Seq<char>
    decreases lines.len(),
{
    if lines.len() == 0 {
        Seq::empty()
    } else if lines.len() == 1 {
        lines[0]
    } else {
        join_lines(lines.drop_last()) + seq!['\n'] + lines.last()
    }
}

/// The lines written out as a file: each line followed by a line feed.
pub open spec fn render_lines(lines: Seq<Seq<char>>) -> Seq<char>
    decreases lines.len(),
{
    if lines.len() == 0 {
        Seq::empty()
    } else {
        render_lines(lines.drop_last()) + lines.last() + seq!['\n']
    }
}

/// A line that a file can hold as it is: it has no line feed in it and no
/// carriage return at its end.
pub open spec fn is_plain_line(line: Seq<char>) -> bool {
    no_newline(line) && strip_carriage_return(line) == line
}

/// Every one of the lines is a plain line.
pub open spec fn all_plain(lines: Seq<Seq<char>>) -> bool {
    forall|i: int| 0 <= i < lines.len() ==> is_plain_line(#[trigger] lines[i])
}

/// The first line of a text that begins with a line and a line feed is that
/// line, without a carriage return at its end; the other lines are those
/// of the rest.
pub proof fn lemma_lines_of_first(line: Seq<char>, rest: Seq<char>)
    requires
        no_newline(line),
    ensures
        lines_of(line + seq!['\n'] + rest) == seq![strip_carriage_return(line)] + lines_of(rest),
{
    let text = line + seq!['\n'] + rest;
    assert forall|j: int| 0 <= j < line.len() implies text[j] != '\n' by {
        assert(text[j] == line[j]);
    }
    assert(text[line.len() as int] == '\n');
    lemma_run_length(text, |c: char| c != '\n', line.len() as int);
    assert(text.take(line.len() as int) =~= line);
    assert(text.skip(line.len() as int + 1) =~= rest);
}

/// The lines of a text that follows whole lines come after those lines.
pub proof fn lemma_lines_after_whole_lines(before: Seq<char>, text: Seq<char>)
    requires
        before.len() == 0 || before.last() == '\n',
    ensures
        lines_of(before + text) == lines_of(before) + lines_of(text),
    decreases before.len(),
{
    if before.len() == 0 {
        assert(before + text =~= text);
        assert(lines_of(before) + lines_of(text) =~= lines_of(text));
    } else {
        let keep = |c: char| c != '\n';
        lemma_run_length_bounds(before, keep);
        let k = first_newline(before) as int;
        assert(k < before.len()) by {
            if k >= before.len() {
                assert(keep(before[before.len() - 1]));
            }
        }
        let line = before.take(k);
        let rest = before.skip(k + 1);
        assert(no_newline(line)) by {
            assert forall|i: int| 0 <= i < line.len() implies #[trigger] line[i] != '\n' by {
                assert(line[i] == before[i]);
            }
        }
        assert(before =~= line + seq!['\n'] + rest);
        assert(before + text =~= line + seq!['\n'] + (rest + text));
        lemma_lines_of_first(line, rest);
        lemma_lines_of_first(line, rest + text);
        if rest.len() > 0 {
            assert(rest.last() == before.last());
        }
        lemma_lines_after_whole_lines(rest, text);
        assert(seq![strip_carriage_return(line)] + (lines_of(rest) + lines_of(text)) =~= seq![
            strip_carriage_return(line),
        ] + lines_of(rest) + lines_of(text));
    }
}

/// A text that does not end with a line feed has a last line, and that
/// line is not empty.
pub proof fn lemma_last_line_is_not_empty(text: Seq<char>)
    requires
        text.len() > 0,
        text.last() != '\n',
    ensures
        lines_of(text).len() > 0,
        lines_of(text).last().len() > 0,
    decreases text.len(),
{
    lemma_run_length_bounds(text, |c: char| c != '\n');
    let k = first_newline(text) as int;
    if k < text.len() {
        let rest = text.skip(k + 1);
        assert(k != text.len() - 1);
        assert(rest.last() == text.last());
        lemma_last_line_is_not_empty(rest);
        assert(lines_of(text).last() == lines_of(rest).last());
    }
}

/// The lines of a text that ends in the middle of a line, with neither a
/// line feed nor a carriage return last, stay as they are when a line feed
/// and more text follow.
pub proof fn lemma_lines_before_line_feed(text: Seq<char>, behind: Seq<char>)
    requires
        text.len() > 0,
        text.last() != '\n',
        text.last() != '\r',
    ensures
        lines_of(text + seq!['\n'] + behind) == lines_of(text) + lines_of(behind),
    decreases text.len(),
{
    let keep = |c: char| c != '\n';
    lemma_run_length_bounds(text, keep);
    let k = first_newline(text) as int;
    if k >= text.len() {
        assert(no_newline(text)) by {
            assert forall|i: int| 0 <= i < text.len() implies #[trigger] text[i] != '\n' by {}
        }
        lemma_lines_of_first(text, behind);
        assert(lines_of(text) =~= seq![text]);
    } else {
        let line = text.take(k);
        let rest = text.skip(k + 1);
        assert(no_newline(line)) by {
            assert forall|i: int| 0 <= i < line.len() implies #[trigger] line[i] != '\n' by {
                assert(line[i] == text[i]);
            }
        }
        assert(k != text.len() - 1);
        assert(rest.last() == text.last());
        assert(text =~= line + seq!['\n'] + rest);
        assert(text + seq!['\n'] + behind =~= line + seq!['\n'] + (rest + seq!['\n'] + behind));
        lemma_lines_of_first(line, rest);
        lemma_lines_of_first(line, rest + seq!['\n'] + behind);
        lemma_lines_before_line_feed(rest, behind);
        assert(seq![strip_carriage_return(line)] + (lines_of(rest) + lines_of(behind)) =~= seq![
            strip_carriage_return(line),
        ] + lines_of(rest) + lines_of(behind));
    }
}

/// Written out, the lines begin with the first line and a line feed.
pub proof fn lemma_render_first(lines: Seq<Seq<char>>)
    requires
        lines.len() > 0,
    ensures
        render_lines(lines) == lines[0] + seq!['\n'] + render_lines(lines.drop_first()),
    decreases lines.len(),
{
    if lines.len() == 1 {
        assert(lines.drop_last() =~= Seq::<Seq<char>>::empty());
        assert(lines.drop_first() =~= Seq::<Seq<char>>::empty());
        reveal_with_fuel(render_lines, 2);
        assert(render_lines(lines) =~= lines[0] + seq!['\n']);
        assert(lines[0] + seq!['\n'] + Seq::<char>::empty() =~= lines[0] + seq!['\n']);
    } else {
        let front = lines.drop_last();
        lemma_render_first(front);
        assert(front.drop_first() =~= lines.drop_first().drop_last());
        assert(lines.drop_first().last() == lines.last());
        assert(render_lines(lines) =~= lines[0] + seq!['\n'] + render_lines(lines.drop_first()));
    }
}

/// The lines of what was written out are the lines that were written,
/// where each of them is a plain line.
pub proof fn lemma_lines_of_rendered(lines: Seq<Seq<char>>)
    requires
        all_plain(lines),
    ensures
        lines_of(render_lines(lines)) == lines,
    decreases lines.len(),
{
    if lines.len() == 0 {
        assert(lines_of(render_lines(lines)) =~= lines);
    } else {
        let rest = lines.drop_first();
        lemma_render_first(lines);
        assert forall|i: int| 0 <= i < rest.len() implies is_plain_line(#[trigger] rest[i]) by {
            assert(rest[i] == lines[i + 1]);
        }
        lemma_lines_of_rendered(rest);
        lemma_lines_of_first(lines[0], render_lines(rest));
        assert(seq![lines[0]] + rest =~= lines);
    }
}

/// A text that is what its own lines give when written out has plain
/// lines only.
pub proof fn lemma_rendered_text_has_plain_lines(text: Seq<char>)
    requires
        text == render_lines(lines_of(text)),
    ensures
        all_plain(lines_of(text)),
{
    let lines = lines_of(text);
    lemma_lines_have_no_newline(text);
    lemma_lines_of_rendered_stripped(lines);
    assert forall|i: int| 0 <= i < lines.len() implies is_plain_line(#[trigger] lines[i]) by {
        assert(lines[i] == lines.map_values(|line: Seq<char>| strip_carriage_return(line))[i]);
    }
}

/// The lines of what was written out are the lines that were written, each
/// without a carriage return at its end.
pub proof fn lemma_lines_of_rendered_stripped(lines: Seq<Seq<char>>)
    requires
        forall|i: int| 0 <= i < lines.len() ==> no_newline(#[trigger] lines[i]),
    ensures
        lines_of(render_lines(lines)) == lines.map_values(
            |line: Seq<char>| strip_carriage_return(line),
        ),
    decreases lines.len(),
{
    let stripped = lines.map_values(|line: Seq<char>| strip_carriage_return(line));
    if lines.len() == 0 {
        assert(lines_of(render_lines(lines)) =~= stripped);
    } else {
        let rest = lines.drop_first();
        lemma_render_first(lines);
        assert forall|i: int| 0 <= i < rest.len() implies no_newline(#[trigger] rest[i]) by {
            assert(rest[i] == lines[i + 1]);
        }
        lemma_lines_of_rendered_stripped(rest);
        lemma_lines_of_first(lines[0], render_lines(rest));
        assert(seq![strip_carriage_return(lines[0])] + rest.map_values(
            |line: Seq<char>| strip_carriage_return(line),
        ) =~= stripped);
    }
}

/// Lines joined and closed with a line feed are the lines written out.
pub proof fn lemma_join_then_newline(lines: Seq<Seq<char>>)
    requires
        lines.len() > 0,
    ensures
        join_lines(lines).push('\n') == render_lines(lines),
    decreases lines.len(),
{
    if lines.len() == 1 {
        assert(lines.drop_last() =~= Seq::<Seq<char>>::empty());
        reveal_with_fuel(render_lines, 2);
        assert(render_lines(lines) =~= lines[0].push('\n'));
    } else {
        lemma_join_then_newline(lines.drop_last());
        assert(join_lines(lines).push('\n') =~= render_lines(lines));
    }
}

/// The text itself if it ends with a line feed, else the text and a line feed.
pub open spec fn with_final_newline(s: Seq<char>) -> Seq<char> {
    if s.len() > 0 && s.last() == '\n' {
        s
    } else {
        s.push('\n')
    }
}

/// `s` begins with the characters of `prefix`.
pub open spec fn starts_with(s: Seq<char>, prefix: Seq<char>) -> bool {
    prefix.len() <= s.len() && s.take(prefix.len() as int) == prefix
}

/// Tells whether two texts are the same.
pub fn same_text(a: &str, b: &str) -> (same: bool)
    ensures
        same == (a@ == b@),
{
    let x = chars_of(a);
    let y = chars_of(b);
    if x.len() != y.len() {
        return false;
    }
    let mut i: usize = 0;
    while i < x.len()
        invariant
            i <= x.len(),
            x.len() == y.len(),
            x@ == a@,
            y@ == b@,
            forall|j: int| 0 <= j < i ==> x@[j] == y@[j],
        decreases x.len() - i,
    {
        if x[i] != y[i] {
            assert(a@[i as int] != b@[i as int]);
            return false;
        }
        i += 1;
    }
    assert(x@ =~= y@);
    true
}

/// Appends to `out` the characters of `src` from position `from` on.
pub(crate) fn append_from(out: &mut Vec<char>, src: &Vec<char>, from: usize)
    requires
        from <= src@.len(),
    ensures
        final(out)@ == old(out)@ + src@.skip(from as int),
{
    let mut i: usize = from;
    assert(src@.subrange(from as int, from as int) =~= Seq::<char>::empty());
    assert(out@ + Seq::<char>::empty() =~= out@);
    while i < src.len()
        invariant
            from <= i <= src.len(),
            out@ == old(out)@ + src@.subrange(from as int, i as int),
        decreases src.len() - i,
    {
        out.push(src[i]);
        i += 1;
        assert(out@ =~= old(out)@ + src@.subrange(from as int, i as int));
    }
    assert(src@.subrange(from as int, i as int) =~= src@.skip(from as int));
}

/// Tells whether `line`, read from position `from`, begins with `prefix`.
pub(crate) fn starts_with_at(line: &Vec<char>, from: usize, prefix: &Vec<char>) -> (b: bool)
    requires
        from <= line@.len(),
    ensures
        b == starts_with(line@.skip(from as int), prefix@),
{
    if prefix.len() > line.len() - from {
        return false;
    }
    let mut i: usize = 0;
    while i < prefix.len()
        invariant
            from <= line.len(),
            prefix.len() <= line.len() - from,
            i <= prefix.len(),
            forall|j: int| 0 <= j < i ==> line@[from + j] == #[trigger] prefix@[j],
        decreases prefix.len() - i,
    {
        if line[from + i] != prefix[i] {
            proof {
                let t = line@.skip(from as int).take(prefix.len() as int);
                assert(t[i as int] == line@[from + i]);
            }
            return false;
        }
        i += 1;
    }
    assert(line@.skip(from as int).take(prefix.len() as int) =~= prefix@);
    true
}

} // verus!
