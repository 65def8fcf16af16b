//! Finding the output of one step in the log of a job.

use crate::text::{
    begins_with, chars_of, contains_text, has_text, is_blank, is_white_space, joined, stands_at,
    text_between,
};
use vstd::prelude::*;

verus! {

/// A letter or digit of ASCII.
pub open spec fn is_alphanumeric(c: char) -> bool {
    ||| '0' <= c <= '9'
    ||| 'a' <= c <= 'z'
    ||| 'A' <= c <= 'Z'
}

/// The character that stands for `c` in a match key: letters in lower case, digits as they are, and
/// a space for everything else.
pub open spec fn folded(c: char) -> char {
    if 'A' <= c <= 'Z' {
        (c as u32 + 32) as char
    } else if is_alphanumeric(c) {
        c
    } else {
        ' '
    }
}

/// The maximal runs of characters other than the space, in order.
pub open spec fn words(s: Seq<char>) -> Seq<Seq<char>>
    decreases s.len(),
{
    if s.len() == 0 {
        seq![]
    } else {
        let before = words(s.drop_last());
        let c = s.last();
        if c == ' ' {
            before
        } else if s.len() >= 2 && s[s.len() - 2] != ' ' {
            before.drop_last().push(before.last().push(c))
        } else {
            before.push(seq![c])
        }
    }
}

/// The parts, one after the other, with a space between each two.
pub open spec fn spaced(parts: Seq<Seq<char>>) -> Seq<char>
    decreases parts.len(),
{
    if parts.len() == 0 {
        seq![]
    } else if parts.len() == 1 {
        parts[0]
    } else {
        spaced(parts.drop_last()).push(' ') + parts.last()
    }
}

/// The match key of a text: its ASCII words in lower case, with one space between each two.
pub open spec fn match_key(s: Seq<char>) -> Seq<char> {
    spaced(words(s.map_values(|c: char| folded(c))))
}

fn fold(c: char) -> (r: char)
    ensures
        r == folded(c),
{
    if 'A' <= c && c <= 'Z' {
        ((c as u8) + 32) as char
    } else if ('a' <= c && c <= 'z') || ('0' <= c && c <= '9') {
        c
    } else {
        ' '
    }
}

/// After a character other than the space there is a word, and it is not empty.
proof fn lemma_words_end(s: Seq<char>)
    requires
        s.len() > 0,
        s.last() != ' ',
    ensures
        words(s).len() > 0,
    decreases s.len(),
{
    if s.len() >= 2 && s[s.len() - 2] != ' ' {
        lemma_words_end(s.drop_last());
    }
}

/// One more character at the end of the last part is one more at the end of the whole.
proof fn lemma_spaced_extend(parts: Seq<Seq<char>>, c: char)
    requires
        parts.len() > 0,
    ensures
        spaced(parts.drop_last().push(parts.last().push(c))) == spaced(parts).push(c),
{
    let longer = parts.drop_last().push(parts.last().push(c));
    assert(longer.drop_last() =~= parts.drop_last());
    assert(spaced(longer) =~= spaced(parts).push(c));
}

/// What one more character does to the key of the characters before it.
proof fn lemma_key_step(f: Seq<char>)
    requires
        f.len() > 0,
    ensures
        f.last() == ' ' ==> spaced(words(f)) == spaced(words(f.drop_last())),
        f.last() != ' ' && f.len() >= 2 && f[f.len() - 2] != ' ' ==> spaced(words(f)) == spaced(
            words(f.drop_last()),
        ).push(f.last()),
        f.last() != ' ' && (f.len() == 1 || f[f.len() - 2] == ' ') && words(f.drop_last()).len()
            == 0 ==> spaced(words(f)) == seq![f.last()],
        f.last() != ' ' && (f.len() == 1 || f[f.len() - 2] == ' ') && words(f.drop_last()).len()
            > 0 ==> spaced(words(f)) == spaced(words(f.drop_last())).push(' ').push(f.last()),
{
    let before = words(f.drop_last());
    let c = f.last();
    if c != ' ' {
        if f.len() >= 2 && f[f.len() - 2] != ' ' {
            lemma_words_end(f.drop_last());
            lemma_spaced_extend(before, c);
        } else {
            assert(before.push(seq![c]).drop_last() =~= before);
            if before.len() > 0 {
                assert(spaced(before.push(seq![c])) =~= spaced(before).push(' ').push(c));
            }
        }
    }
}

/// The match key of the characters from `from` up to `to`.
fn match_key_between(chars: &Vec<char>, from: usize, to: usize) -> (r: Vec<char>)
    requires
        from <= to <= chars@.len(),
    ensures
        r@ == match_key(chars@.subrange(from as int, to as int)),
{
    let mut r: Vec<char> = Vec::new();
    let mut started: bool = false;
    let mut after_space: bool = true;
    let mut i: usize = from;
    let ghost whole = chars@.subrange(from as int, to as int).map_values(|c: char| folded(c));
    assert(whole.take(0) =~= seq![]);
    while i < to
        invariant
            from <= i <= to <= chars@.len(),
            whole == chars@.subrange(from as int, to as int).map_values(|c: char| folded(c)),
            r@ == spaced(words(whole.take(i - from))),
            started == (words(whole.take(i - from)).len() > 0),
            after_space == (i == from || whole[i - from - 1] == ' '),
        decreases to - i,
    {
        let c: char = fold(chars[i]);
        proof {
            let f = whole.take(i - from + 1);
            assert(f.drop_last() =~= whole.take(i - from));
            assert(f.last() == c);
            lemma_key_step(f);
            if c != ' ' {
                lemma_words_end(f);
            }
            if !after_space {
                lemma_words_end(whole.take(i - from));
            }
        }
        if c == ' ' {
            after_space = true;
        } else {
            if after_space && started {
                r.push(' ');
            }
            r.push(c);
            started = true;
            after_space = false;
        }
        i = i + 1;
    }
    assert(whole.take(to - from) =~= whole);
    r
}

/// Reduces a text to the key by which names and log lines are matched: its ASCII words in lower
/// case, with one space between each two.
pub fn normalize_log_match_key(input: &str) -> (r: String)
    ensures
        r@ == match_key(input@),
{
    let chars: Vec<char> = chars_of(input);
    let key: Vec<char> = match_key_between(&chars, 0, chars.len());
    assert(chars@.subrange(0, chars@.len() as int) =~= input@);
    assert(key@.subrange(0, key@.len() as int) =~= key@);
    text_between(&key, 0, key.len())
}

/// The position of the first line feed, or the length where there is none.
pub open spec fn line_feed_at(s: Seq<char>) -> nat
    decreases s.len(),
{
    if s.len() == 0 || s[0] == '\n' {
        0
    } else {
        1 + line_feed_at(s.drop_first())
    }
}

/// A line without the carriage return that stood before its line feed.
pub open spec fn without_carriage_return(line: Seq<char>) -> Seq<char> {
    if line.len() > 0 && line.last() == '\r' {
        line.drop_last()
    } else {
        line
    }
}

/// The lines of a text. A line ends with a line feed, or with a carriage return and a line feed;
/// the last one may end with the text.
pub open spec fn text_lines(s: Seq<char>) -> Seq<Seq<char>>
    decreases s.len(),
{
    if s.len() == 0 {
        seq![]
    } else {
        let k = line_feed_at(s) as int;
        if k >= s.len() {
            seq![s]
        } else {
            seq![without_carriage_return(s.take(k))] + text_lines(s.skip(k + 1))
        }
    }
}

proof fn lemma_line_feed_at(s: Seq<char>, k: int)
    requires
        0 <= k <= s.len(),
        forall|i: int| 0 <= i < k ==> s[i] != '\n',
        k < s.len() ==> s[k] == '\n',
    ensures
        line_feed_at(s) == k,
    decreases k,
{
    if k > 0 {
        assert forall|i: int| 0 <= i < k - 1 implies s.drop_first()[i] != '\n' by {
            assert(s.drop_first()[i] == s[i + 1]);
        }
        lemma_line_feed_at(s.drop_first(), k - 1);
    }
}

/// Where a line stands among the characters of its text.
#[derive(Clone, Copy)]
struct LineSpan {
    from: usize,
    to: usize,
}

/// The lines that `spans` marks in `chars`.
spec fn marked_lines(chars: Seq<char>, spans: Seq<LineSpan>) -> Seq<Seq<char>> {
    spans.map_values(|l: LineSpan| chars.subrange(l.from as int, l.to as int))
}

/// Every span lies within the text.
spec fn spans_fit(chars: Seq<char>, spans: Seq<LineSpan>) -> bool {
    forall|i: int| 0 <= i < spans.len() ==> (#[trigger] spans[i]).from <= spans[i].to <= chars.len()
}

fn line_spans(chars: &Vec<char>) -> (r: Vec<LineSpan>)
    ensures
        spans_fit(chars@, r@),
        marked_lines(chars@, r@) == text_lines(chars@),
{
    let mut r: Vec<LineSpan> = Vec::new();
    let mut from: usize = 0;
    assert(chars@.skip(0) =~= chars@);
    assert(marked_lines(chars@, r@) + text_lines(chars@) =~= text_lines(chars@));
    while from < chars.len()
        invariant
            from <= chars.len(),
            spans_fit(chars@, r@),
            marked_lines(chars@, r@) + text_lines(chars@.skip(from as int)) == text_lines(chars@),
        decreases chars.len() - from,
    {
        let mut end: usize = from;
        while end < chars.len() && chars[end] != '\n'
            invariant
                from <= end <= chars.len(),
                forall|i: int| from <= i < end ==> chars@[i] != '\n',
            decreases chars.len() - end,
        {
            end = end + 1;
        }
        let ghost rest = chars@.skip(from as int);
        let ghost before = r@;
        proof {
            assert forall|i: int| 0 <= i < end - from implies rest[i] != '\n' by {
                assert(rest[i] == chars@[from + i]);
            }
            lemma_line_feed_at(rest, end - from);
        }
        if end == chars.len() {
            r.push(LineSpan { from, to: end });
            proof {
                assert(rest =~= chars@.subrange(from as int, end as int));
                assert(marked_lines(chars@, r@) =~= marked_lines(chars@, before).push(rest));
                assert(text_lines(rest) =~= seq![rest]);
                assert(text_lines(chars@.skip(end as int)) =~= seq![]);
                assert(marked_lines(chars@, r@) + text_lines(chars@.skip(end as int))
                    =~= marked_lines(chars@, before) + text_lines(rest));
            }
            from = end;
        } else {
            let to: usize = if end > from && chars[end - 1] == '\r' {
                end - 1
            } else {
                end
            };
            r.push(LineSpan { from, to });
            proof {
                let line = chars@.subrange(from as int, to as int);
                assert(rest.take(end - from) =~= chars@.subrange(from as int, end as int));
                assert(without_carriage_return(rest.take(end - from)) =~= line);
                assert(rest.skip(end - from + 1) =~= chars@.skip(end + 1));
                assert(marked_lines(chars@, r@) =~= marked_lines(chars@, before).push(line));
                assert(marked_lines(chars@, r@) + text_lines(chars@.skip(end + 1))
                    =~= marked_lines(chars@, before) + text_lines(rest));
            }
            from = end + 1;
        }
    }
    assert(text_lines(chars@.skip(from as int)) =~= seq![]);
    assert(marked_lines(chars@, r@) =~= text_lines(chars@));
    r
}

/// The index of the first line, from `from` on, of which `p` holds.
pub open spec fn first_line(
    lines: Seq<Seq<char>>,
    from: int,
    p: spec_fn(Seq<char>) -> bool,
) -> Option<int>
    decreases lines.len() - from,
{
    if from < 0 || from >= lines.len() {
        None
    } else if p(lines[from]) {
        Some(from)
    } else {
        first_line(lines, from + 1, p)
    }
}

/// A line whose match key holds `key`.
pub open spec fn mentions(key: Seq<char>) -> spec_fn(Seq<char>) -> bool {
    |line: Seq<char>| contains_text(match_key(line), key)
}

/// A line that opens the log of a step that runs a command.
pub open spec fn opens_step() -> spec_fn(Seq<char>) -> bool {
    |line: Seq<char>| begins_with(line, "##[group]Run "@)
}

/// The line at which the output of a step begins: the first that mentions the step after the word
/// "run"; failing that, the first that mentions the step; failing that, the first of all.
pub open spec fn step_start(lines: Seq<Seq<char>>, step_name: Seq<char>) -> int {
    match first_line(lines, 0, mentions(match_key("run "@ + step_name))) {
        Some(i) => i,
        None => match first_line(lines, 0, mentions(match_key(step_name))) {
            Some(i) => i,
            None => 0,
        },
    }
}

/// The line before which the output that begins at `start` ends: the next one that opens a step, or
/// the end of the log.
pub open spec fn step_end(lines: Seq<Seq<char>>, start: int) -> int {
    match first_line(lines, start + 1, opens_step()) {
        Some(i) => i,
        None => lines.len() as int,
    }
}

/// The lines without the blank ones at their end.
pub open spec fn without_blank_end(lines: Seq<Seq<char>>) -> Seq<Seq<char>>
    decreases lines.len(),
{
    if lines.len() > 0 && is_blank(lines.last()) {
        without_blank_end(lines.drop_last())
    } else {
        lines
    }
}

/// At most `n` lines, from the end.
pub open spec fn last_lines<A>(lines: Seq<A>, n: nat) -> Seq<A> {
    if lines.len() > n {
        lines.skip(lines.len() - n)
    } else {
        lines
    }
}

/// The end of the output of one step: the lines from where it begins to where the next step opens,
/// without blank ones at the end, and of those the last `max_lines`.
pub open spec fn step_log_tail(
    job_log: Seq<char>,
    step_name: Seq<char>,
    max_lines: nat,
) -> Seq<Seq<char>> {
    let lines = text_lines(job_log);
    if lines.len() == 0 {
        seq![]
    } else {
        let start = step_start(lines, step_name);
        last_lines(without_blank_end(lines.subrange(start, step_end(lines, start))), max_lines)
    }
}

/// The texts of a list of strings.
pub open spec fn texts(list: Seq<String>) -> Seq<Seq<char>> {
    list.map_values(|s: String| s@)
}

fn find_mention(chars: &Vec<char>, spans: &Vec<LineSpan>, key: &Vec<char>) -> (r: Option<usize>)
    requires
        spans_fit(chars@, spans@),
    ensures
        match r {
            Some(i) => i < spans@.len() && first_line(
                marked_lines(chars@, spans@),
                0,
                mentions(key@),
            ) == Some(i as int),
            None => first_line(marked_lines(chars@, spans@), 0, mentions(key@)) is None,
        },
{
    let ghost lines = marked_lines(chars@, spans@);
    let mut i: usize = 0;
    while i < spans.len()
        invariant
            i <= spans.len(),
            spans_fit(chars@, spans@),
            lines == marked_lines(chars@, spans@),
            first_line(lines, 0, mentions(key@)) == first_line(lines, i as int, mentions(key@)),
        decreases spans.len() - i,
    {
        let span: LineSpan = spans[i];
        let line_key: Vec<char> = match_key_between(chars, span.from, span.to);
        assert(lines[i as int] == chars@.subrange(span.from as int, span.to as int));
        if has_text(&line_key, key) {
            return Some(i);
        }
        i = i + 1;
    }
    None
}

fn find_step_opening(chars: &Vec<char>, spans: &Vec<LineSpan>, from: usize) -> (r: usize)
    requires
        spans_fit(chars@, spans@),
        from < spans.len(),
    ensures
        from < r <= spans@.len(),
        r == step_end(marked_lines(chars@, spans@), from as int),
{
    let ghost lines = marked_lines(chars@, spans@);
    let opening: Vec<char> = chars_of("##[group]Run ");
    let mut i: usize = from + 1;
    while i < spans.len()
        invariant
            from < i <= spans.len(),
            spans_fit(chars@, spans@),
            lines == marked_lines(chars@, spans@),
            opening@ == "##[group]Run "@,
            first_line(lines, from + 1, opens_step()) == first_line(lines, i as int, opens_step()),
        decreases spans.len() - i,
    {
        let span: LineSpan = spans[i];
        assert(lines[i as int] == chars@.subrange(span.from as int, span.to as int));
        if span.to - span.from >= opening.len() && stands_at(chars, &opening, span.from) {
            assert(lines[i as int].subrange(0, opening@.len() as int) =~= opening@);
            return i;
        }
        proof {
            if begins_with(lines[i as int], opening@) {
                assert(chars@.subrange(span.from as int, span.from + opening@.len()) =~= opening@);
            }
        }
        i = i + 1;
    }
    i
}

fn is_blank_between(chars: &Vec<char>, from: usize, to: usize) -> (r: bool)
    requires
        from <= to <= chars@.len(),
    ensures
        r == is_blank(chars@.subrange(from as int, to as int)),
{
    let ghost line = chars@.subrange(from as int, to as int);
    let mut i: usize = from;
    while i < to
        invariant
            from <= i <= to <= chars@.len(),
            line == chars@.subrange(from as int, to as int),
            forall|k: int| 0 <= k < i - from ==> is_white_space(#[trigger] line[k]),
        decreases to - i,
    {
        if !chars[i].is_whitespace() {
            assert(line[i - from] == chars@[i as int]);
            return false;
        }
        i = i + 1;
    }
    true
}

fn find_step_start(chars: &Vec<char>, spans: &Vec<LineSpan>, step_name: &str) -> (r: usize)
    requires
        spans_fit(chars@, spans@),
        spans.len() > 0,
    ensures
        r < spans.len(),
        r == step_start(marked_lines(chars@, spans@), step_name@),
{
    let step_marker: String = joined("run ", step_name);
    let marker_key: String = normalize_log_match_key(step_marker.as_str());
    match find_mention(chars, spans, &chars_of(marker_key.as_str())) {
        Some(i) => i,
        None => {
            let step_key: String = normalize_log_match_key(step_name);
            match find_mention(chars, spans, &chars_of(step_key.as_str())) {
                Some(i) => i,
                None => 0,
            }
        },
    }
}

fn drop_blank_end(chars: &Vec<char>, spans: &Vec<LineSpan>, start: usize, end: usize) -> (r: usize)
    requires
        spans_fit(chars@, spans@),
        start <= end <= spans.len(),
    ensures
        start <= r <= end,
        marked_lines(chars@, spans@).subrange(start as int, r as int) == without_blank_end(
            marked_lines(chars@, spans@).subrange(start as int, end as int),
        ),
{
    let ghost lines = marked_lines(chars@, spans@);
    let mut to: usize = end;
    while to > start && is_blank_between(chars, spans[to - 1].from, spans[to - 1].to)
        invariant
            start <= to <= end <= spans.len(),
            spans_fit(chars@, spans@),
            lines == marked_lines(chars@, spans@),
            without_blank_end(lines.subrange(start as int, to as int)) == without_blank_end(
                lines.subrange(start as int, end as int),
            ),
        decreases to,
    {
        assert(lines.subrange(start as int, to as int).drop_last() =~= lines.subrange(
            start as int,
            to - 1,
        ));
        to = to - 1;
    }
    to
}

fn copy_lines(chars: &Vec<char>, spans: &Vec<LineSpan>, from: usize, to: usize) -> (r: Vec<String>)
    requires
        spans_fit(chars@, spans@),
        from <= to <= spans.len(),
    ensures
        texts(r@) == marked_lines(chars@, spans@).subrange(from as int, to as int),
{
    let ghost lines = marked_lines(chars@, spans@);
    let mut r: Vec<String> = Vec::new();
    let mut i: usize = from;
    assert(texts(r@) =~= lines.subrange(from as int, from as int));
    while i < to
        invariant
            from <= i <= to <= spans.len(),
            spans_fit(chars@, spans@),
            lines == marked_lines(chars@, spans@),
            texts(r@) == lines.subrange(from as int, i as int),
        decreases to - i,
    {
        let ghost before = r@;
        r.push(text_between(chars, spans[i].from, spans[i].to));
        assert(texts(r@) =~= texts(before).push(r@.last()@));
        assert(lines.subrange(from as int, i + 1) =~= lines.subrange(from as int, i as int).push(
            lines[i as int],
        ));
        i = i + 1;
    }
    r
}

/// Takes the end of the output of the step `step_name` out of the log of its job: at most
/// `max_lines` lines, the last of which is not blank.
pub fn extract_step_log_tail(job_log: &str, step_name: &str, max_lines: usize) -> (r: Vec<String>)
    ensures
        texts(r@) == step_log_tail(job_log@, step_name@, max_lines as nat),
{
    let chars: Vec<char> = chars_of(job_log);
    let spans: Vec<LineSpan> = line_spans(&chars);
    let ghost lines = marked_lines(chars@, spans@);
    if spans.len() == 0 {
        let r: Vec<String> = Vec::new();
        assert(texts(r@) =~= seq![]);
        return r;
    }
    let start: usize = find_step_start(&chars, &spans, step_name);
    let end: usize = find_step_opening(&chars, &spans, start);
    let to: usize = drop_blank_end(&chars, &spans, start, end);
    let from: usize = if to - start > max_lines {
        to - max_lines
    } else {
        start
    };
    assert(last_lines(lines.subrange(start as int, to as int), max_lines as nat)
        =~= lines.subrange(from as int, to as int));
    copy_lines(&chars, &spans, from, to)
}

/// Parts that are not empty and hold no space.
spec fn are_words(parts: Seq<Seq<char>>) -> bool {
    forall|i: int| 0 <= i < parts.len() ==> is_word(#[trigger] parts[i])
}

spec fn is_word(w: Seq<char>) -> bool {
    w.len() > 0 && forall|j: int| 0 <= j < w.len() ==> #[trigger] w[j] != ' '
}

proof fn lemma_words_are_words(s: Seq<char>)
    ensures
        are_words(words(s)),
    decreases s.len(),
{
    if s.len() > 0 {
        lemma_words_are_words(s.drop_last());
        let before = words(s.drop_last());
        if s.last() != ' ' && s.len() >= 2 && s[s.len() - 2] != ' ' {
            lemma_words_end(s.drop_last());
            assert(is_word(before.last()));
        }
    }
}

/// A word after a space is one more word.
proof fn lemma_words_of_word_after(a: Seq<char>, w: Seq<char>)
    requires
        is_word(w),
    ensures
        words(a.push(' ') + w) == words(a).push(w),
        words(w) == seq![w],
    decreases w.len(),
{
    let s = a.push(' ') + w;
    assert(words(a.push(' ')) == words(a)) by {
        assert(a.push(' ').drop_last() =~= a);
    }
    if w.len() == 1 {
        assert(s.drop_last() =~= a.push(' '));
        assert(w =~= seq![w[0]]);
        assert(words(w.drop_last()) =~= seq![]);
        assert(words(w) =~= seq![w]);
    } else {
        let v = w.drop_last();
        assert(is_word(v)) by {
            assert forall|j: int| 0 <= j < v.len() implies #[trigger] v[j] != ' ' by {
                assert(v[j] == w[j]);
            }
        }
        lemma_words_of_word_after(a, v);
        assert(s.drop_last() =~= a.push(' ') + v);
        assert(s[s.len() - 2] == w[w.len() - 2]);
        assert(v.push(w.last()) =~= w);
        assert(words(s) =~= words(a).push(w));
        assert(words(w) =~= seq![w]);
    }
}

proof fn lemma_words_of_spaced(parts: Seq<Seq<char>>)
    requires
        are_words(parts),
    ensures
        words(spaced(parts)) == parts,
    decreases parts.len(),
{
    if parts.len() == 1 {
        assert(is_word(parts[0]));
        lemma_words_of_word_after(seq![], parts[0]);
        assert(parts =~= seq![parts[0]]);
    } else if parts.len() > 1 {
        assert(are_words(parts.drop_last())) by {
            assert forall|i: int| 0 <= i < parts.len() - 1 implies is_word(
                #[trigger] parts.drop_last()[i],
            ) by {
                assert(is_word(parts[i]));
            }
        }
        assert(is_word(parts.last()));
        lemma_words_of_spaced(parts.drop_last());
        lemma_words_of_word_after(spaced(parts.drop_last()), parts.last());
        assert(parts.drop_last().push(parts.last()) =~= parts);
    }
}

/// Every character of the text stands for itself in a match key.
pub open spec fn is_folded(s: Seq<char>) -> bool {
    forall|i: int| 0 <= i < s.len() ==> folded(#[trigger] s[i]) == s[i]
}

proof fn lemma_words_folded(s: Seq<char>)
    requires
        is_folded(s),
    ensures
        forall|i: int| 0 <= i < words(s).len() ==> is_folded(#[trigger] words(s)[i]),
    decreases s.len(),
{
    if s.len() > 0 {
        let before = words(s.drop_last());
        lemma_words_folded(s.drop_last());
        assert(folded(s[s.len() - 1]) == s.last());
        if s.last() != ' ' && s.len() >= 2 && s[s.len() - 2] != ' ' {
            lemma_words_end(s.drop_last());
            assert(is_folded(before[before.len() - 1]));
            assert(is_folded(before.last().push(s.last())));
        }
    }
}

proof fn lemma_spaced_folded(parts: Seq<Seq<char>>)
    requires
        forall|i: int| 0 <= i < parts.len() ==> is_folded(#[trigger] parts[i]),
    ensures
        is_folded(spaced(parts)),
    decreases parts.len(),
{
    if parts.len() == 1 {
        assert(is_folded(parts[0]));
    } else if parts.len() > 1 {
        assert forall|i: int| 0 <= i < parts.len() - 1 implies is_folded(
            #[trigger] parts.drop_last()[i],
        ) by {
            assert(is_folded(parts[i]));
        }
        lemma_spaced_folded(parts.drop_last());
        assert(is_folded(parts[parts.len() - 1]));
    }
}

/// A match key consists of lower-case ASCII letters, digits and spaces.
pub proof fn match_key_is_folded(s: Seq<char>)
    ensures
        is_folded(match_key(s)),
{
    let f = s.map_values(|c: char| folded(c));
    assert(is_folded(f));
    lemma_words_folded(f);
    lemma_spaced_folded(words(f));
}

/// A match key is its own match key.
pub proof fn match_key_is_idempotent(s: Seq<char>)
    ensures
        match_key(match_key(s)) == match_key(s),
{
    let f = s.map_values(|c: char| folded(c));
    let k = match_key(s);
    match_key_is_folded(s);
    assert(k.map_values(|c: char| folded(c)) =~= k);
    lemma_words_are_words(f);
    lemma_words_of_spaced(words(f));
}

/// Texts that differ only in the case of ASCII letters have the same match key.
pub proof fn match_key_ignores_case(a: Seq<char>, b: Seq<char>)
    requires
        a.len() == b.len(),
        forall|i: int| 0 <= i < a.len() ==> folded(#[trigger] a[i]) == folded(b[i]),
    ensures
        match_key(a) == match_key(b),
{
    assert(a.map_values(|c: char| folded(c)) =~= b.map_values(|c: char| folded(c)));
}

/// What stands before a space and what stands after it have their words apart.
proof fn lemma_words_split(a: Seq<char>, b: Seq<char>)
    ensures
        words(a.push(' ') + b) == words(a) + words(b),
    decreases b.len(),
{
    let s = a.push(' ') + b;
    if b.len() == 0 {
        assert(s =~= a.push(' '));
        assert(a.push(' ').drop_last() =~= a);
        assert(words(a) + words(b) =~= words(a));
    } else {
        let front = b.drop_last();
        let c = b.last();
        lemma_words_split(a, front);
        assert(s.drop_last() =~= a.push(' ') + front);
        assert(s.last() == c);
        if b.len() >= 2 {
            assert(s[s.len() - 2] == b[b.len() - 2]);
        } else {
            assert(s[s.len() - 2] == ' ');
        }
        if c != ' ' && b.len() >= 2 && b[b.len() - 2] != ' ' {
            lemma_words_end(front);
        }
        assert(words(s) =~= words(a) + words(b));
    }
}

proof fn lemma_spaced_split(p: Seq<Seq<char>>, q: Seq<Seq<char>>)
    requires
        p.len() > 0,
        q.len() > 0,
    ensures
        spaced(p + q) == spaced(p).push(' ') + spaced(q),
    decreases q.len(),
{
    assert((p + q).drop_last() =~= p + q.drop_last());
    assert((p + q).last() == q.last());
    if q.len() == 1 {
        assert(p + q.drop_last() =~= p);
    } else {
        lemma_spaced_split(p, q.drop_last());
        assert(spaced(p + q) =~= spaced(p).push(' ') + spaced(q));
    }
}

/// A key is empty exactly where there is no word.
proof fn lemma_spaced_empty(parts: Seq<Seq<char>>)
    requires
        are_words(parts),
    ensures
        spaced(parts).len() == 0 <==> parts.len() == 0,
{
    if parts.len() == 1 {
        assert(is_word(parts[0]));
    }
}

/// Two keys with a space between them, or the only one of them that is not empty.
pub open spec fn keys_apart(a: Seq<char>, b: Seq<char>) -> Seq<char> {
    if a.len() == 0 {
        b
    } else if b.len() == 0 {
        a
    } else {
        a.push(' ') + b
    }
}

/// The match key of a text that is split at a character other than a letter or digit of ASCII is the
/// keys of the two sides with a space between them.
pub proof fn match_key_splits(a: Seq<char>, c: char, b: Seq<char>)
    requires
        !is_alphanumeric(c),
    ensures
        match_key(a.push(c) + b) == keys_apart(match_key(a), match_key(b)),
{
    let f = a.map_values(|c: char| folded(c));
    let g = b.map_values(|c: char| folded(c));
    assert((a.push(c) + b).map_values(|c: char| folded(c)) =~= f.push(' ') + g);
    lemma_words_split(f, g);
    lemma_words_are_words(f);
    lemma_words_are_words(g);
    lemma_spaced_empty(words(f));
    lemma_spaced_empty(words(g));
    if words(f).len() == 0 {
        assert(words(f) + words(g) =~= words(g));
    } else if words(g).len() == 0 {
        assert(words(f) + words(g) =~= words(f));
    } else {
        lemma_spaced_split(words(f), words(g));
    }
}

proof fn lemma_first_line(lines: Seq<Seq<char>>, from: int, p: spec_fn(Seq<char>) -> bool)
    requires
        0 <= from,
    ensures
        match first_line(lines, from, p) {
            Some(i) => from <= i < lines.len() && p(lines[i]) && forall|j: int|
                from <= j < i ==> !p(#[trigger] lines[j]),
            None => forall|j: int| from <= j < lines.len() ==> !p(#[trigger] lines[j]),
        },
    decreases lines.len() - from,
{
    if from < lines.len() && !p(lines[from]) {
        lemma_first_line(lines, from + 1, p);
    }
}

/// No line of a text holds a line feed.
pub proof fn lines_hold_no_line_feed(s: Seq<char>, i: int, k: int)
    requires
        0 <= i < text_lines(s).len(),
        0 <= k < text_lines(s)[i].len(),
    ensures
        text_lines(s)[i][k] != '\n',
    decreases s.len(),
{
    let feed = line_feed_at(s) as int;
    lemma_before_line_feed(s);
    if feed < s.len() && i > 0 {
        lines_hold_no_line_feed(s.skip(feed + 1), i - 1, k);
    }
}

proof fn lemma_before_line_feed(s: Seq<char>)
    ensures
        line_feed_at(s) <= s.len(),
        forall|i: int| 0 <= i < line_feed_at(s) ==> #[trigger] s[i] != '\n',
    decreases s.len(),
{
    if s.len() > 0 && s[0] != '\n' {
        lemma_before_line_feed(s.drop_first());
        assert forall|i: int| 0 <= i < line_feed_at(s) implies #[trigger] s[i] != '\n' by {
            if i > 0 {
                assert(s.drop_first()[i - 1] == s[i]);
            }
        }
    }
}

/// The output of a step begins at the first line that mentions the step after the word "run", where
/// there is one; else at the first that mentions the step at all.
pub proof fn step_begins_at_its_first_mention(lines: Seq<Seq<char>>, step_name: Seq<char>, i: int)
    requires
        0 <= i < lines.len(),
    ensures
        mentions(match_key("run "@ + step_name))(lines[i]) ==> {
            let start = step_start(lines, step_name);
            0 <= start <= i && mentions(match_key("run "@ + step_name))(lines[start])
        },
        mentions(match_key(step_name))(lines[i]) && (forall|k: int|
            0 <= k < lines.len() ==> !mentions(match_key("run "@ + step_name))(#[trigger] lines[k]))
            ==> {
            let start = step_start(lines, step_name);
            0 <= start <= i && mentions(match_key(step_name))(lines[start])
        },
{
    lemma_first_line(lines, 0, mentions(match_key("run "@ + step_name)));
    lemma_first_line(lines, 0, mentions(match_key(step_name)));
}

proof fn lemma_without_blank_end(lines: Seq<Seq<char>>)
    ensures
        ({
            let kept = without_blank_end(lines);
            &&& kept.len() <= lines.len()
            &&& kept == lines.take(kept.len() as int)
            &&& kept.len() > 0 ==> !is_blank(kept.last())
            &&& forall|i: int| kept.len() <= i < lines.len() ==> is_blank(#[trigger] lines[i])
        }),
    decreases lines.len(),
{
    if lines.len() > 0 && is_blank(lines.last()) {
        lemma_without_blank_end(lines.drop_last());
        let kept = without_blank_end(lines.drop_last());
        assert(lines.drop_last().take(kept.len() as int) =~= lines.take(kept.len() as int));
        assert forall|i: int| kept.len() <= i < lines.len() implies is_blank(#[trigger] lines[i]) by {
            if i < lines.len() - 1 {
                assert(is_blank(lines.drop_last()[i]));
            }
        }
    } else {
        assert(lines.take(lines.len() as int) =~= lines);
    }
}

/// The tail of a step is a run of neighbouring lines of the log: at most as many as asked for, none
/// of which but the first opens a step, and the last of which is not blank.
pub proof fn step_log_tail_is_a_run_of_lines(
    job_log: Seq<char>,
    step_name: Seq<char>,
    max_lines: nat,
) -> (from: int)
    ensures
        ({
            let lines = text_lines(job_log);
            let tail = step_log_tail(job_log, step_name, max_lines);
            &&& 0 <= from && from + tail.len() <= lines.len()
            &&& tail == lines.subrange(from, from + tail.len())
            &&& tail.len() <= max_lines
            &&& tail.len() > 0 ==> !is_blank(tail.last())
            &&& forall|i: int| 0 < i < tail.len() ==> !opens_step()(#[trigger] tail[i])
        }),
{
    let lines = text_lines(job_log);
    let tail = step_log_tail(job_log, step_name, max_lines);
    if lines.len() == 0 {
        assert(lines.subrange(0, 0) =~= tail);
        0
    } else {
        lemma_first_line(lines, 0, mentions(match_key("run "@ + step_name)));
        lemma_first_line(lines, 0, mentions(match_key(step_name)));
        let start = step_start(lines, step_name);
        lemma_first_line(lines, start + 1, opens_step());
        let section = lines.subrange(start, step_end(lines, start));
        lemma_without_blank_end(section);
        let kept = without_blank_end(section);
        let from = start + kept.len() - tail.len();
        assert(tail =~= lines.subrange(from, from + tail.len()));
        assert forall|i: int| 0 < i < tail.len() implies !opens_step()(#[trigger] tail[i]) by {
            assert(tail[i] == lines[from + i]);
        }
        from
    }
}

/// A word of ASCII letters and digits is its own match key, with its letters in lower case. So no
/// letter or digit is lost, and words that differ in more than case have different keys.
pub proof fn words_are_their_own_keys(w: Seq<char>)
    requires
        forall|i: int|
            0 <= i < w.len() ==> ('0' <= #[trigger] w[i] <= '9' || 'a' <= w[i] <= 'z' || 'A' <= w[i]
                <= 'Z'),
    ensures
        match_key(w).len() == w.len(),
        forall|i: int|
            0 <= i < w.len() ==> #[trigger] match_key(w)[i] as u32 == w[i] as u32 + (if 'A' <= w[i]
                <= 'Z' {
                32int
            } else {
                0int
            }),
{
    let f = w.map_values(|c: char| folded(c));
    if w.len() == 0 {
        assert(words(f) =~= seq![]);
    } else {
        assert(is_word(f)) by {
            assert forall|j: int| 0 <= j < f.len() implies #[trigger] f[j] != ' ' by {
                assert(f[j] == folded(w[j]));
            }
        }
        lemma_words_of_word_after(seq![], f);
        assert(match_key(w) == f);
    }
    assert forall|i: int| 0 <= i < w.len() implies #[trigger] match_key(w)[i] as u32 == w[i] as u32
        + (if 'A' <= w[i] <= 'Z' {
        32int
    } else {
        0int
    }) by {
        assert(f[i] == folded(w[i]));
    }
}

/// Any character but an ASCII letter or digit parts words: the key of the whole is the two keys, and
/// a space between them where neither is empty.
pub proof fn other_characters_part_words(a: Seq<char>, c: char, b: Seq<char>)
    requires
        !('0' <= c <= '9' || 'a' <= c <= 'z' || 'A' <= c <= 'Z'),
    ensures
        match_key(a).len() == 0 ==> match_key(a.push(c) + b) == match_key(b),
        match_key(b).len() == 0 ==> match_key(a.push(c) + b) == match_key(a),
        match_key(a).len() > 0 && match_key(b).len() > 0 ==> match_key(a.push(c) + b) == match_key(
            a,
        ).push(' ') + match_key(b),
{
    match_key_splits(a, c, b);
}

/// A line feed ends a line. What stands before it is the first line, but for a carriage return at
/// its end, and what follows has its lines to itself. Without a line feed all of a text is one line.
pub proof fn line_feeds_end_lines(a: Seq<char>, b: Seq<char>)
    requires
        forall|i: int| 0 <= i < a.len() ==> #[trigger] a[i] != '\n',
    ensures
        text_lines(a.push('\n') + b).len() == 1 + text_lines(b).len(),
        text_lines(a.push('\n') + b).skip(1) == text_lines(b),
        a.len() > 0 && a.last() == '\r' ==> text_lines(a.push('\n') + b)[0] == a.drop_last(),
        !(a.len() > 0 && a.last() == '\r') ==> text_lines(a.push('\n') + b)[0] == a,
        a.len() > 0 ==> text_lines(a) == seq![a],
        a.len() == 0 ==> text_lines(a).len() == 0,
{
    let s = a.push('\n') + b;
    let k = a.len() as int;
    assert forall|i: int| 0 <= i < k implies s[i] != '\n' by {
        assert(s[i] == a[i]);
    }
    assert(s[k] == '\n');
    lemma_line_feed_at(s, k);
    assert(s.take(k) =~= a);
    assert(s.skip(k + 1) =~= b);
    assert(text_lines(s).skip(1) =~= text_lines(b));
    lemma_line_feed_at(a, k);
}

/// A line that opens the log of a step that runs a command, by its first thirteen characters.
pub open spec fn is_opening(line: Seq<char>) -> bool {
    line.len() >= 13 && line.take(13) == "##[group]Run "@
}

/// The first line that mentions a key is the line `start`.
pub open spec fn mentioned_first(lines: Seq<Seq<char>>, key: Seq<char>, start: int) -> bool {
    &&& contains_text(match_key(lines[start]), key)
    &&& forall|k: int| 0 <= k < start ==> !contains_text(match_key(#[trigger] lines[k]), key)
}

/// No line mentions a key.
pub open spec fn never_mentioned(lines: Seq<Seq<char>>, key: Seq<char>) -> bool {
    forall|k: int| 0 <= k < lines.len() ==> !contains_text(match_key(#[trigger] lines[k]), key)
}

/// Some lines of a log are the tail of a step. Its output runs from `start`, the first line that
/// mentions it, to `end`, the next line that opens a step or the end of the log. The tail reaches
/// from `from` to `to`: after it the output is blank, it does not end with a blank line, and it is
/// all of the output before that, or the last `max_lines` lines of it.
pub open spec fn is_tail_of_output(
    lines: Seq<Seq<char>>,
    step_name: Seq<char>,
    max_lines: nat,
    tail: Seq<Seq<char>>,
    at: (int, int, int, int),
) -> bool {
    let with_run = match_key("run "@ + step_name);
    let alone = match_key(step_name);
    let (start, from, to, end) = at;
    &&& lines.len() == 0 ==> tail.len() == 0
    &&& lines.len() > 0 ==> {
        &&& 0 <= start <= from <= to <= end <= lines.len()
        &&& start < end
        &&& tail == lines.subrange(from, to)
        &&& mentioned_first(lines, with_run, start) || (never_mentioned(lines, with_run) && (
        mentioned_first(lines, alone, start) || (never_mentioned(lines, alone) && start == 0)))
        &&& forall|k: int| start < k < end ==> !is_opening(#[trigger] lines[k])
        &&& end < lines.len() ==> is_opening(lines[end])
        &&& forall|k: int, i: int|
            to <= k < end && 0 <= i < lines[k].len() ==> is_white_space(#[trigger] lines[k][i])
        &&& to > start ==> exists|i: int|
            0 <= i < lines[to - 1].len() && !is_white_space(#[trigger] lines[to - 1][i])
        &&& to - start <= max_lines ==> from == start
        &&& to - start > max_lines ==> to - from == max_lines
    }
}

/// The tail of a step reaches to the end of its output: only blank lines come between it and the line
/// that opens the next step, or the end of the log. It begins with the step, unless that would be too
/// many lines.
pub proof fn tail_reaches_the_end_of_the_output(
    job_log: Seq<char>,
    step_name: Seq<char>,
    max_lines: nat,
) -> (r: (int, int, int, int))
    ensures
        is_tail_of_output(
            text_lines(job_log),
            step_name,
            max_lines,
            step_log_tail(job_log, step_name, max_lines),
            r,
        ),
{
    let lines = text_lines(job_log);
    let tail = step_log_tail(job_log, step_name, max_lines);
    if lines.len() == 0 {
        (0, 0, 0, 0)
    } else {
        lemma_first_line(lines, 0, mentions(match_key("run "@ + step_name)));
        lemma_first_line(lines, 0, mentions(match_key(step_name)));
        let start = step_start(lines, step_name);
        let end = step_end(lines, start);
        let opens = opens_step();
        lemma_step_start(lines, step_name);
        lemma_first_line(lines, start + 1, opens);
        reveal_strlit("##[group]Run ");
        assert forall|line: Seq<char>| opens_step()(line) == #[trigger] is_opening(line) by {
            if line.len() >= 13 {
                assert(line.take(13) =~= line.subrange(0, 13));
            }
        }
        let section = lines.subrange(start, end);
        lemma_without_blank_end(section);
        let kept = without_blank_end(section);
        let to = start + kept.len();
        let from = to - tail.len();
        assert(tail =~= lines.subrange(from, to));
        assert forall|k: int, i: int| to <= k < end && 0 <= i < lines[k].len() implies
            is_white_space(#[trigger] lines[k][i]) by {
            assert(section[k - start] == lines[k]);
            assert(is_blank(section[k - start]));
        }
        if to > start {
            assert(kept.last() == lines[to - 1]);
            assert(!is_blank(lines[to - 1]));
        }
        (start, from, to, end)
    }
}

proof fn lemma_step_start(lines: Seq<Seq<char>>, step_name: Seq<char>)
    requires
        lines.len() > 0,
    ensures
        ({
            let start = step_start(lines, step_name);
            let with_run = match_key("run "@ + step_name);
            let alone = match_key(step_name);
            &&& 0 <= start < lines.len()
            &&& mentioned_first(lines, with_run, start) || (never_mentioned(lines, with_run) && (
            mentioned_first(lines, alone, start) || (never_mentioned(lines, alone) && start == 0)))
        }),
{
    let p = mentions(match_key("run "@ + step_name));
    let q = mentions(match_key(step_name));
    lemma_first_line(lines, 0, p);
    lemma_first_line(lines, 0, q);
    assert(forall|line: Seq<char>| #[trigger]
        contains_text(match_key(line), match_key("run "@ + step_name)) == p(line));
    assert(forall|line: Seq<char>| #[trigger]
        contains_text(match_key(line), match_key(step_name)) == q(line));
}

} // verus!
