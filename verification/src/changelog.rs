//! Parsing of the release notes: version headers, dates and formatted
//! change lines.
use crate::text::{
    chars_of, is_numeric, is_whitespace, is_whitespace_spec, push_char, string_from_chars,
    string_from_range, trim_bounds, trim_spec, trim_start_spec, char_numeric,
};
use vstd::prelude::*;

verus! {

/// Represents a styled segment of text within a changelog entry.
#[derive(Clone, Debug)]
pub enum TextSegment {
    Plain(String),
    Bold(String),
    Italic(String),
}

/// The contents of a text segment, as a character sequence.
pub enum SegmentModel {
    Plain(Seq<char>),
    Bold(Seq<char>),
    Italic(Seq<char>),
}

impl View for TextSegment {
    type V = SegmentModel;

    open spec fn view(&self) -> SegmentModel {
        match self {
            TextSegment::Plain(s) => SegmentModel::Plain(s@),
            TextSegment::Bold(s) => SegmentModel::Bold(s@),
            TextSegment::Italic(s) => SegmentModel::Italic(s@),
        }
    }
}

/// The models of a sequence of segments.
pub open spec fn segment_models(segs: Seq<TextSegment>) -> Seq<SegmentModel> {
    segs.map_values(|s: TextSegment| s@)
}

/// The first position at or after `start` where `token` occurs in `chars`,
/// searching only positions where the whole token fits.
pub open spec fn find_from(chars: Seq<char>, start: int, token: Seq<char>) -> Option<int>
    decreases chars.len() + 1 - start,
{
    if start < 0 || start + token.len() > chars.len() {
        None
    } else if chars.subrange(start, start + token.len()) == token {
        Some(start)
    } else {
        find_from(chars, start + 1, token)
    }
}

/// A found position lies at or after the start and holds the token.
pub proof fn lemma_find_from_bounds(chars: Seq<char>, start: int, token: Seq<char>)
    ensures
        find_from(chars, start, token) matches Some(p) ==> start <= p && p + token.len()
            <= chars.len() && chars.subrange(p, p + token.len()) == token,
    decreases chars.len() + 1 - start,
{
    if start < 0 || start + token.len() > chars.len() {
    } else if chars.subrange(start, start + token.len()) == token {
    } else {
        lemma_find_from_bounds(chars, start + 1, token);
    }
}

/// The text before a marker, as a segment list: one plain segment, or none
/// when the text is empty.
pub open spec fn flush_plain(current: Seq<char>) -> Seq<SegmentModel> {
    if current.len() > 0 {
        seq![SegmentModel::Plain(current)]
    } else {
        seq![]
    }
}

/// The segments of `chars[i..]`, given the plain text `current` gathered
/// before position `i`: `**x**` is bold, `*x*` and `` `x` `` are italic, and
/// a marker without a closing partner is plain text.
pub open spec fn segments_from(chars: Seq<char>, i: int, current: Seq<char>) -> Seq<SegmentModel>
    decreases chars.len() - i,
{
    if i < 0 || i >= chars.len() {
        flush_plain(current)
    } else {
        let bold = if i + 1 < chars.len() && chars[i] == '*' && chars[i + 1] == '*' {
            find_from(chars, i + 2, seq!['*', '*'])
        } else {
            None
        };
        let star = if chars[i] == '*' {
            find_from(chars, i + 1, seq!['*'])
        } else {
            None
        };
        let tick = if chars[i] == '`' {
            find_from(chars, i + 1, seq!['`'])
        } else {
            None
        };
        if bold is Some {
            let end = bold->0;
            proof {
                lemma_find_from_bounds(chars, i + 2, seq!['*', '*']);
            }
            flush_plain(current) + seq![SegmentModel::Bold(chars.subrange(i + 2, end))]
                + segments_from(chars, end + 2, seq![])
        } else if star is Some {
            let end = star->0;
            proof {
                lemma_find_from_bounds(chars, i + 1, seq!['*']);
            }
            flush_plain(current) + seq![SegmentModel::Italic(chars.subrange(i + 1, end))]
                + segments_from(chars, end + 1, seq![])
        } else if tick is Some {
            let end = tick->0;
            proof {
                lemma_find_from_bounds(chars, i + 1, seq!['`']);
            }
            flush_plain(current) + seq![SegmentModel::Italic(chars.subrange(i + 1, end))]
                + segments_from(chars, end + 1, seq![])
        } else {
            segments_from(chars, i + 1, current.push(chars[i]))
        }
    }
}

/// The segments of a whole line of text.
pub open spec fn line_segments(text: Seq<char>) -> Seq<SegmentModel> {
    segments_from(text, 0, seq![])
}

/// The first position at or after `start` where `token` occurs in `chars`
/// and fits whole.
fn find_closing(chars: &Vec<char>, start: usize, token: &Vec<char>) -> (r: Option<usize>)
    requires
        token@.len() > 0,
    ensures
        r matches Some(p) ==> find_from(chars@, start as int, token@) == Some(p as int),
        r is None ==> find_from(chars@, start as int, token@) is None,
{
    let token_len = token.len();
    if start > chars.len() || token_len > chars.len() - start {
        return None;
    }
    let mut i = start;
    while i <= chars.len() - token_len
        invariant
            start <= i,
            token_len == token@.len(),
            0 < token_len <= chars.len(),
            i <= chars.len() - token_len + 1,
            find_from(chars@, start as int, token@) == find_from(chars@, i as int, token@),
        decreases chars.len() - i,
    {
        let mut k: usize = 0;
        let mut matched = true;
        while k < token_len
            invariant
                i + token_len <= chars.len(),
                token_len == token@.len(),
                k <= token_len,
                matched == (forall|j: int| 0 <= j < k ==> chars@[i + j] == #[trigger] token@[j]),
            decreases token_len - k,
        {
            if chars[i + k] != token[k] {
                matched = false;
            }
            k += 1;
        }
        if matched {
            assert(chars@.subrange(i as int, i + token_len) =~= token@);
            return Some(i);
        }
        assert(chars@.subrange(i as int, i + token_len) != token@) by {
            let j = choose|j: int| 0 <= j < token_len && chars@[i + j] != #[trigger] token@[j];
            assert(chars@.subrange(i as int, i + token_len)[j] != token@[j]);
        }
        i += 1;
    }
    None
}

/// Moves the plain text gathered so far into the segment list.
fn flush_current(segments: &mut Vec<TextSegment>, current: &mut Vec<char>)
    ensures
        segment_models(final(segments)@) == segment_models(old(segments)@) + flush_plain(
            old(current)@,
        ),
        final(current)@ == Seq::<char>::empty(),
{
    if current.len() > 0 {
        let s = string_from_chars(current);
        segments.push(TextSegment::Plain(s));
        assert(segment_models(segments@) =~= segment_models(old(segments)@) + flush_plain(
            old(current)@,
        ));
    } else {
        assert(segment_models(segments@) =~= segment_models(old(segments)@) + flush_plain(
            old(current)@,
        ));
    }
    *current = Vec::new();
}

/// Parses a single line of text into styled segments (bold, italic, code).
pub fn parse_line_formatting(text: &str) -> (segments: Vec<TextSegment>)
    ensures
        segment_models(segments@) == line_segments(text@),
{
    let mut segments: Vec<TextSegment> = Vec::new();
    let mut current: Vec<char> = Vec::new();
    let chars = chars_of(text);
    let double_star: Vec<char> = vec!['*', '*'];
    let single_star: Vec<char> = vec!['*'];
    let tick: Vec<char> = vec!['`'];
    assert(double_star@ =~= seq!['*', '*']);
    assert(single_star@ =~= seq!['*']);
    assert(tick@ =~= seq!['`']);
    let mut i: usize = 0;
    while i < chars.len()
        invariant
            chars@ == text@,
            i <= chars.len(),
            double_star@ == seq!['*', '*'],
            single_star@ == seq!['*'],
            tick@ == seq!['`'],
            segment_models(segments@) + segments_from(chars@, i as int, current@)
                == line_segments(text@),
        decreases chars.len() - i,
    {
        let ghost before = segment_models(segments@);
        let ghost cur = current@;
        if i + 1 < chars.len() && chars[i] == '*' && chars[i + 1] == '*' {
            if let Some(end) = find_closing(&chars, i + 2, &double_star) {
                proof {
                    lemma_find_from_bounds(chars@, i + 2, seq!['*', '*']);
                }
                flush_current(&mut segments, &mut current);
                let s = string_from_range(&chars, i + 2, end);
                segments.push(TextSegment::Bold(s));
                proof {
                    assert(segment_models(segments@) =~= before + flush_plain(cur) + seq![
                        SegmentModel::Bold(chars@.subrange(i + 2, end as int)),
                    ]);
                    assert(current@ =~= seq![]);
                }
                i = end + 2;
                continue;
            }
        }
        if chars[i] == '*' {
            if let Some(end) = find_closing(&chars, i + 1, &single_star) {
                proof {
                    lemma_find_from_bounds(chars@, i + 1, seq!['*']);
                }
                flush_current(&mut segments, &mut current);
                let s = string_from_range(&chars, i + 1, end);
                segments.push(TextSegment::Italic(s));
                proof {
                    assert(segment_models(segments@) =~= before + flush_plain(cur) + seq![
                        SegmentModel::Italic(chars@.subrange(i + 1, end as int)),
                    ]);
                    assert(current@ =~= seq![]);
                }
                i = end + 1;
                continue;
            }
        }
        if chars[i] == '`' {
            if let Some(end) = find_closing(&chars, i + 1, &tick) {
                proof {
                    lemma_find_from_bounds(chars@, i + 1, seq!['`']);
                }
                flush_current(&mut segments, &mut current);
                let s = string_from_range(&chars, i + 1, end);
                segments.push(TextSegment::Italic(s));
                proof {
                    assert(segment_models(segments@) =~= before + flush_plain(cur) + seq![
                        SegmentModel::Italic(chars@.subrange(i + 1, end as int)),
                    ]);
                    assert(current@ =~= seq![]);
                }
                i = end + 1;
                continue;
            }
        }
        current.push(chars[i]);
        i += 1;
    }
    let ghost before = segment_models(segments@);
    flush_current(&mut segments, &mut current);
    segments
}

} // verus!

verus! {

/// Whether a segment is plain text.
pub open spec fn is_plain(s: SegmentModel) -> bool {
    s is Plain
}

/// Segment lists as the parser builds them: every plain segment holds text,
/// and no two plain segments stand next to each other.
pub open spec fn well_split(segs: Seq<SegmentModel>) -> bool {
    &&& forall|k: int| 0 <= k < segs.len() && #[trigger] is_plain(segs[k]) ==> segs[k]->Plain_0.len() > 0
    &&& forall|k: int| 0 <= k < segs.len() - 1 ==> !(#[trigger] is_plain(segs[k]) && is_plain(segs[k + 1]))
}

proof fn lemma_marker_join(current: Seq<char>, mark: SegmentModel, rest: Seq<SegmentModel>)
    requires
        !is_plain(mark),
        well_split(rest),
    ensures
        well_split(flush_plain(current) + seq![mark] + rest),
{
    let all = flush_plain(current) + seq![mark] + rest;
    let f = flush_plain(current).len();
    assert forall|k: int| 0 <= k < all.len() && #[trigger] is_plain(all[k]) implies all[k]->Plain_0.len() > 0 by {
        if k < f {
        } else if k == f {
        } else {
            assert(all[k] == rest[k - f - 1]);
        }
    }
    assert forall|k: int| 0 <= k < all.len() - 1 implies !(#[trigger] is_plain(all[k]) && is_plain(all[k + 1])) by {
        if k < f {
            assert(all[k + 1] == mark);
        } else if k == f {
        } else {
            assert(all[k] == rest[k - f - 1]);
            assert(all[k + 1] == rest[k - f]);
        }
    }
}

proof fn lemma_segments_from_well_split(chars: Seq<char>, i: int, current: Seq<char>)
    ensures
        well_split(segments_from(chars, i, current)),
    decreases chars.len() - i,
{
    if i < 0 || i >= chars.len() {
    } else {
        let bold = if i + 1 < chars.len() && chars[i] == '*' && chars[i + 1] == '*' {
            find_from(chars, i + 2, seq!['*', '*'])
        } else {
            None
        };
        let star = if chars[i] == '*' {
            find_from(chars, i + 1, seq!['*'])
        } else {
            None
        };
        let tick = if chars[i] == '`' {
            find_from(chars, i + 1, seq!['`'])
        } else {
            None
        };
        if bold is Some {
            lemma_find_from_bounds(chars, i + 2, seq!['*', '*']);
            let end = bold->0;
            lemma_segments_from_well_split(chars, end + 2, seq![]);
            lemma_marker_join(
                current,
                SegmentModel::Bold(chars.subrange(i + 2, end)),
                segments_from(chars, end + 2, seq![]),
            );
        } else if star is Some {
            lemma_find_from_bounds(chars, i + 1, seq!['*']);
            let end = star->0;
            lemma_segments_from_well_split(chars, end + 1, seq![]);
            lemma_marker_join(
                current,
                SegmentModel::Italic(chars.subrange(i + 1, end)),
                segments_from(chars, end + 1, seq![]),
            );
        } else if tick is Some {
            lemma_find_from_bounds(chars, i + 1, seq!['`']);
            let end = tick->0;
            lemma_segments_from_well_split(chars, end + 1, seq![]);
            lemma_marker_join(
                current,
                SegmentModel::Italic(chars.subrange(i + 1, end)),
                segments_from(chars, end + 1, seq![]),
            );
        } else {
            lemma_segments_from_well_split(chars, i + 1, current.push(chars[i]));
        }
    }
}

/// The parsed segments of any line hold no empty plain segment and no two
/// plain segments side by side.
pub proof fn lemma_line_segments_well_split(text: Seq<char>)
    ensures
        well_split(line_segments(text)),
{
    lemma_segments_from_well_split(text, 0, seq![]);
}

proof fn lemma_segments_from_unmarked(chars: Seq<char>, i: int, current: Seq<char>)
    requires
        0 <= i <= chars.len(),
        forall|k: int| 0 <= k < chars.len() ==> #[trigger] chars[k] != '*' && chars[k] != '`',
    ensures
        segments_from(chars, i, current) == flush_plain(current + chars.subrange(i, chars.len() as int)),
    decreases chars.len() - i,
{
    if i == chars.len() {
        assert(current + chars.subrange(i, chars.len() as int) =~= current);
    } else {
        assert(chars[i] != '*' && chars[i] != '`');
        lemma_segments_from_unmarked(chars, i + 1, current.push(chars[i]));
        assert(current.push(chars[i]) + chars.subrange(i + 1, chars.len() as int) =~= current
            + chars.subrange(i, chars.len() as int));
    }
}

/// A line without any `*` or `` ` `` is a single plain segment (or no
/// segment at all when it is empty).
pub proof fn lemma_unmarked_line_is_plain(text: Seq<char>)
    requires
        forall|k: int| 0 <= k < text.len() ==> #[trigger] text[k] != '*' && text[k] != '`',
    ensures
        line_segments(text) == flush_plain(text),
{
    lemma_segments_from_unmarked(text, 0, seq![]);
    assert(Seq::<char>::empty() + text.subrange(0, text.len() as int) =~= text);
}

} // verus!

verus! {

/// Data structure for a single version's release notes.
#[derive(Clone, Debug)]
pub struct ChangelogEntry {
    pub version: String,
    pub date: Option<String>,
    pub changes: Vec<Vec<TextSegment>>,
}

/// A release entry, as character sequences.
pub struct EntryModel {
    pub version: Seq<char>,
    pub date: Option<Seq<char>>,
    pub changes: Seq<Seq<SegmentModel>>,
}

/// The model of an optional string.
pub open spec fn opt_chars(s: Option<String>) -> Option<Seq<char>> {
    match s {
        Some(t) => Some(t@),
        None => None,
    }
}

impl View for ChangelogEntry {
    type V = EntryModel;

    open spec fn view(&self) -> EntryModel {
        EntryModel {
            version: self.version@,
            date: opt_chars(self.date),
            changes: self.changes@.map_values(|c: Vec<TextSegment>| segment_models(c@)),
        }
    }
}

/// The models of a sequence of entries.
pub open spec fn entry_models(entries: Seq<ChangelogEntry>) -> Seq<EntryModel> {
    entries.map_values(|e: ChangelogEntry| e@)
}

/// An optional position, as an integer.
pub open spec fn opt_pos(p: Option<usize>) -> Option<int> {
    match p {
        Some(i) => Some(i as int),
        None => None,
    }
}

/// The first position at or after `i` that holds `c`.
pub open spec fn first_index_from(s: Seq<char>, c: char, i: int) -> Option<int>
    decreases s.len() - i,
{
    if i < 0 || i >= s.len() {
        None
    } else if s[i] == c {
        Some(i)
    } else {
        first_index_from(s, c, i + 1)
    }
}

/// The first position that holds `c`, as `str::find` gives it.
pub open spec fn first_index(s: Seq<char>, c: char) -> Option<int> {
    first_index_from(s, c, 0)
}

/// The last position that holds `c`, as `str::rfind` gives it.
pub open spec fn last_index(s: Seq<char>, c: char) -> Option<int>
    decreases s.len(),
{
    if s.len() == 0 {
        None
    } else if s.last() == c {
        Some(s.len() - 1)
    } else {
        last_index(s.drop_last(), c)
    }
}

/// Whether `s` begins with `prefix`.
pub open spec fn starts_with(s: Seq<char>, prefix: Seq<char>) -> bool {
    s.len() >= prefix.len() && s.take(prefix.len() as int) == prefix
}

/// The characters of `s` before its first whitespace.
pub open spec fn until_whitespace(s: Seq<char>) -> Seq<char>
    decreases s.len(),
{
    if s.len() == 0 || is_whitespace_spec(s[0]) {
        seq![]
    } else {
        seq![s[0]] + until_whitespace(s.drop_first())
    }
}

/// The version named by the text after `# `: the text between the first `[`
/// and the first `]` when there is a `[`; otherwise, when the text holds a
/// space, its first whitespace-separated word; otherwise the text itself.
pub open spec fn header_version(v: Seq<char>) -> Seq<char> {
    match first_index(v, '[') {
        Some(b) => match first_index(v, ']') {
            Some(e) => v.subrange(b + 1, e),
            None => v,
        },
        None => if v.contains(' ') && trim_start_spec(v).len() > 0 {
            until_whitespace(trim_start_spec(v))
        } else {
            v
        },
    }
}

/// Whether a candidate date text looks like a date: it holds `-`, `/` or a
/// numeric character.
pub open spec fn looks_like_date(d: Seq<char>) -> bool {
    d.contains('-') || d.contains('/') || exists|k: int| 0 <= k < d.len() && char_numeric(#[trigger] d[k])
}

/// The date of a header line: the text between its last `(` and its last
/// `)`, when that text looks like a date.
pub open spec fn header_date(line: Seq<char>) -> Option<Seq<char>> {
    match last_index(line, ')') {
        Some(e) => match last_index(line, '(') {
            Some(b) => if looks_like_date(line.subrange(b + 1, e)) {
                Some(line.subrange(b + 1, e))
            } else {
                None
            },
            None => None,
        },
        None => None,
    }
}

/// Whether a header line can be read: its brackets and its parentheses do
/// not close before they open. On other header lines the parse panics.
pub open spec fn header_readable(line: Seq<char>) -> bool {
    let v = line.skip(2);
    &&& (first_index(v, '[') is Some && first_index(v, ']') is Some) ==> first_index(v, '[')->0
        < first_index(v, ']')->0
    &&& (last_index(line, ')') is Some && last_index(line, '(') is Some) ==> last_index(line, '(')->0
        < last_index(line, ')')->0
}

/// The entry that a header line opens.
pub open spec fn header_entry(line: Seq<char>) -> EntryModel {
    EntryModel { version: header_version(line.skip(2)), date: header_date(line), changes: seq![] }
}

/// Whether `c` is one of the bullet marks of a change line.
pub open spec fn is_bullet_mark(c: char) -> bool {
    c == '-' || c == '*' || c == '•'
}

/// `s` without its leading bullet marks.
pub open spec fn strip_bullet_marks(s: Seq<char>) -> Seq<char>
    decreases s.len(),
{
    if s.len() > 0 && is_bullet_mark(s[0]) {
        strip_bullet_marks(s.drop_first())
    } else {
        s
    }
}

/// Whether a line is a change line: it starts with `- `, `* ` or `• `.
pub open spec fn is_bullet_line(line: Seq<char>) -> bool {
    starts_with(line, seq!['-', ' ']) || starts_with(line, seq!['*', ' ']) || starts_with(
        line,
        seq!['•', ' '],
    )
}

/// The parser's state between lines: the finished entries and the entry
/// that is still open.
pub struct ParseState {
    pub entries: Seq<EntryModel>,
    pub open: Option<EntryModel>,
}

/// The finished entries, with the open one closed.
pub open spec fn close_open(state: ParseState) -> Seq<EntryModel> {
    match state.open {
        Some(e) => state.entries.push(e),
        None => state.entries,
    }
}

/// The effect of one trimmed line: a header line closes the open entry and
/// opens a new one; a change line with text adds its segments to the open
/// entry; any other line changes nothing.
pub open spec fn apply_line(state: ParseState, line: Seq<char>) -> ParseState {
    if line.len() == 0 {
        state
    } else if starts_with(line, seq!['#', ' ']) {
        ParseState { entries: close_open(state), open: Some(header_entry(line)) }
    } else if is_bullet_line(line) {
        match state.open {
            Some(e) => {
                let text = trim_spec(strip_bullet_marks(line));
                if text.len() > 0 {
                    ParseState {
                        entries: state.entries,
                        open: Some(
                            EntryModel {
                                version: e.version,
                                date: e.date,
                                changes: e.changes.push(line_segments(text)),
                            },
                        ),
                    }
                } else {
                    state
                }
            },
            None => state,
        }
    } else {
        state
    }
}

/// The `\n`-separated pieces of `s[i..]`, the first one continuing `current`.
pub open spec fn pieces_from(s: Seq<char>, i: int, current: Seq<char>) -> Seq<Seq<char>>
    decreases s.len() - i,
{
    if i < 0 || i >= s.len() {
        seq![current]
    } else if s[i] == '\n' {
        seq![current] + pieces_from(s, i + 1, seq![])
    } else {
        pieces_from(s, i + 1, current.push(s[i]))
    }
}

/// The lines of `content`: its `\n`-separated pieces. Each line is trimmed
/// before it is read, so a `\r` before a `\n`, and an empty last piece,
/// change nothing against `str::lines`.
pub open spec fn content_lines(content: Seq<char>) -> Seq<Seq<char>> {
    pieces_from(content, 0, seq![])
}

/// The state after reading the trimmed `lines`, from `state` on.
pub open spec fn apply_lines(state: ParseState, lines: Seq<Seq<char>>) -> ParseState
    decreases lines.len(),
{
    if lines.len() == 0 {
        state
    } else {
        apply_lines(apply_line(state, trim_spec(lines[0])), lines.drop_first())
    }
}

/// The entries of a changelog.
pub open spec fn changelog_spec(content: Seq<char>) -> Seq<EntryModel> {
    close_open(apply_lines(ParseState { entries: seq![], open: None }, content_lines(content)))
}

/// Whether every header line of `content` can be read.
pub open spec fn changelog_readable(content: Seq<char>) -> bool {
    forall|k: int|
        0 <= k < content_lines(content).len() && starts_with(
            #[trigger] trim_spec(content_lines(content)[k]),
            seq!['#', ' '],
        ) ==> header_readable(trim_spec(content_lines(content)[k]))
}

} // verus!

verus! {

/// The first position of `c` in `v`.
fn find_char(v: &Vec<char>, c: char) -> (r: Option<usize>)
    ensures
        opt_pos(r) == first_index(v@, c),
        r matches Some(p) ==> p < v.len(),
{
    let mut i: usize = 0;
    while i < v.len()
        invariant
            i <= v.len(),
            first_index(v@, c) == first_index_from(v@, c, i as int),
        decreases v.len() - i,
    {
        if v[i] == c {
            return Some(i);
        }
        i += 1;
    }
    None
}

proof fn lemma_last_index_prefix(s: Seq<char>, c: char, n: int)
    requires
        0 <= n < s.len(),
        forall|k: int| n < k < s.len() ==> #[trigger] s[k] != c,
    ensures
        last_index(s, c) == last_index(s.take(n + 1), c),
    decreases s.len() - n,
{
    if n + 1 == s.len() {
        assert(s.take(n + 1) =~= s);
    } else {
        assert(s.last() != c);
        assert(s.drop_last().take(n + 1) =~= s.take(n + 1));
        lemma_last_index_prefix(s.drop_last(), c, n);
    }
}

proof fn lemma_last_index_absent(s: Seq<char>, c: char)
    requires
        forall|k: int| 0 <= k < s.len() ==> #[trigger] s[k] != c,
    ensures
        last_index(s, c) is None,
    decreases s.len(),
{
    if s.len() > 0 {
        assert(s.last() != c);
        lemma_last_index_absent(s.drop_last(), c);
    }
}

/// The last position of `c` in `v`.
fn rfind_char(v: &Vec<char>, c: char) -> (r: Option<usize>)
    ensures
        opt_pos(r) == last_index(v@, c),
        r matches Some(p) ==> p < v.len(),
{
    let mut i: usize = v.len();
    while i > 0
        invariant
            i <= v.len(),
            forall|k: int| i <= k < v.len() ==> #[trigger] v@[k] != c,
        decreases i,
    {
        if v[i - 1] == c {
            proof {
                lemma_last_index_prefix(v@, c, i - 1);
                assert(v@.take(i as int).last() == c);
            }
            return Some(i - 1);
        }
        i -= 1;
    }
    proof {
        lemma_last_index_absent(v@, c);
    }
    None
}

/// Whether `v` begins with the characters of `prefix`.
fn starts_with_chars(v: &Vec<char>, prefix: &Vec<char>) -> (b: bool)
    ensures
        b == starts_with(v@, prefix@),
{
    if v.len() < prefix.len() {
        return false;
    }
    let mut k: usize = 0;
    while k < prefix.len()
        invariant
            prefix.len() <= v.len(),
            k <= prefix.len(),
            forall|j: int| 0 <= j < k ==> v@[j] == prefix@[j],
        decreases prefix.len() - k,
    {
        if v[k] != prefix[k] {
            assert(v@.take(prefix.len() as int)[k as int] != prefix@[k as int]);
            return false;
        }
        k += 1;
    }
    assert(v@.take(prefix.len() as int) =~= prefix@);
    true
}

/// The characters `v[from..to]` as a new vector.
fn copy_range(v: &Vec<char>, from: usize, to: usize) -> (r: Vec<char>)
    requires
        from <= to <= v.len(),
    ensures
        r@ == v@.subrange(from as int, to as int),
{
    let mut r: Vec<char> = Vec::new();
    let mut i = from;
    while i < to
        invariant
            from <= i <= to <= v.len(),
            r@ == v@.subrange(from as int, i as int),
        decreases to - i,
    {
        r.push(v[i]);
        assert(v@.subrange(from as int, i + 1) =~= v@.subrange(from as int, i as int).push(v@[i as int]));
        i += 1;
    }
    r
}

proof fn lemma_trim_start_skip(s: Seq<char>, i: int)
    requires
        0 <= i <= s.len(),
        forall|k: int| 0 <= k < i ==> is_whitespace_spec(#[trigger] s[k]),
    ensures
        trim_start_spec(s) == trim_start_spec(s.skip(i)),
    decreases i,
{
    if i > 0 {
        assert(is_whitespace_spec(s[0]));
        assert(s.drop_first().skip(i - 1) =~= s.skip(i));
        lemma_trim_start_skip(s.drop_first(), i - 1);
    } else {
        assert(s.skip(0) =~= s);
    }
}

proof fn lemma_until_whitespace_prefix(s: Seq<char>, j: int)
    requires
        0 <= j <= s.len(),
        forall|k: int| 0 <= k < j ==> !is_whitespace_spec(#[trigger] s[k]),
        j == s.len() || is_whitespace_spec(s[j]),
    ensures
        until_whitespace(s) == s.take(j),
    decreases j,
{
    if j == 0 {
        assert(s.take(0) =~= seq![]);
    } else {
        assert(!is_whitespace_spec(s[0]));
        lemma_until_whitespace_prefix(s.drop_first(), j - 1);
        assert(seq![s[0]] + s.drop_first().take(j - 1) =~= s.take(j));
    }
}

/// The version named by the text after `# `.
fn parse_version(v: &Vec<char>) -> (r: Vec<char>)
    requires
        (first_index(v@, '[') is Some && first_index(v@, ']') is Some) ==> first_index(v@, '[')->0
            < first_index(v@, ']')->0,
    ensures
        r@ == header_version(v@),
{
    match find_char(v, '[') {
        Some(b) => match find_char(v, ']') {
            Some(e) => copy_range(v, b + 1, e),
            None => copy_range(v, 0, v.len()),
        },
        None => {
            let has_space = find_char(v, ' ').is_some();
            proof {
                if v@.contains(' ') {
                    let k = choose|k: int| 0 <= k < v@.len() && v@[k] == ' ';
                    lemma_first_index_found(v@, ' ', 0, k);
                }
                if first_index(v@, ' ') is Some {
                    lemma_first_index_sound(v@, ' ', 0);
                }
            }
            let mut i: usize = 0;
            while i < v.len() && is_whitespace(v[i])
                invariant
                    i <= v.len(),
                    forall|k: int| 0 <= k < i ==> is_whitespace_spec(#[trigger] v@[k]),
                decreases v.len() - i,
            {
                i += 1;
            }
            proof {
                lemma_trim_start_skip(v@, i as int);
                if i < v.len() {
                    assert(!is_whitespace_spec(v@.skip(i as int)[0]));
                }
                assert(trim_start_spec(v@.skip(i as int)) == v@.skip(i as int));
            }
            if has_space && i < v.len() {
                let mut j = i;
                while j < v.len() && !is_whitespace(v[j])
                    invariant
                        i <= j <= v.len(),
                        forall|k: int| i <= k < j ==> !is_whitespace_spec(#[trigger] v@[k]),
                    decreases v.len() - j,
                {
                    j += 1;
                }
                proof {
                    let t = v@.skip(i as int);
                    assert forall|k: int| 0 <= k < j - i implies !is_whitespace_spec(#[trigger] t[k]) by {
                        assert(t[k] == v@[i + k]);
                    }
                    lemma_until_whitespace_prefix(t, j - i);
                    assert(t.take(j - i) =~= v@.subrange(i as int, j as int));
                }
                copy_range(v, i, j)
            } else {
                copy_range(v, 0, v.len())
            }
        },
    }
}

proof fn lemma_first_index_found(s: Seq<char>, c: char, i: int, k: int)
    requires
        0 <= i <= k < s.len(),
        s[k] == c,
    ensures
        first_index_from(s, c, i) is Some,
    decreases k - i,
{
    if s[i] != c {
        lemma_first_index_found(s, c, i + 1, k);
    }
}

proof fn lemma_first_index_sound(s: Seq<char>, c: char, i: int)
    ensures
        first_index_from(s, c, i) matches Some(p) ==> 0 <= p < s.len() && s[p] == c,
    decreases s.len() - i,
{
    if i < 0 || i >= s.len() {
    } else if s[i] != c {
        lemma_first_index_sound(s, c, i + 1);
    }
}

} // verus!

verus! {

/// Whether `v` holds `c`.
fn has_char(v: &Vec<char>, c: char) -> (b: bool)
    ensures
        b == v@.contains(c),
{
    let r = find_char(v, c);
    proof {
        if v@.contains(c) {
            let k = choose|k: int| 0 <= k < v@.len() && v@[k] == c;
            lemma_first_index_found(v@, c, 0, k);
        }
        lemma_first_index_sound(v@, c, 0);
    }
    r.is_some()
}

/// The date of a header line.
fn parse_date(line: &Vec<char>) -> (r: Option<String>)
    requires
        (last_index(line@, ')') is Some && last_index(line@, '(') is Some) ==> last_index(
            line@,
            '(',
        )->0 < last_index(line@, ')')->0,
    ensures
        opt_chars(r) == header_date(line@),
{
    match rfind_char(line, ')') {
        Some(e) => match rfind_char(line, '(') {
            Some(b) => {
                let d = copy_range(line, b + 1, e);
                let mut numeric = false;
                let mut k: usize = 0;
                while k < d.len()
                    invariant
                        k <= d.len(),
                        numeric == exists|j: int| 0 <= j < k && char_numeric(#[trigger] d@[j]),
                    decreases d.len() - k,
                {
                    if is_numeric(d[k]) {
                        numeric = true;
                    }
                    k += 1;
                }
                if has_char(&d, '-') || has_char(&d, '/') || numeric {
                    Some(string_from_chars(&d))
                } else {
                    None
                }
            },
            None => None,
        },
        None => None,
    }
}

proof fn lemma_strip_bullet_marks_skip(s: Seq<char>, i: int)
    requires
        0 <= i <= s.len(),
        forall|k: int| 0 <= k < i ==> is_bullet_mark(#[trigger] s[k]),
    ensures
        strip_bullet_marks(s) == strip_bullet_marks(s.skip(i)),
    decreases i,
{
    if i > 0 {
        assert(is_bullet_mark(s[0]));
        assert(s.drop_first().skip(i - 1) =~= s.skip(i));
        lemma_strip_bullet_marks_skip(s.drop_first(), i - 1);
    } else {
        assert(s.skip(0) =~= s);
    }
}

/// The text of a change line: the line without its leading bullet marks,
/// trimmed.
fn bullet_text(line: &Vec<char>) -> (r: Vec<char>)
    ensures
        r@ == trim_spec(strip_bullet_marks(line@)),
{
    let mut i: usize = 0;
    while i < line.len() && (line[i] == '-' || line[i] == '*' || line[i] == '•')
        invariant
            i <= line.len(),
            forall|k: int| 0 <= k < i ==> is_bullet_mark(#[trigger] line@[k]),
        decreases line.len() - i,
    {
        i += 1;
    }
    proof {
        lemma_strip_bullet_marks_skip(line@, i as int);
        let t = line@.skip(i as int);
        if t.len() > 0 {
            assert(t[0] == line@[i as int]);
        }
        assert(strip_bullet_marks(t) == t);
        assert(t =~= line@.subrange(i as int, line@.len() as int));
    }
    let (b, e) = trim_bounds(line, i, line.len());
    copy_range(line, b, e)
}

} // verus!

verus! {

/// The model of an optional open entry.
pub open spec fn opt_entry(e: Option<ChangelogEntry>) -> Option<EntryModel> {
    match e {
        Some(x) => Some(x@),
        None => None,
    }
}

/// The parser state that the executable state stands for.
pub open spec fn state_of(entries: Seq<ChangelogEntry>, open: Option<ChangelogEntry>) -> ParseState {
    ParseState { entries: entry_models(entries), open: opt_entry(open) }
}

/// Reads one trimmed line into the parser state.
fn read_line(entries: &mut Vec<ChangelogEntry>, open: &mut Option<ChangelogEntry>, line: &Vec<char>)
    requires
        starts_with(line@, seq!['#', ' ']) ==> header_readable(line@),
    ensures
        state_of(final(entries)@, *final(open)) == apply_line(state_of(old(entries)@, *old(open)), line@),
{
    if line.len() == 0 {
        return;
    }
    let hash: Vec<char> = vec!['#', ' '];
    assert(hash@ =~= seq!['#', ' ']);
    if starts_with_chars(line, &hash) {
        let v0 = copy_range(line, 2, line.len());
        assert(v0@ =~= line@.skip(2));
        let version = string_from_chars(&parse_version(&v0));
        let date = parse_date(line);
        let entry = ChangelogEntry { version, date, changes: Vec::new() };
        assert(entry@.changes =~= Seq::<Seq<SegmentModel>>::empty());
        let prev = open.take();
        *open = Some(entry);
        if let Some(e) = prev {
            entries.push(e);
            assert(entry_models(entries@) =~= entry_models(old(entries)@).push(e@));
        }
        return;
    }
    let dash: Vec<char> = vec!['-', ' '];
    let star: Vec<char> = vec!['*', ' '];
    let dot: Vec<char> = vec!['•', ' '];
    assert(dash@ =~= seq!['-', ' ']);
    assert(star@ =~= seq!['*', ' ']);
    assert(dot@ =~= seq!['•', ' ']);
    if starts_with_chars(line, &dash) || starts_with_chars(line, &star) || starts_with_chars(line, &dot) {
        if open.is_some() {
            let text = bullet_text(line);
            if text.len() > 0 {
                let text_string = string_from_chars(&text);
                let segments = parse_line_formatting(text_string.as_str());
                let mut e = open.take().unwrap();
                let ghost before = e@;
                e.changes.push(segments);
                assert(e@.changes =~= before.changes.push(line_segments(text@)));
                *open = Some(e);
            }
        }
    }
}

/// Splits `content` into its `\n`-separated pieces.
fn split_pieces(content: &Vec<char>) -> (pieces: Vec<Vec<char>>)
    ensures
        pieces@.map_values(|p: Vec<char>| p@) == content_lines(content@),
{
    let mut pieces: Vec<Vec<char>> = Vec::new();
    let mut current: Vec<char> = Vec::new();
    let mut i: usize = 0;
    while i < content.len()
        invariant
            i <= content.len(),
            pieces@.map_values(|p: Vec<char>| p@) + pieces_from(content@, i as int, current@)
                == content_lines(content@),
        decreases content.len() - i,
    {
        if content[i] == '\n' {
            let ghost before = pieces@.map_values(|p: Vec<char>| p@);
            let ghost cur = current@;
            let mut done: Vec<char> = Vec::new();
            std::mem::swap(&mut done, &mut current);
            pieces.push(done);
            assert(pieces@.map_values(|p: Vec<char>| p@) =~= before.push(cur));
            assert(before + pieces_from(content@, i as int, cur) =~= before.push(cur) + pieces_from(
                content@,
                i + 1,
                seq![],
            ));
        } else {
            current.push(content[i]);
        }
        i += 1;
    }
    let ghost before = pieces@.map_values(|p: Vec<char>| p@);
    let ghost cur = current@;
    pieces.push(current);
    assert(pieces@.map_values(|p: Vec<char>| p@) =~= before + seq![cur]);
    pieces
}

/// Whether a header line can be read, as `header_readable` states it.
fn header_is_readable(line: &Vec<char>) -> (b: bool)
    requires
        line.len() >= 2,
    ensures
        b == header_readable(line@),
{
    let v = copy_range(line, 2, line.len());
    assert(v@ =~= line@.skip(2));
    let open_bracket = find_char(&v, '[');
    let close_bracket = find_char(&v, ']');
    let brackets_ok = match (open_bracket, close_bracket) {
        (Some(b), Some(e)) => b < e,
        _ => true,
    };
    let close_paren = rfind_char(line, ')');
    let open_paren = rfind_char(line, '(');
    let parens_ok = match (close_paren, open_paren) {
        (Some(e), Some(b)) => b < e,
        _ => true,
    };
    brackets_ok && parens_ok
}

/// Whether every header line of `content` can be read, so that
/// `parse_changelog` accepts it.
pub fn changelog_is_readable(content: &str) -> (b: bool)
    ensures
        b == changelog_readable(content@),
{
    let chars = chars_of(content);
    let pieces = split_pieces(&chars);
    let ghost lines = content_lines(content@);
    let hash: Vec<char> = vec!['#', ' '];
    assert(hash@ =~= seq!['#', ' ']);
    let mut j: usize = 0;
    while j < pieces.len()
        invariant
            j <= pieces.len(),
            chars@ == content@,
            hash@ == seq!['#', ' '],
            lines == content_lines(content@),
            pieces@.map_values(|p: Vec<char>| p@) == lines,
            forall|k: int|
                0 <= k < j && starts_with(#[trigger] trim_spec(lines[k]), seq!['#', ' '])
                    ==> header_readable(trim_spec(lines[k])),
        decreases pieces.len() - j,
    {
        let piece = &pieces[j];
        assert(piece@ == lines[j as int]);
        let (b, e) = trim_bounds(piece, 0, piece.len());
        assert(piece@.subrange(0, piece@.len() as int) =~= piece@);
        let line = copy_range(piece, b, e);
        if starts_with_chars(&line, &hash) && !header_is_readable(&line) {
            return false;
        }
        j += 1;
    }
    true
}

/// Parses release notes: each `# ` line opens an entry with its version and
/// date, and each `- `, `* ` or `• ` line below adds a formatted change.
pub fn parse_changelog(content: &str) -> (entries: Vec<ChangelogEntry>)
    requires
        changelog_readable(content@),
    ensures
        entry_models(entries@) == changelog_spec(content@),
{
    let chars = chars_of(content);
    let pieces = split_pieces(&chars);
    let ghost lines = content_lines(content@);
    let ghost init = ParseState { entries: seq![], open: None };
    let mut entries: Vec<ChangelogEntry> = Vec::new();
    let mut open: Option<ChangelogEntry> = None;
    assert(entry_models(entries@) =~= Seq::<EntryModel>::empty());
    assert(lines.skip(0) =~= lines);
    let mut j: usize = 0;
    while j < pieces.len()
        invariant
            j <= pieces.len(),
            chars@ == content@,
            lines == content_lines(content@),
            pieces@.map_values(|p: Vec<char>| p@) == lines,
            changelog_readable(content@),
            apply_lines(init, lines) == apply_lines(state_of(entries@, open), lines.skip(j as int)),
        decreases pieces.len() - j,
    {
        let piece = &pieces[j];
        assert(piece@ == lines[j as int]);
        let (b, e) = trim_bounds(piece, 0, piece.len());
        assert(piece@.subrange(0, piece@.len() as int) =~= piece@);
        let line = copy_range(piece, b, e);
        let ghost s0 = state_of(entries@, open);
        read_line(&mut entries, &mut open, &line);
        assert(lines.skip(j as int).drop_first() =~= lines.skip(j + 1));
        assert(lines.skip(j as int)[0] == lines[j as int]);
        j += 1;
    }
    let ghost last = state_of(entries@, open);
    if let Some(e) = open {
        entries.push(e);
        assert(entry_models(entries@) =~= last.entries.push(e@));
    }
    entries
}

} // verus!
