//! Escaping of text values and folding of content lines, as iCalendar (RFC 5545) has them.

use vstd::prelude::*;

use crate::text;

verus! {

// ---------------------------------------------------------------------------
// Escaping
// ---------------------------------------------------------------------------

/// A single character in a text value.
pub open spec fn escaped_char(c: char) -> Seq<char> {
    if c == '\\' {
        seq!['\\', '\\']
    } else if c == ';' {
        seq!['\\', ';']
    } else if c == ',' {
        seq!['\\', ',']
    } else if c == '\n' || c == '\r' {
        seq!['\\', 'n']
    } else {
        seq![c]
    }
}

/// A text begins with a carriage return and a line feed.
pub open spec fn starts_with_crlf(s: Seq<char>) -> bool {
    s.len() >= 2 && s[0] == '\r' && s[1] == '\n'
}

/// A text as a text value: backslashes, semicolons and commas behind a backslash, each line end
/// as a backslash and an `n`.
pub open spec fn escaped(s: Seq<char>) -> Seq<char>
    decreases s.len(),
{
    if s.len() == 0 {
        Seq::empty()
    } else if starts_with_crlf(s) {
        seq!['\\', 'n'] + escaped(s.skip(2))
    } else {
        escaped_char(s[0]) + escaped(s.skip(1))
    }
}

/// The text that a text value stands for.
pub open spec fn unescaped(s: Seq<char>) -> Seq<char>
    decreases s.len(),
{
    if s.len() == 0 {
        Seq::empty()
    } else if s.len() >= 2 && s[0] == '\\' {
        seq![if s[1] == 'n' { '\n' } else { s[1] }] + unescaped(s.skip(2))
    } else {
        seq![s[0]] + unescaped(s.skip(1))
    }
}

/// A text with each line end (carriage return and line feed, or one of them) as a line feed.
pub open spec fn with_plain_line_ends(s: Seq<char>) -> Seq<char>
    decreases s.len(),
{
    if s.len() == 0 {
        Seq::empty()
    } else if starts_with_crlf(s) {
        seq!['\n'] + with_plain_line_ends(s.skip(2))
    } else if s[0] == '\r' {
        seq!['\n'] + with_plain_line_ends(s.skip(1))
    } else {
        seq![s[0]] + with_plain_line_ends(s.skip(1))
    }
}

/// Escaping loses nothing but the kind of the line ends: the text value stands for the text.
pub proof fn escaping_is_undone(s: Seq<char>)
    ensures
        unescaped(escaped(s)) == with_plain_line_ends(s),
    decreases s.len(),
{
    if s.len() > 0 {
        let width: int = if starts_with_crlf(s) { 2 } else { 1 };
        let head = if starts_with_crlf(s) {
            seq!['\\', 'n']
        } else {
            escaped_char(s[0])
        };
        let rest = s.skip(width);
        escaping_is_undone(rest);
        assert(escaped(s).skip(head.len() as int) =~= escaped(rest));
        assert(escaped(s)[0] == head[0]);
        if head.len() == 2 {
            assert(escaped(s)[1] == head[1]);
        }
    }
}

/// A text value holds no line end, so it cannot begin another content line.
pub proof fn escaped_text_has_no_line_end(s: Seq<char>)
    ensures
        !escaped(s).contains('\n'),
        !escaped(s).contains('\r'),
    decreases s.len(),
{
    if s.len() > 0 {
        let width: int = if starts_with_crlf(s) { 2 } else { 1 };
        let head = if starts_with_crlf(s) {
            seq!['\\', 'n']
        } else {
            escaped_char(s[0])
        };
        escaped_text_has_no_line_end(s.skip(width));
        let tail = escaped(s.skip(width));
        assert forall|i: int| 0 <= i < escaped(s).len() implies escaped(s)[i] != '\n' && escaped(
            s,
        )[i] != '\r' by {
            if i < head.len() {
                assert(escaped(s)[i] == head[i]);
            } else {
                assert(escaped(s)[i] == tail[i - head.len()]);
                assert(tail.contains(tail[i - head.len()]));
            }
        }
    }
}

/// Each character is escaped for itself: a backslash, a semicolon and a comma behind a backslash,
/// a line end as a backslash and an `n`, any other character as it is.
pub proof fn characters_are_escaped_one_by_one(a: Seq<char>, b: Seq<char>, c: char)
    requires
        !(a.len() > 0 && b.len() > 0 && a.last() == '\r' && b[0] == '\n'),
    ensures
        escaped(a + b) == escaped(a) + escaped(b),
        escaped(Seq::<char>::empty()) == Seq::<char>::empty(),
        escaped(seq!['\r', '\n']) == seq!['\\', 'n'],
        escaped(seq!['\n']) == seq!['\\', 'n'],
        escaped(seq!['\r']) == seq!['\\', 'n'],
        escaped(seq!['\\']) == seq!['\\', '\\'],
        escaped(seq![';']) == seq!['\\', ';'],
        escaped(seq![',']) == seq!['\\', ','],
        c != '\\' && c != ';' && c != ',' && c != '\n' && c != '\r' ==> escaped(seq![c]) == seq![
            c,
        ],
    decreases a.len(),
{
    lemma_escaped_one('\n');
    lemma_escaped_one('\r');
    lemma_escaped_one('\\');
    lemma_escaped_one(';');
    lemma_escaped_one(',');
    lemma_escaped_one(c);
    let crlf = seq!['\r', '\n'];
    assert(crlf.skip(2) =~= Seq::<char>::empty());
    assert(escaped(Seq::<char>::empty()) =~= Seq::<char>::empty());
    assert(escaped(crlf) =~= seq!['\\', 'n']);
    if a.len() == 0 {
        assert(a + b =~= b);
        assert(escaped(a) + escaped(b) =~= escaped(b));
    } else {
        let step: int = if starts_with_crlf(a) {
            2
        } else {
            1
        };
        let rest = a.skip(step);
        assert((a + b).skip(step) =~= rest + b);
        if rest.len() > 0 {
            assert(rest.last() == a.last());
        }
        assert(starts_with_crlf(a + b) == starts_with_crlf(a)) by {
            if a.len() == 1 {
                assert(a.last() == a[0]);
            }
        }
        characters_are_escaped_one_by_one(rest, b, c);
        assert(escaped(a + b) =~= escaped(a) + escaped(b));
    }
}

proof fn lemma_escaped_one(c: char)
    ensures
        escaped(seq![c]) == escaped_char(c),
{
    let s = seq![c];
    assert(s.skip(1) =~= Seq::<char>::empty());
    assert(escaped(Seq::<char>::empty()) =~= Seq::<char>::empty());
    assert(escaped(s) =~= escaped_char(c));
}

/// Turns a text into a text value.
pub fn escape_text(value: &str) -> (res: String)
    ensures
        res@ == escaped(value@),
{
    let chars = text::chars_of(value);
    let mut out = String::new();
    let mut i: usize = 0;
    proof {
        assert(value@.skip(0) =~= value@);
    }
    while i < chars.len()
        invariant
            i <= chars.len(),
            chars@ == value@,
            escaped(value@) == out@ + escaped(value@.skip(i as int)),
        decreases chars.len() - i,
    {
        let c = chars[i];
        let ghost before = out@;
        let ghost rest = value@.skip(i as int);
        if c == '\r' && i + 1 < chars.len() && chars[i + 1] == '\n' {
            out.append("\\n");
            proof {
                reveal_strlit("\\n");
                assert("\\n"@ =~= seq!['\\', 'n']);
                assert(rest.skip(2) =~= value@.skip(i + 2));
                assert(escaped(value@) =~= out@ + escaped(value@.skip(i + 2)));
            }
            i = i + 2;
        } else {
            if c == '\n' || c == '\r' {
                out.push('\\');
                out.push('n');
            } else {
                if c == '\\' || c == ';' || c == ',' {
                    out.push('\\');
                }
                out.push(c);
            }
            proof {
                assert(out@ =~= before + escaped_char(c));
                assert(rest.skip(1) =~= value@.skip(i + 1));
                assert(escaped(value@) =~= out@ + escaped(value@.skip(i + 1)));
            }
            i = i + 1;
        }
    }
    out
}

// ---------------------------------------------------------------------------
// Folding
// ---------------------------------------------------------------------------

/// The number of bytes of a character in UTF-8.
pub open spec fn width(c: char) -> int {
    vstd::utf8::encode_scalar(c as u32).len() as int
}

/// The number of bytes of a text in UTF-8.
pub open spec fn bytes(s: Seq<char>) -> int {
    vstd::utf8::encode_utf8(s).len() as int
}

/// The number of characters at the beginning of a text that fit into a number of bytes.
pub open spec fn fitting(s: Seq<char>, room: int) -> int
    decreases s.len(),
{
    if s.len() == 0 || width(s[0]) > room {
        0
    } else {
        1 + fitting(s.skip(1), room - width(s[0]))
    }
}

/// The segments into which a content line is cut: the first as long as the limit allows, the
/// others as long as 74 bytes allow.
pub open spec fn segments(line: Seq<char>, limit: int) -> Seq<Seq<char>>
    decreases line.len(),
{
    let cut = fitting(line, limit);
    if cut <= 0 || cut >= line.len() {
        seq![line]
    } else {
        seq![line.take(cut)] + segments(line.skip(cut), 74)
    }
}

/// A content line in its folded form: its segments, with a line end and a space between them.
pub open spec fn folded(line: Seq<char>) -> Seq<char> {
    text::joined(segments(line, 75), "\r\n "@)
}

/// A text without the line ends that folding puts in: each line end with a space behind it.
pub open spec fn unfolded(s: Seq<char>) -> Seq<char>
    decreases s.len(),
{
    if s.len() == 0 {
        Seq::empty()
    } else if s.len() >= 3 && starts_with_crlf(s) && s[2] == ' ' {
        unfolded(s.skip(3))
    } else {
        seq![s[0]] + unfolded(s.skip(1))
    }
}

proof fn lemma_width(c: char)
    ensures
        1 <= width(c) <= 4,
{
}

proof fn lemma_bytes_first(s: Seq<char>)
    requires
        s.len() > 0,
    ensures
        bytes(s) == width(s[0]) + bytes(s.skip(1)),
{
    assert(s.skip(1) =~= s.drop_first());
}

/// The characters that fit into a number of bytes take no more than that, and one more
/// character would.
pub proof fn fitting_is_greatest(s: Seq<char>, room: int)
    requires
        room >= 0,
    ensures
        0 <= fitting(s, room) <= s.len(),
        bytes(s.take(fitting(s, room))) <= room,
        fitting(s, room) < s.len() ==> bytes(s.take(fitting(s, room) + 1)) > room,
    decreases s.len(),
{
    let n = fitting(s, room);
    if s.len() > 0 {
        lemma_width(s[0]);
        let rest = s.skip(1);
        assert(s.take(1).skip(1) =~= Seq::<char>::empty());
        lemma_bytes_first(s.take(1));
        if width(s[0]) <= room {
            fitting_is_greatest(rest, room - width(s[0]));
            lemma_bytes_first(s.take(n));
            assert(s.take(n).skip(1) =~= rest.take(n - 1));
            if n < s.len() {
                lemma_bytes_first(s.take(n + 1));
                assert(s.take(n + 1).skip(1) =~= rest.take(n));
            }
        }
    }
}

/// Cutting a content line neither loses nor adds a character.
pub proof fn segments_make_up_the_line(line: Seq<char>, limit: int)
    ensures
        text::joined(segments(line, limit), Seq::empty()) == line,
    decreases line.len(),
{
    let cut = fitting(line, limit);
    if !(cut <= 0 || cut >= line.len()) {
        let rest = segments(line.skip(cut), 74);
        segments_make_up_the_line(line.skip(cut), 74);
        lemma_segments_nonempty(line.skip(cut), 74);
        assert(segments(line, limit).drop_first() =~= rest);
        assert(line.take(cut) + Seq::<char>::empty() + line.skip(cut) =~= line);
    }
}

proof fn lemma_segments_nonempty(line: Seq<char>, limit: int)
    ensures
        segments(line, limit).len() > 0,
{
}

/// No segment is longer than its limit: with the space in front of it, a continued line is no
/// longer than 75 bytes either.
pub proof fn segments_keep_the_limit(line: Seq<char>, limit: int)
    requires
        limit >= 4,
    ensures
        bytes(segments(line, limit)[0]) <= limit,
        forall|i: int|
            0 < i < segments(line, limit).len() ==> bytes(#[trigger] segments(line, limit)[i])
                <= 74,
    decreases line.len(),
{
    let cut = fitting(line, limit);
    fitting_is_greatest(line, limit);
    if line.len() > 0 {
        lemma_width(line[0]);
        assert(cut >= 1) by {
            fitting_is_greatest(line.skip(1), limit - width(line[0]));
        }
    }
    if cut <= 0 || cut >= line.len() {
        assert(line.take(cut) =~= line);
    } else {
        let rest = segments(line.skip(cut), 74);
        segments_keep_the_limit(line.skip(cut), 74);
        assert forall|i: int| 0 < i < segments(line, limit).len() implies bytes(
            #[trigger] segments(line, limit)[i],
        ) <= 74 by {
            assert(segments(line, limit)[i] == rest[i - 1]);
        }
    }
}

/// The folded form of the rest of a line when this much room is left in the current line.
spec fn folded_from(rest: Seq<char>, room: int) -> Seq<char>
    decreases rest.len(),
{
    if rest.len() == 0 {
        Seq::empty()
    } else if width(rest[0]) > room {
        "\r\n "@ + seq![rest[0]] + folded_from(rest.skip(1), 74 - width(rest[0]))
    } else {
        seq![rest[0]] + folded_from(rest.skip(1), room - width(rest[0]))
    }
}

/// A line is folded only where its next character does not fit any more.
pub proof fn lines_are_folded_only_where_needed(line: Seq<char>, limit: int)
    requires
        limit >= 4,
    ensures
        segments(line, limit).len() > 0,
        forall|i: int|
            0 < i < segments(line, limit).len() ==> {
                &&& (#[trigger] segments(line, limit)[i]).len() > 0
                &&& bytes(segments(line, limit)[i - 1]) + width(segments(line, limit)[i][0]) > (
                if i == 1 {
                    limit
                } else {
                    74
                })
            },
    decreases line.len(),
{
    let cut = fitting(line, limit);
    fitting_is_greatest(line, limit);
    if line.len() > 0 {
        lemma_width(line[0]);
        assert(cut >= 1) by {
            fitting_is_greatest(line.skip(1), limit - width(line[0]));
        }
    }
    if 0 < cut < line.len() {
        let all = segments(line, limit);
        let rest = segments(line.skip(cut), 74);
        lines_are_folded_only_where_needed(line.skip(cut), 74);
        lemma_first_segment(line.skip(cut), 74);
        lemma_bytes_of_one_more(line, cut);
        assert forall|i: int| 0 < i < all.len() implies {
            &&& (#[trigger] all[i]).len() > 0
            &&& bytes(all[i - 1]) + width(all[i][0]) > (if i == 1 {
                limit
            } else {
                74
            })
        } by {
            assert(all[i] == rest[i - 1]);
            if i > 1 {
                assert(all[i - 1] == rest[i - 2]);
            }
        }
    }
}

proof fn lemma_first_segment(line: Seq<char>, limit: int)
    requires
        line.len() > 0,
        limit >= 4,
    ensures
        segments(line, limit)[0].len() > 0,
        segments(line, limit)[0][0] == line[0],
{
    fitting_is_greatest(line, limit);
}

proof fn lemma_bytes_of_one_more(s: Seq<char>, n: int)
    requires
        0 <= n < s.len(),
    ensures
        bytes(s.take(n + 1)) == bytes(s.take(n)) + width(s[n]),
    decreases n,
{
    if n == 0 {
        let one = s.take(1);
        lemma_bytes_first(one);
        assert(one.skip(1) =~= Seq::<char>::empty());
        assert(s.take(0) =~= Seq::<char>::empty());
    } else {
        lemma_bytes_first(s.take(n + 1));
        lemma_bytes_first(s.take(n));
        assert(s.take(n + 1).skip(1) =~= s.skip(1).take(n));
        assert(s.take(n).skip(1) =~= s.skip(1).take(n - 1));
        lemma_bytes_of_one_more(s.skip(1), n - 1);
    }
}

proof fn lemma_folded_from_cut(s: Seq<char>, room: int)
    requires
        room >= 0,
    ensures
        ({
            let cut = fitting(s, room);
            if cut >= s.len() {
                folded_from(s, room) == s
            } else {
                folded_from(s, room) == s.take(cut) + "\r\n "@ + folded_from(s.skip(cut), 74)
            }
        }),
    decreases s.len(),
{
    let cut = fitting(s, room);
    fitting_is_greatest(s, room);
    if s.len() > 0 {
        lemma_width(s[0]);
        if width(s[0]) <= room {
            let rest = s.skip(1);
            lemma_folded_from_cut(rest, room - width(s[0]));
            fitting_is_greatest(rest, room - width(s[0]));
            if cut >= s.len() {
                assert(folded_from(s, room) =~= s);
            } else {
                assert(rest.skip(cut - 1) =~= s.skip(cut));
                assert(seq![s[0]] + rest.take(cut - 1) =~= s.take(cut));
                assert(folded_from(s, room) =~= s.take(cut) + "\r\n "@ + folded_from(
                    s.skip(cut),
                    74,
                ));
            }
        } else {
            assert(s.skip(0) =~= s);
            assert(folded_from(s, room) =~= s.take(0) + "\r\n "@ + folded_from(s, 74));
        }
    }
}

proof fn lemma_folded_from(s: Seq<char>, limit: int)
    requires
        limit >= 4,
    ensures
        folded_from(s, limit) == text::joined(segments(s, limit), "\r\n "@),
    decreases s.len(),
{
    let cut = fitting(s, limit);
    fitting_is_greatest(s, limit);
    lemma_folded_from_cut(s, limit);
    if s.len() > 0 {
        lemma_width(s[0]);
        fitting_is_greatest(s.skip(1), limit - width(s[0]));
    }
    if !(cut <= 0 || cut >= s.len()) {
        let rest = segments(s.skip(cut), 74);
        lemma_segments_nonempty(s.skip(cut), 74);
        lemma_folded_from(s.skip(cut), 74);
        assert(segments(s, limit).drop_first() =~= rest);
    }
}

proof fn lemma_unfolded_skips(s: Seq<char>)
    ensures
        unfolded("\r\n "@ + s) == unfolded(s),
{
    reveal_strlit("\r\n ");
    let t = "\r\n "@ + s;
    assert(t[0] == '\r' && t[1] == '\n' && t[2] == ' ');
    assert(t.skip(3) =~= s);
}

proof fn lemma_unfolded_folded_from(s: Seq<char>, room: int, tail: Seq<char>)
    requires
        !s.contains('\n'),
        tail.len() > 0 ==> tail[0] != '\n',
    ensures
        unfolded(folded_from(s, room) + tail) == s + unfolded(tail),
    decreases s.len(),
{
    if s.len() == 0 {
        assert(folded_from(s, room) + tail =~= tail);
        assert(s + unfolded(tail) =~= unfolded(tail));
    } else {
        let rest = s.skip(1);
        let left = if width(s[0]) > room {
            74 - width(s[0])
        } else {
            room - width(s[0])
        };
        assert forall|i: int| 0 <= i < rest.len() implies rest[i] != '\n' by {
            assert(s.contains(s[i + 1]));
        }
        lemma_unfolded_folded_from(rest, left, tail);
        let after = folded_from(rest, left) + tail;
        assert(after.len() > 0 ==> after[0] != '\n') by {
            if rest.len() > 0 {
                reveal_strlit("\r\n ");
                assert(rest.contains(rest[0]));
            }
        }
        let t = seq![s[0]] + after;
        assert(t.skip(1) =~= after);
        assert(unfolded(t) == seq![s[0]] + unfolded(after));
        assert(seq![s[0]] + (rest + unfolded(tail)) =~= s + unfolded(tail));
        if width(s[0]) > room {
            assert(folded_from(s, room) + tail =~= "\r\n "@ + t);
            lemma_unfolded_skips(t);
        } else {
            assert(folded_from(s, room) + tail =~= t);
        }
    }
}

/// Folding is undone by unfolding, for every line that holds no line feed.
pub proof fn folding_is_undone(line: Seq<char>)
    requires
        !line.contains('\n'),
    ensures
        unfolded(folded(line)) == line,
{
    lemma_folded_from(line, 75);
    lemma_unfolded_folded_from(line, 75, Seq::empty());
    assert(folded_from(line, 75) + Seq::<char>::empty() =~= folded_from(line, 75));
    assert(line + unfolded(Seq::<char>::empty()) =~= line);
}

fn char_width(c: char) -> (res: usize)
    ensures
        res == width(c),
{
    let code: u32 = c as u32;
    if code <= 0x7F {
        1
    } else if code <= 0x7FF {
        2
    } else if code <= 0xFFFF {
        3
    } else {
        4
    }
}

/// Folds a content line.
pub fn fold_line(line: &str) -> (res: String)
    ensures
        res@ == folded(line@),
{
    let mut out = String::new();
    let mut room: usize = 75;
    proof {
        lemma_folded_from(line@, 75);
        assert(line@.skip(0) =~= line@);
    }
    for c in iter: line.chars()
        invariant
            iter.seq() == line@,
            room <= 75,
            folded(line@) == out@ + folded_from(line@.skip(iter.index() as int), room as int),
    {
        let ghost before = out@;
        let ghost at = iter.index() as int;
        let ghost rest = line@.skip(at);
        let width: usize = char_width(c);
        if width > room {
            out.append("\r\n ");
            room = 74;
        }
        out.push(c);
        room = room - width;
        proof {
            assert(rest[0] == c);
            assert(rest.skip(1) =~= line@.skip(at + 1));
            assert(folded(line@) =~= out@ + folded_from(line@.skip(at + 1), room as int));
        }
    }
    proof {
        assert(line@.skip(line@.len() as int) =~= Seq::<char>::empty());
        assert(out@ =~= folded(line@));
    }
    out
}

// ---------------------------------------------------------------------------
// Content lines
// ---------------------------------------------------------------------------

/// The text of content lines: each in its folded form, with a line end behind it.
pub open spec fn ics_text(lines: Seq<Seq<char>>) -> Seq<char>
    decreases lines.len(),
{
    if lines.len() == 0 {
        Seq::empty()
    } else {
        folded(lines[0]) + "\r\n"@ + ics_text(lines.skip(1))
    }
}

/// The text of content lines that are not folded.
pub open spec fn plain_text(lines: Seq<Seq<char>>) -> Seq<char>
    decreases lines.len(),
{
    if lines.len() == 0 {
        Seq::empty()
    } else {
        lines[0] + "\r\n"@ + plain_text(lines.skip(1))
    }
}

/// A content line that a reader finds again: it holds no line feed and begins with no space.
pub open spec fn content_line(line: Seq<char>) -> bool {
    !line.contains('\n') && (line.len() > 0 ==> line[0] != ' ')
}

proof fn lemma_ics_text_first(lines: Seq<Seq<char>>)
    requires
        forall|i: int| 0 <= i < lines.len() ==> content_line(#[trigger] lines[i]),
    ensures
        ics_text(lines).len() > 0 ==> ics_text(lines)[0] != ' ' && ics_text(lines)[0] != '\n',
{
    if lines.len() > 0 {
        let line = lines[0];
        reveal_strlit("\r\n");
        reveal_strlit("\r\n ");
        lemma_folded_from(line, 75);
        if line.len() > 0 {
            assert(line.contains(line[0]));
            lemma_width(line[0]);
            assert(folded(line)[0] == line[0]);
            assert(ics_text(lines)[0] == line[0]);
        } else {
            assert(folded(line) =~= Seq::<char>::empty());
            assert(ics_text(lines)[0] == '\r');
        }
    }
}

/// Unfolding the text of content lines gives back the lines, each with a line end behind it.
pub proof fn unfolding_gives_back_the_lines(lines: Seq<Seq<char>>)
    requires
        forall|i: int| 0 <= i < lines.len() ==> content_line(#[trigger] lines[i]),
    ensures
        unfolded(ics_text(lines)) == plain_text(lines),
    decreases lines.len(),
{
    if lines.len() > 0 {
        let line = lines[0];
        let rest = lines.skip(1);
        assert(content_line(line));
        assert forall|i: int| 0 <= i < rest.len() implies content_line(#[trigger] rest[i]) by {
            assert(rest[i] == lines[i + 1]);
        }
        unfolding_gives_back_the_lines(rest);
        lemma_ics_text_first(rest);
        let after = ics_text(rest);
        let tail = "\r\n"@ + after;
        reveal_strlit("\r\n");
        assert(tail[0] == '\r' && tail[1] == '\n');
        assert(tail.len() > 2 ==> tail[2] == after[0]);
        let second = tail.skip(1);
        assert(second[0] == '\n');
        assert(second.skip(1) =~= after);
        assert(unfolded(second) == seq!['\n'] + unfolded(after));
        assert(unfolded(tail) == seq!['\r'] + unfolded(second));
        assert(unfolded(tail) =~= "\r\n"@ + unfolded(after));
        lemma_folded_from(line, 75);
        lemma_unfolded_folded_from(line, 75, tail);
        assert(ics_text(lines) =~= folded(line) + tail);
        assert(line + ("\r\n"@ + plain_text(rest)) =~= plain_text(lines));
    }
}

proof fn lemma_ics_text_concat(a: Seq<Seq<char>>, b: Seq<Seq<char>>)
    ensures
        ics_text(a + b) == ics_text(a) + ics_text(b),
    decreases a.len(),
{
    if a.len() == 0 {
        assert(a + b =~= b);
        assert(ics_text(a) + ics_text(b) =~= ics_text(b));
    } else {
        lemma_ics_text_concat(a.skip(1), b);
        assert((a + b).skip(1) =~= a.skip(1) + b);
        assert(ics_text(a + b) =~= ics_text(a) + ics_text(b));
    }
}

/// Content lines are written one after the other, each folded and with a line end behind it.
pub proof fn lines_are_written_one_by_one(a: Seq<Seq<char>>, line: Seq<char>, b: Seq<Seq<char>>)
    ensures
        ics_text(a + seq![line] + b) == ics_text(a) + text::joined(segments(line, 75), "\r\n "@)
            + "\r\n"@ + ics_text(b),
        ics_text(Seq::<Seq<char>>::empty()) == Seq::<char>::empty(),
{
    let one = seq![line];
    lemma_ics_text_concat(a + one, b);
    lemma_ics_text_concat(a, one);
    assert(one.skip(1) =~= Seq::<Seq<char>>::empty());
    assert(ics_text(Seq::<Seq<char>>::empty()) =~= Seq::<char>::empty());
    assert(ics_text(one) =~= text::joined(segments(line, 75), "\r\n "@) + "\r\n"@);
    assert(ics_text(a + one + b) =~= ics_text(a) + text::joined(segments(line, 75), "\r\n "@)
        + "\r\n"@ + ics_text(b));
}

/// Texts with a space before each.
pub open spec fn indented(parts: Seq<Seq<char>>) -> Seq<Seq<char>> {
    parts.map_values(|part: Seq<char>| seq![' '] + part)
}

/// The lines that a content line is folded into.
pub open spec fn folded_lines(line: Seq<char>) -> Seq<Seq<char>> {
    seq![segments(line, 75)[0]] + indented(segments(line, 75).drop_first())
}

/// The lines that content lines are folded into.
pub open spec fn physical_lines(lines: Seq<Seq<char>>) -> Seq<Seq<char>>
    decreases lines.len(),
{
    if lines.len() == 0 {
        Seq::empty()
    } else {
        folded_lines(lines[0]) + physical_lines(lines.skip(1))
    }
}

proof fn lemma_plain_text_concat(a: Seq<Seq<char>>, b: Seq<Seq<char>>)
    ensures
        plain_text(a + b) == plain_text(a) + plain_text(b),
    decreases a.len(),
{
    if a.len() == 0 {
        assert(a + b =~= b);
        assert(plain_text(a) + plain_text(b) =~= plain_text(b));
    } else {
        lemma_plain_text_concat(a.skip(1), b);
        assert((a + b).skip(1) =~= a.skip(1) + b);
        assert(plain_text(a + b) =~= plain_text(a) + plain_text(b));
    }
}

proof fn lemma_joined_lines(parts: Seq<Seq<char>>)
    requires
        parts.len() > 0,
    ensures
        text::joined(parts, "\r\n "@) + "\r\n"@ == plain_text(
            seq![parts[0]] + indented(parts.drop_first()),
        ),
    decreases parts.len(),
{
    reveal_strlit("\r\n");
    reveal_strlit("\r\n ");
    let rest = parts.drop_first();
    let lines = seq![parts[0]] + indented(rest);
    assert(lines.skip(1) =~= indented(rest));
    if rest.len() == 0 {
        assert(plain_text(indented(rest)) =~= Seq::<char>::empty());
        assert(plain_text(lines) =~= text::joined(parts, "\r\n "@) + "\r\n"@);
    } else {
        lemma_joined_lines(rest);
        let inner = seq![rest[0]] + indented(rest.drop_first());
        assert(inner.skip(1) =~= indented(rest.drop_first()));
        assert(indented(rest).skip(1) =~= indented(rest.drop_first()));
        assert("\r\n "@ =~= "\r\n"@ + seq![' ']);
        let tail = "\r\n"@ + plain_text(indented(rest.drop_first()));
        assert(plain_text(inner) =~= rest[0] + tail);
        assert(plain_text(indented(rest)) =~= seq![' '] + rest[0] + tail);
        assert(plain_text(lines) =~= parts[0] + "\r\n"@ + plain_text(indented(rest)));
        let joined = text::joined(rest, "\r\n "@);
        assert(joined + "\r\n"@ == rest[0] + tail);
        assert(text::joined(parts, "\r\n "@) == parts[0] + "\r\n "@ + joined);
        assert(parts[0] + "\r\n "@ + joined + "\r\n"@ =~= parts[0] + "\r\n "@ + (joined
            + "\r\n"@));
        assert(parts[0] + "\r\n "@ + (rest[0] + tail) =~= parts[0] + "\r\n"@ + (seq![' ']
            + rest[0] + tail));
    }
}

/// The text of content lines is made of lines of at most 75 bytes, each with a line end behind
/// it.
pub proof fn written_lines_keep_the_limit(lines: Seq<Seq<char>>)
    ensures
        ics_text(lines) == plain_text(physical_lines(lines)),
        forall|i: int|
            0 <= i < physical_lines(lines).len() ==> bytes(#[trigger] physical_lines(lines)[i])
                <= 75,
    decreases lines.len(),
{
    if lines.len() > 0 {
        let first = folded_lines(lines[0]);
        let rest = physical_lines(lines.skip(1));
        let parts = segments(lines[0], 75);
        written_lines_keep_the_limit(lines.skip(1));
        lemma_segments_nonempty(lines[0], 75);
        lemma_joined_lines(parts);
        lemma_plain_text_concat(first, rest);
        segments_keep_the_limit(lines[0], 75);
        assert forall|i: int| 0 <= i < (first + rest).len() implies bytes(
            #[trigger] (first + rest)[i],
        ) <= 75 by {
            if 0 < i < first.len() {
                let line = first[i];
                assert(line =~= seq![' '] + parts[i]);
                assert(bytes(parts[i]) <= 74);
                lemma_bytes_first(line);
                assert(line.skip(1) =~= parts[i]);
                lemma_width(' ');
            } else if i >= first.len() {
                assert((first + rest)[i] == rest[i - first.len()]);
            }
        }
    }
}

/// Writes content lines.
pub fn write_lines(lines: &Vec<String>) -> (res: String)
    ensures
        res@ == ics_text(text::texts(lines@)),
{
    let mut out = String::new();
    let ghost all = text::texts(lines@);
    proof {
        assert(all.skip(0) =~= all);
    }
    for i in 0..lines.len()
        invariant
            all == text::texts(lines@),
            ics_text(all) == out@ + ics_text(all.skip(i as int)),
    {
        let ghost before = out@;
        out.append(fold_line(&lines[i]).as_str());
        out.append("\r\n");
        proof {
            let rest = all.skip(i as int);
            assert(rest[0] == lines@[i as int]@);
            assert(rest.skip(1) =~= all.skip(i + 1));
            assert(ics_text(all) =~= out@ + ics_text(all.skip(i + 1)));
        }
    }
    proof {
        assert(all.skip(lines@.len() as int) =~= Seq::<Seq<char>>::empty());
        assert(out@ =~= ics_text(all));
    }
    out
}

} // verus!
