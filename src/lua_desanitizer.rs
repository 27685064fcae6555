use vstd::prelude::*;

verus! {

/// Characters with the Unicode `White_Space` property, which is what
/// `char::is_whitespace` tests and what `str::trim` removes.
pub open spec fn is_white_space(c: char) -> bool {
    ||| c == '\t'
    ||| c == '\n'
    ||| c == '\u{0B}'
    ||| c == '\u{0C}'
    ||| c == '\r'
    ||| c == ' '
    ||| c == '\u{85}'
    ||| c == '\u{A0}'
    ||| c == '\u{1680}'
    ||| (0x2000 <= c as u32 && c as u32 <= 0x200A)
    ||| c == '\u{2028}'
    ||| c == '\u{2029}'
    ||| c == '\u{202F}'
    ||| c == '\u{205F}'
    ||| c == '\u{3000}'
}

/// A line is already commented out when, after its leading white space,
/// it starts with the comment marker `--`.
pub open spec fn is_comment(line: Seq<char>) -> bool {
    exists|k: int|
        #![trigger line[k]]
        0 <= k && k + 2 <= line.len() && (forall|j: int| 0 <= j < k ==> is_white_space(line[j]))
            && line[k] == '-' && line[k + 1] == '-'
}

/// The literal text that marks a nil assignment.
pub open spec fn nil_assignment() -> Seq<char> {
    seq![' ', '=', ' ', 'n', 'i', 'l']
}

/// Whether the line holds `" = nil"` anywhere, as a plain substring.
pub open spec fn contains_nil_assignment(line: Seq<char>) -> bool {
    exists|i: int|
        0 <= i && i + 6 <= line.len() && #[trigger] line.subrange(i, i + 6) == nil_assignment()
}

/// The comment marker.
pub open spec fn comment_marker() -> Seq<char> {
    seq!['-', '-']
}

/// Whether a line is one that gets commented out.
pub open spec fn is_target(line: Seq<char>) -> bool {
    !is_comment(line) && contains_nil_assignment(line)
}

/// One line after the transform.
pub open spec fn desanitize_line(line: Seq<char>) -> Seq<char> {
    if is_target(line) {
        comment_marker() + line
    } else {
        line
    }
}

/// The line terminator written between output lines.
pub open spec fn crlf() -> Seq<char> {
    seq!['\r', '\n']
}

/// The lines joined with a CRLF between each two, and none after the last.
pub open spec fn join_crlf(lines: Seq<Seq<char>>) -> Seq<char>
    decreases lines.len(),
{
    if lines.len() == 0 {
        Seq::empty()
    } else if lines.len() == 1 {
        lines[0]
    } else {
        join_crlf(lines.drop_last()) + crlf() + lines.last()
    }
}

/// A line taken from before a `\n` loses one trailing `\r`, if it has one.
pub open spec fn strip_cr(line: Seq<char>) -> Seq<char> {
    if line.len() > 0 && line.last() == '\r' {
        line.drop_last()
    } else {
        line
    }
}

/// Reading `text` left to right: the lines ended by a `\n` so far, and the
/// characters of the line still open.
pub open spec fn scan(text: Seq<char>) -> (Seq<Seq<char>>, Seq<char>)
    decreases text.len(),
{
    if text.len() == 0 {
        (Seq::empty(), Seq::empty())
    } else {
        let (done, open) = scan(text.drop_last());
        if text.last() == '\n' {
            (done.push(strip_cr(open)), Seq::empty())
        } else {
            (done, open.push(text.last()))
        }
    }
}

/// The lines of a text: split at `\n` or `\r\n`; a final line needs no
/// terminator, and a text that ends in a terminator has no empty line after it.
pub open spec fn lines_of(text: Seq<char>) -> Seq<Seq<char>> {
    let (done, open) = scan(text);
    if open.len() == 0 {
        done
    } else {
        done.push(open)
    }
}

/// Every line transformed, in order.
pub open spec fn desanitize_lines(lines: Seq<Seq<char>>) -> Seq<Seq<char>> {
    lines.map_values(|l: Seq<char>| desanitize_line(l))
}

/// The whole transform: lines transformed one by one, joined with CRLF.
pub open spec fn desanitized(text: Seq<char>) -> Seq<char> {
    join_crlf(desanitize_lines(lines_of(text)))
}

/// Relies on `String::push`: the character is appended at the end.
#[verifier::external_body]
fn push_char(s: &mut String, c: char)
    ensures
        final(s)@ == old(s)@.push(c),
{
    s.push(c)
}

/// Whether `c` is white space in the sense of `char::is_whitespace`.
pub fn is_whitespace_char(c: char) -> (r: bool)
    ensures
        r == is_white_space(c),
{
    let u = c as u32;
    u == 0x09 || u == 0x0A || u == 0x0B || u == 0x0C || u == 0x0D || u == 0x20 || u == 0x85 || u
        == 0xA0 || u == 0x1680 || (0x2000 <= u && u <= 0x200A) || u == 0x2028 || u == 0x2029 || u
        == 0x202F || u == 0x205F || u == 0x3000
}

/// Whether the line, after its leading white space, starts with `--`.
pub fn is_comment_line(line: &Vec<char>) -> (r: bool)
    ensures
        r == is_comment(line@),
{
    let n = line.len();
    let mut i: usize = 0;
    while i < n && is_whitespace_char(line[i])
        invariant
            i <= n,
            n == line@.len(),
            forall|j: int| 0 <= j < i ==> is_white_space(line@[j]),
        decreases n - i,
    {
        i = i + 1;
    }
    let r = n - i >= 2 && line[i] == '-' && line[i + 1] == '-';
    if r {
        assert(line@[i as int] == '-');
    } else {
        assert forall|k: int|
            0 <= k && k + 2 <= line@.len() && (forall|j: int|
                0 <= j < k ==> is_white_space(line@[j])) implies !(#[trigger] line@[k] == '-' && line@[k
            + 1] == '-') by {
            if line@[k] == '-' && line@[k + 1] == '-' {
                if k < i {
                    assert(is_white_space(line@[k]));
                } else if k > i {
                    assert(is_white_space(line@[i as int]));
                }
            }
        }
    }
    r
}

/// Whether the line holds the substring `" = nil"`.
pub fn contains_nil(line: &Vec<char>) -> (r: bool)
    ensures
        r == contains_nil_assignment(line@),
{
    let n = line.len();
    if n < 6 {
        return false;
    }
    let mut i: usize = 0;
    while i <= n - 6
        invariant
            n == line@.len(),
            6 <= n,
            i + 6 <= n + 1,
            forall|k: int| 0 <= k < i ==> #[trigger] line@.subrange(k, k + 6) != nil_assignment(),
        decreases n - i,
    {
        if line[i] == ' ' && line[i + 1] == '=' && line[i + 2] == ' ' && line[i + 3] == 'n'
            && line[i + 4] == 'i' && line[i + 5] == 'l' {
            assert(line@.subrange(i as int, i + 6) =~= nil_assignment());
            return true;
        }
        assert(line@.subrange(i as int, i + 6) != nil_assignment()) by {
            let s = line@.subrange(i as int, i + 6);
            if s == nil_assignment() {
                assert(s[0] == ' ' && s[1] == '=' && s[2] == ' ' && s[3] == 'n' && s[4] == 'i'
                    && s[5] == 'l');
            }
        }
        i = i + 1;
    }
    false
}

/// Appends one transformed line to `out`, after a CRLF unless it is the first.
fn emit_line(out: &mut String, line: &Vec<char>, first: bool)
    ensures
        final(out)@ == old(out)@ + (if first {
            Seq::empty()
        } else {
            crlf()
        }) + desanitize_line(line@),
{
    let ghost start = out@;
    if !first {
        push_char(out, '\r');
        push_char(out, '\n');
    }
    let ghost sep = out@;
    if !is_comment_line(line) && contains_nil(line) {
        push_char(out, '-');
        push_char(out, '-');
    }
    let ghost head = out@;
    assert(head == sep + (if is_target(line@) { comment_marker() } else { Seq::empty() }));
    let n = line.len();
    let mut i: usize = 0;
    while i < n
        invariant
            n == line@.len(),
            i <= n,
            out@ == head + line@.take(i as int),
        decreases n - i,
    {
        push_char(out, line[i]);
        assert(line@.take(i + 1) == line@.take(i as int).push(line@[i as int]));
        i = i + 1;
    }
    assert(line@.take(n as int) == line@);
    assert(sep == start + (if first { Seq::empty() } else { crlf() }));
}

proof fn lemma_join_push(lines: Seq<Seq<char>>, line: Seq<char>)
    ensures
        join_crlf(desanitize_lines(lines.push(line))) == join_crlf(desanitize_lines(lines)) + (
        if lines.len() == 0 {
            Seq::empty()
        } else {
            crlf()
        }) + desanitize_line(line),
{
    let m = desanitize_lines(lines.push(line));
    assert(m.drop_last() =~= desanitize_lines(lines));
    assert(m.last() == desanitize_line(line));
    if lines.len() == 0 {
        assert(m.len() == 1);
    }
}

/// Comments out every line that assigns nil and is not already a comment,
/// and joins the lines with CRLF.
pub fn desanitize(script_to_desanitize: &str) -> (r: String)
    ensures
        r@ == desanitized(script_to_desanitize@),
{
    let mut out = String::new();
    let mut open: Vec<char> = Vec::new();
    let mut first = true;
    let ghost mut seen: Seq<char> = Seq::empty();
    for c in it: script_to_desanitize.chars()
        invariant
            it.seq() == script_to_desanitize@,
            seen == it.seq().take(it.index() as int),
            open@ == scan(seen).1,
            first == (scan(seen).0.len() == 0),
            out@ == join_crlf(desanitize_lines(scan(seen).0)),
    {
        assert(it.seq().take(it.index() + 1) == seen.push(c));
        assert(seen.push(c).drop_last() == seen);
        assert(seen.push(c).last() == c);
        let ghost open_before = open@;
        if c == '\n' {
            let k = open.len();
            if k > 0 && open[k - 1] == '\r' {
                open.pop();
                assert(open@ == open_before.drop_last());
            }
            assert(open@ == strip_cr(open_before));
            proof {
                lemma_join_push(scan(seen).0, open@);
            }
            emit_line(&mut out, &open, first);
            first = false;
            open = Vec::new();
        } else {
            open.push(c);
        }
        proof {
            seen = seen.push(c);
        }
    }
    assert(seen == script_to_desanitize@);
    if open.len() > 0 {
        proof {
            lemma_join_push(scan(script_to_desanitize@).0, open@);
        }
        emit_line(&mut out, &open, first);
    }
    out
}

/// Whether a sequence of characters holds no `\n`.
pub open spec fn no_newline(line: Seq<char>) -> bool {
    forall|j: int| 0 <= j < line.len() ==> line[j] != '\n'
}

/// Whether the last line of the text is empty, as in a text that ends with
/// two line terminators.
pub open spec fn ends_with_blank_line(text: Seq<char>) -> bool {
    lines_of(text).len() > 0 && lines_of(text).last().len() == 0
}

proof fn lemma_scan_append_line(p: Seq<char>, w: Seq<char>)
    requires
        no_newline(w),
    ensures
        scan(p + w) == (scan(p).0, scan(p).1 + w),
    decreases w.len(),
{
    if w.len() == 0 {
        assert(p + w == p);
        assert(scan(p).1 + w == scan(p).1);
    } else {
        let w0 = w.drop_last();
        lemma_scan_append_line(p, w0);
        assert((p + w).drop_last() == p + w0);
        assert((p + w).last() == w.last());
        assert(scan(p).1 + w0 + seq![w.last()] == scan(p).1 + w);
    }
}

proof fn lemma_scan_crlf(p: Seq<char>)
    ensures
        scan(p + crlf()) == (scan(p).0.push(scan(p).1), Seq::<char>::empty()),
{
    let q = p + seq!['\r'];
    assert((p + crlf()).drop_last() == q);
    assert((p + crlf()).last() == '\n');
    assert(q.drop_last() == p);
    assert(q.last() == '\r');
    assert(scan(q).1 == scan(p).1.push('\r'));
    assert(strip_cr(scan(q).1) == scan(p).1);
}

proof fn lemma_scan_join(lines: Seq<Seq<char>>)
    requires
        lines.len() > 0,
        forall|i: int| 0 <= i < lines.len() ==> no_newline(#[trigger] lines[i]),
    ensures
        scan(join_crlf(lines)) == (lines.drop_last(), lines.last()),
    decreases lines.len(),
{
    if lines.len() == 1 {
        lemma_scan_append_line(Seq::empty(), lines[0]);
        assert(Seq::<char>::empty() + lines[0] == lines[0]);
        assert(Seq::<char>::empty() + lines[0] == lines[0]);
        assert(lines.drop_last() == Seq::<Seq<char>>::empty());
    } else {
        let rest = lines.drop_last();
        assert forall|i: int| 0 <= i < rest.len() implies no_newline(#[trigger] rest[i]) by {
            assert(rest[i] == lines[i]);
        }
        lemma_scan_join(rest);
        lemma_scan_crlf(join_crlf(rest));
        assert(no_newline(lines[lines.len() - 1]));
        lemma_scan_append_line(join_crlf(rest) + crlf(), lines.last());
        assert(rest.drop_last().push(rest.last()) == rest);
        assert(Seq::<char>::empty() + lines.last() == lines.last());
    }
}

/// Reading back a CRLF-joined text gives the lines that were joined, as
/// long as none holds a `\n` and the last one is not empty.
proof fn lemma_lines_of_join(lines: Seq<Seq<char>>)
    requires
        forall|i: int| 0 <= i < lines.len() ==> no_newline(#[trigger] lines[i]),
        lines.len() > 0 ==> lines.last().len() > 0,
    ensures
        lines_of(join_crlf(lines)) == lines,
{
    if lines.len() == 0 {
        assert(lines_of(Seq::empty()) == Seq::<Seq<char>>::empty());
        assert(lines == Seq::<Seq<char>>::empty());
    } else {
        lemma_scan_join(lines);
        assert(lines.drop_last().push(lines.last()) == lines);
    }
}

proof fn lemma_scan_no_newline(text: Seq<char>)
    ensures
        no_newline(scan(text).1),
        forall|i: int| 0 <= i < scan(text).0.len() ==> no_newline(#[trigger] scan(text).0[i]),
    decreases text.len(),
{
    if text.len() > 0 {
        lemma_scan_no_newline(text.drop_last());
        let (done, open) = scan(text.drop_last());
        if text.last() == '\n' {
            assert(no_newline(strip_cr(open)));
            assert forall|i: int| 0 <= i < scan(text).0.len() implies no_newline(
                #[trigger] scan(text).0[i],
            ) by {
                if i < done.len() {
                    assert(scan(text).0[i] == done[i]);
                }
            }
        } else {
            assert(no_newline(open.push(text.last())));
        }
    }
}

/// The lines of any text hold no `\n`.
proof fn lemma_lines_no_newline(text: Seq<char>)
    ensures
        forall|i: int| 0 <= i < lines_of(text).len() ==> no_newline(#[trigger] lines_of(text)[i]),
{
    lemma_scan_no_newline(text);
    let (done, open) = scan(text);
    assert forall|i: int| 0 <= i < lines_of(text).len() implies no_newline(
        #[trigger] lines_of(text)[i],
    ) by {
        if i < done.len() {
            assert(lines_of(text)[i] == done[i]);
        }
    }
}

/// A transformed line is left as it is by a second transform.
proof fn lemma_line_idempotent(line: Seq<char>)
    ensures
        desanitize_line(desanitize_line(line)) == desanitize_line(line),
{
    if is_target(line) {
        let out = comment_marker() + line;
        assert(out[0] == '-' && out[1] == '-');
        assert(is_comment(out));
    }
}

proof fn lemma_transformed_lines(lines: Seq<Seq<char>>)
    requires
        forall|i: int| 0 <= i < lines.len() ==> no_newline(#[trigger] lines[i]),
    ensures
        desanitize_lines(lines).len() == lines.len(),
        forall|i: int|
            0 <= i < lines.len() ==> no_newline(#[trigger] desanitize_lines(lines)[i]),
        lines.len() > 0 ==> (desanitize_lines(lines).last().len() == 0 <==> lines.last().len()
            == 0),
{
    let m = desanitize_lines(lines);
    assert forall|i: int| 0 <= i < lines.len() implies no_newline(#[trigger] m[i]) by {
        assert(no_newline(lines[i]));
        if is_target(lines[i]) {
            let t = comment_marker() + lines[i];
            assert forall|j: int| 0 <= j < t.len() implies t[j] != '\n' by {
                if j >= 2 {
                    assert(t[j] == lines[i][j - 2]);
                }
            }
        }
    }
    if lines.len() > 0 {
        let l = lines.last();
        if is_target(l) {
            assert(desanitize_line(l).len() == l.len() + 2);
        }
    }
}

/// Applying the transform a second time changes nothing. This fails only
/// where the text ends in an empty line after at least one other line:
/// such an empty last line is not written back, so the first output has one
/// line fewer than its input and a second pass drops the now-final
/// terminator.
pub proof fn lemma_desanitize_idempotent(text: Seq<char>)
    requires
        !(lines_of(text).len() >= 2 && lines_of(text).last().len() == 0),
    ensures
        desanitized(desanitized(text)) == desanitized(text),
{
    let lines = lines_of(text);
    let m = desanitize_lines(lines);
    lemma_lines_no_newline(text);
    lemma_transformed_lines(lines);
    if lines.len() == 1 && lines.last().len() == 0 {
        assert(m.len() == 1);
        assert(desanitized(text) == m[0]);
        assert(m[0] == desanitize_line(lines[0]));
        assert(desanitized(text).len() == 0);
        assert(lines_of(Seq::empty()) == Seq::<Seq<char>>::empty());
        assert(desanitize_lines(Seq::<Seq<char>>::empty()) == Seq::<Seq<char>>::empty());
    } else {
        lemma_lines_of_join(m);
        assert forall|i: int| 0 <= i < m.len() implies #[trigger] desanitize_lines(m)[i]
            == m[i] by {
            lemma_line_idempotent(lines[i]);
        }
        assert(desanitize_lines(m) == m);
    }
}

/// The output has the lines of the input, in the same order, each either
/// as it was or with `--` in front; nothing is added, dropped or moved. It
/// holds of every text whose last line is not empty: an empty last line is
/// not written back.
pub proof fn lemma_lines_preserved(text: Seq<char>)
    requires
        !ends_with_blank_line(text),
    ensures
        lines_of(desanitized(text)).len() == lines_of(text).len(),
        forall|i: int|
            0 <= i < lines_of(text).len() ==> #[trigger] lines_of(desanitized(text))[i]
                == lines_of(text)[i] || lines_of(desanitized(text))[i] == comment_marker()
                + lines_of(text)[i],
        lines_of(desanitized(text)) == desanitize_lines(lines_of(text)),
{
    let lines = lines_of(text);
    let m = desanitize_lines(lines);
    lemma_lines_no_newline(text);
    lemma_transformed_lines(lines);
    lemma_lines_of_join(m);
    assert forall|i: int| 0 <= i < lines.len() implies #[trigger] m[i] == lines[i] || m[i]
        == comment_marker() + lines[i] by {
        assert(m[i] == desanitize_line(lines[i]));
    }
}

/// Which lines are commented: of the lines that are not already comments,
/// exactly those that hold `" = nil"` get `--` in front; every other line
/// is written unchanged. The output is these lines joined with CRLF.
pub proof fn lemma_targeting(text: Seq<char>)
    ensures
        desanitized(text) == join_crlf(desanitize_lines(lines_of(text))),
        desanitize_lines(lines_of(text)).len() == lines_of(text).len(),
        forall|i: int|
            0 <= i < lines_of(text).len() && !is_comment(lines_of(text)[i]) ==> (
            #[trigger] desanitize_lines(lines_of(text))[i] == comment_marker() + lines_of(text)[i]
                <==> contains_nil_assignment(lines_of(text)[i])),
        forall|i: int|
            0 <= i < lines_of(text).len() && !(!is_comment(lines_of(text)[i])
                && contains_nil_assignment(lines_of(text)[i])) ==> #[trigger] desanitize_lines(
                lines_of(text),
            )[i] == lines_of(text)[i],
{
    let lines = lines_of(text);
    let m = desanitize_lines(lines);
    assert forall|i: int| 0 <= i < lines.len() && !is_comment(lines[i]) implies (
    #[trigger] m[i] == comment_marker() + lines[i] <==> contains_nil_assignment(lines[i])) by {
        if !contains_nil_assignment(lines[i]) {
            assert(m[i] == lines[i]);
            assert((comment_marker() + lines[i]).len() != lines[i].len());
        }
    }
}

proof fn lemma_join_crlf_newlines(lines: Seq<Seq<char>>)
    requires
        forall|i: int| 0 <= i < lines.len() ==> no_newline(#[trigger] lines[i]),
    ensures
        forall|j: int|
            0 <= j < join_crlf(lines).len() && #[trigger] join_crlf(lines)[j] == '\n' ==> j > 0
                && join_crlf(lines)[j - 1] == '\r',
    decreases lines.len(),
{
    if lines.len() == 1 {
        assert(no_newline(lines[0]));
    } else if lines.len() > 1 {
        let rest = lines.drop_last();
        assert forall|i: int| 0 <= i < rest.len() implies no_newline(#[trigger] rest[i]) by {
            assert(rest[i] == lines[i]);
        }
        lemma_join_crlf_newlines(rest);
        assert(no_newline(lines[lines.len() - 1]));
        let a = join_crlf(rest);
        let t = join_crlf(lines);
        assert(t == a + crlf() + lines.last());
        assert forall|j: int| 0 <= j < t.len() && #[trigger] t[j] == '\n' implies j > 0 && t[j
            - 1] == '\r' by {
            if j < a.len() {
                assert(t[j] == a[j]);
                assert(t[j - 1] == a[j - 1]);
            } else if j >= a.len() + 2 {
                assert(t[j] == lines.last()[j - a.len() - 2]);
            }
        }
    }
}

/// Line endings come out as CRLF, whatever the input used: every `\n` of
/// the output directly follows a `\r`.
pub proof fn lemma_crlf_line_endings(text: Seq<char>)
    ensures
        forall|j: int|
            0 <= j < desanitized(text).len() && #[trigger] desanitized(text)[j] == '\n' ==> j > 0
                && desanitized(text)[j - 1] == '\r',
{
    lemma_lines_no_newline(text);
    lemma_transformed_lines(lines_of(text));
    lemma_join_crlf_newlines(desanitize_lines(lines_of(text)));
}

} // verus!
