//! The STOMP frame parser: one complete text message in, a frame or a
//! structured parse error out.
//!
//! The grammar is line oriented: the first non-blank line is the command,
//! the following lines are `key:value` headers up to a blank separator line,
//! and everything after the separator is the body, newline-joined.

use vstd::prelude::*;
use vstd::string::StrSliceExecFns;

use crate::stomp::FrameModel;
use crate::stomp::StompCommand;
use crate::stomp::StompError;
use crate::stomp::StompFrame;
use crate::stomp::spec_token_to_command;

verus! {

/// Index of the first occurrence of `c` in `s`, or `s.len()` if `c` does not
/// occur.
pub open spec fn spec_find(s: Seq<char>, c: char) -> int
    decreases s.len(),
{
    if s.len() == 0 {
        0
    } else if s[0] == c {
        0
    } else {
        1 + spec_find(s.drop_first(), c)
    }
}

/// `spec_find` lands in range, everything before it differs from `c`, and it
/// points at `c` unless it is the length.
pub proof fn lemma_find_bounds(s: Seq<char>, c: char)
    ensures
        0 <= spec_find(s, c) <= s.len(),
        forall|i: int| 0 <= i < spec_find(s, c) ==> s[i] != c,
        spec_find(s, c) < s.len() ==> s[spec_find(s, c)] == c,
    decreases s.len(),
{
    if s.len() > 0 && s[0] != c {
        lemma_find_bounds(s.drop_first(), c);
        assert forall|i: int| 0 <= i < spec_find(s, c) implies s[i] != c by {
            if i > 0 {
                assert(s.drop_first()[i - 1] != c);
            }
        }
    }
}

/// Any position with no occurrence of `c` before it that either holds `c` or
/// is the end of the sequence is exactly `spec_find`.
pub proof fn lemma_find_unique(s: Seq<char>, c: char, d: int)
    requires
        0 <= d <= s.len(),
        forall|i: int| 0 <= i < d ==> s[i] != c,
        d < s.len() ==> s[d] == c,
    ensures
        spec_find(s, c) == d,
    decreases s.len(),
{
    if s.len() > 0 && s[0] != c {
        assert forall|i: int| 0 <= i < d - 1 implies s.drop_first()[i] != c by {
            assert(s[i + 1] != c);
        }
        lemma_find_unique(s.drop_first(), c, d - 1);
    }
}

/// The message split into lines at line-feed boundaries: each `\n` ends a
/// line, and a final segment without a trailing `\n` is a line of its own,
/// so a trailing `\n` produces no empty final line.
pub open spec fn spec_split_lines(s: Seq<char>) -> Seq<Seq<char>>
    decreases s.len(),
{
    if s.len() == 0 {
        Seq::empty()
    } else {
        let e = spec_find(s, '\n');
        if e >= s.len() {
            seq![s]
        } else if 0 <= e {
            seq![s.subrange(0, e)] + spec_split_lines(s.subrange(e + 1, s.len() as int))
        } else {
            Seq::empty()
        }
    }
}

/// Index of the first occurrence of `c` in `s` at or after `from`, or
/// `s@.len()` if there is none.
fn find_char_from(s: &str, c: char, from: usize, n: usize) -> (r: usize)
    requires
        n == s@.len(),
        from <= n,
    ensures
        from <= r <= n,
        forall|i: int| from <= i < r ==> s@[i] != c,
        r < n ==> s@[r as int] == c,
{
    let mut j = from;
    while j < n
        invariant
            from <= j <= n,
            n == s@.len(),
            forall|i: int| from <= i < j ==> s@[i] != c,
        decreases n - j,
    {
        if s.get_char(j) == c {
            return j;
        }
        j = j + 1;
    }
    j
}

/// Split a message into its lines, exactly as `spec_split_lines` describes.
pub fn split_lines(s: &str) -> (r: Vec<String>)
    ensures
        r.deep_view() == spec_split_lines(s@),
{
    let n = s.unicode_len();
    let mut lines: Vec<String> = Vec::new();
    let mut pos: usize = 0;
    proof {
        assert(lines.deep_view() =~= Seq::<Seq<char>>::empty());
        assert(s@.subrange(0, n as int) =~= s@);
    }
    while pos < n
        invariant
            pos <= n,
            n == s@.len(),
            spec_split_lines(s@) == lines.deep_view() + spec_split_lines(
                s@.subrange(pos as int, n as int),
            ),
        decreases n - pos,
    {
        let ghost p0 = pos as int;
        let ghost prev = lines.deep_view();
        let ghost suffix = s@.subrange(pos as int, n as int);
        let j = find_char_from(s, '\n', pos, n);
        let line = s.substring_char(pos, j);
        lines.push(line.to_owned());
        proof {
            assert(suffix.subrange(0, (j - pos) as int) =~= s@.subrange(pos as int, j as int));
            assert forall|i: int| 0 <= i < j - pos implies suffix[i] != '\n' by {
                assert(s@[pos + i] != '\n');
            }
            if j < n {
                assert(suffix[(j - pos) as int] == '\n');
            }
            lemma_find_unique(suffix, '\n', j - pos);
            assert(lines.deep_view() =~= prev.push(line@));
        }
        if j < n {
            pos = j + 1;
            proof {
                assert(suffix.subrange(j - p0 + 1, suffix.len() as int) =~= s@.subrange(
                    pos as int,
                    n as int,
                ));
                assert(spec_split_lines(suffix) == seq![line@] + spec_split_lines(
                    s@.subrange(pos as int, n as int),
                ));
                assert(lines.deep_view() + spec_split_lines(s@.subrange(pos as int, n as int))
                    =~= prev + spec_split_lines(suffix));
            }
        } else {
            pos = n;
            proof {
                assert(spec_split_lines(suffix) == seq![line@]);
                assert(s@.subrange(n as int, n as int) =~= Seq::<char>::empty());
                assert(lines.deep_view() + spec_split_lines(s@.subrange(pos as int, n as int))
                    =~= prev + spec_split_lines(suffix));
            }
        }
    }
    proof {
        assert(s@.subrange(n as int, n as int) =~= Seq::<char>::empty());
        assert(lines.deep_view() + Seq::<Seq<char>>::empty() =~= lines.deep_view());
    }
    lines
}

/// Index of the first non-blank line, or `lines.len()` if every line is
/// blank.
pub open spec fn spec_first_content(lines: Seq<Seq<char>>) -> int
    decreases lines.len(),
{
    if lines.len() == 0 {
        0
    } else if lines[0].len() > 0 {
        0
    } else {
        1 + spec_first_content(lines.drop_first())
    }
}

/// Any position preceded only by blank lines that holds a non-blank line or
/// is the end is exactly `spec_first_content`.
pub proof fn lemma_first_content_unique(lines: Seq<Seq<char>>, d: int)
    requires
        0 <= d <= lines.len(),
        forall|i: int| 0 <= i < d ==> (#[trigger] lines[i]).len() == 0,
        d < lines.len() ==> lines[d].len() > 0,
    ensures
        spec_first_content(lines) == d,
    decreases lines.len(),
{
    if lines.len() > 0 && lines[0].len() == 0 {
        assert forall|i: int| 0 <= i < d - 1 implies (#[trigger] lines.drop_first()[i]).len()
            == 0 by {
            assert(lines[i + 1].len() == 0);
        }
        lemma_first_content_unique(lines.drop_first(), d - 1);
    }
}

/// Index of the first blank line at or after `from`, or `lines.len()` if
/// there is none: the header/body separator.
pub open spec fn spec_blank_from(lines: Seq<Seq<char>>, from: int) -> int
    decreases lines.len() - from,
{
    if from < 0 || from >= lines.len() {
        lines.len() as int
    } else if lines[from].len() == 0 {
        from
    } else {
        spec_blank_from(lines, from + 1)
    }
}

/// `spec_blank_from` lands at or after `from`, everything between is
/// non-blank, and it points at a blank line unless it is the length.
pub proof fn lemma_blank_from_bounds(lines: Seq<Seq<char>>, from: int)
    requires
        0 <= from <= lines.len(),
    ensures
        from <= spec_blank_from(lines, from) <= lines.len(),
        forall|i: int|
            from <= i < spec_blank_from(lines, from) ==> (#[trigger] lines[i]).len() != 0,
        spec_blank_from(lines, from) < lines.len() ==> lines[spec_blank_from(lines, from)].len()
            == 0,
    decreases lines.len() - from,
{
    if from < lines.len() && lines[from].len() != 0 {
        lemma_blank_from_bounds(lines, from + 1);
    }
}

/// Any position at or after `from`, preceded from `from` on only by
/// non-blank lines, that holds a blank line or is the end, is exactly
/// `spec_blank_from`.
pub proof fn lemma_blank_from_unique(lines: Seq<Seq<char>>, from: int, d: int)
    requires
        0 <= from <= d <= lines.len(),
        forall|i: int| from <= i < d ==> (#[trigger] lines[i]).len() != 0,
        d < lines.len() ==> lines[d].len() == 0,
    ensures
        spec_blank_from(lines, from) == d,
    decreases d - from,
{
    if from < d {
        lemma_blank_from_unique(lines, from + 1, d);
    }
}

/// A header line split at its first colon: the key before it, the value
/// after it, so values may themselves contain colons.
pub open spec fn spec_header_of(line: Seq<char>) -> (Seq<char>, Seq<char>)
    recommends
        spec_find(line, ':') < line.len(),
{
    (line.subrange(0, spec_find(line, ':')), line.subrange(
        spec_find(line, ':') + 1,
        line.len() as int,
    ))
}

/// Every line in `[from, to)` carries a colon separator.
pub open spec fn spec_headers_ok(lines: Seq<Seq<char>>, from: int, to: int) -> bool {
    forall|i: int| from <= i < to ==> spec_find(#[trigger] lines[i], ':') < lines[i].len()
}

/// The header pairs of the lines in `[from, to)`, in order.
pub open spec fn spec_headers(lines: Seq<Seq<char>>, from: int, to: int) -> Seq<
    (Seq<char>, Seq<char>),
>
    recommends
        0 <= from <= to <= lines.len(),
{
    Seq::new((to - from) as nat, |i: int| spec_header_of(lines[from + i]))
}

/// Lines joined back with single newline separators: the body of a frame.
pub open spec fn spec_join(ls: Seq<Seq<char>>) -> Seq<char>
    decreases ls.len(),
{
    if ls.len() == 0 {
        Seq::empty()
    } else if ls.len() == 1 {
        ls[0]
    } else {
        ls[0] + seq!['\n'] + spec_join(ls.drop_first())
    }
}

/// Joining one more line appends a newline separator and that line, unless
/// nothing was joined yet.
pub proof fn lemma_join_snoc(ls: Seq<Seq<char>>, x: Seq<char>)
    ensures
        spec_join(ls.push(x)) == if ls.len() == 0 {
            x
        } else {
            spec_join(ls) + seq!['\n'] + x
        },
    decreases ls.len(),
{
    reveal_with_fuel(spec_join, 3);
    if ls.len() == 0 {
        assert(ls.push(x)[0] == x);
    } else if ls.len() == 1 {
        assert(ls.push(x)[0] == ls[0]);
        assert(ls.push(x).drop_first() =~= seq![x]);
    } else {
        assert(ls.push(x)[0] == ls[0]);
        assert(ls.push(x).drop_first() =~= ls.drop_first().push(x));
        lemma_join_snoc(ls.drop_first(), x);
        assert((ls[0] + seq!['\n'] + (spec_join(ls.drop_first()) + seq!['\n'] + x)) =~= ((ls[0]
            + seq!['\n'] + spec_join(ls.drop_first())) + seq!['\n'] + x));
    }
}

/// What parsing one complete text message yields: a frame, or the first
/// parse error the line-oriented grammar runs into.
///
/// The first non-blank line must be a command token; the lines after it up
/// to a blank separator must each carry a colon and become the headers; the
/// lines after the separator, if any, become the newline-joined body. A
/// message with no non-blank line has no command at all.
pub open spec fn spec_parse(msg: Seq<char>) -> Result<FrameModel, StompError> {
    let lines = spec_split_lines(msg);
    let k = spec_first_content(lines);
    if k >= lines.len() {
        Err(StompError::UnknownCommand)
    } else {
        match spec_token_to_command(lines[k]) {
            Err(e) => Err(e),
            Ok(command) => {
                let h = spec_blank_from(lines, k + 1);
                if !spec_headers_ok(lines, k + 1, h) {
                    Err(StompError::MalformedHeader)
                } else {
                    let b = if h >= lines.len() {
                        h
                    } else {
                        h + 1
                    };
                    Ok(
                        FrameModel {
                            command,
                            headers: spec_headers(lines, k + 1, h),
                            body: if b >= lines.len() {
                                None
                            } else {
                                Some(spec_join(lines.subrange(b, lines.len() as int)))
                            },
                        },
                    )
                }
            },
        }
    }
}

/// Parse one complete text message into a frame, exactly as `spec_parse`
/// describes, or report the first parse error without panicking on any
/// input.
pub fn parse_frame(msg: &str) -> (r: Result<StompFrame, StompError>)
    ensures
        r matches Ok(f) ==> spec_parse(msg@) matches Ok(m) && f@ == m,
        r matches Err(e) ==> spec_parse(msg@) == Err::<FrameModel, StompError>(e),
{
    let lines = split_lines(msg);
    let ghost lv = lines.deep_view();
    let nl = lines.len();
    proof {
        assert(lv.len() == nl);
    }
    // The command line is the first non-blank line.
    let mut k: usize = 0;
    while k < nl && lines[k].as_str().is_empty()
        invariant
            k <= nl,
            nl == lv.len(),
            lv == lines.deep_view(),
            forall|i: int| 0 <= i < k ==> (#[trigger] lv[i]).len() == 0,
        decreases nl - k,
    {
        k = k + 1;
    }
    proof {
        lemma_first_content_unique(lv, k as int);
    }
    if k == nl {
        return Err(StompError::UnknownCommand);
    }
    let command = match StompCommand::from_token(lines[k].as_str()) {
        Ok(c) => c,
        Err(e) => {
            return Err(e);
        },
    };
    let mut frame = StompFrame::new(command);
    proof {
        assert(frame@.headers =~= spec_headers(lv, k + 1, k + 1));
    }
    // Header lines run up to a blank separator line or the end of the
    // message, whichever comes first.
    let mut i: usize = k + 1;
    while i < nl && !lines[i].as_str().is_empty()
        invariant
            k + 1 <= i <= nl,
            k < nl,
            nl == lv.len(),
            lv == lines.deep_view(),
            lv == spec_split_lines(msg@),
            forall|m: int| 0 <= m < k ==> (#[trigger] lv[m]).len() == 0,
            lv[k as int].len() > 0,
            spec_token_to_command(lv[k as int]) == Ok::<StompCommand, StompError>(command),
            forall|m: int| k + 1 <= m < i ==> (#[trigger] lv[m]).len() != 0,
            spec_headers_ok(lv, k + 1, i as int),
            frame@.command == command,
            frame@.body is None,
            frame@.headers == spec_headers(lv, k + 1, i as int),
        decreases nl - i,
    {
        let line = &lines[i];
        let llen = line.as_str().unicode_len();
        let cp = find_char_from(line.as_str(), ':', 0, llen);
        proof {
            lemma_find_unique(lv[i as int], ':', cp as int);
        }
        if cp == llen {
            // No colon separator: the frame is malformed, whatever follows.
            proof {
                lemma_first_content_unique(lv, k as int);
                lemma_blank_from_bounds(lv, k + 1);
                let h = spec_blank_from(lv, k + 1);
                if h <= i {
                    assert(lv[h].len() != 0);
                    assert(false);
                }
                assert(!spec_headers_ok(lv, k + 1, h));
            }
            return Err(StompError::MalformedHeader);
        }
        let key = line.as_str().substring_char(0, cp).to_owned();
        let value = line.as_str().substring_char(cp + 1, llen).to_owned();
        frame.push_header(key, value);
        proof {
            assert(frame@.headers =~= spec_headers(lv, k + 1, i + 1));
        }
        i = i + 1;
    }
    proof {
        lemma_blank_from_unique(lv, k + 1, i as int);
    }
    // The blank separator is consumed, not stored; everything after it is
    // the body.
    let b: usize = if i < nl {
        i + 1
    } else {
        i
    };
    let mut j: usize = b;
    while j < nl
        invariant
            b <= j <= nl,
            nl == lv.len(),
            lv == lines.deep_view(),
            frame@.command == command,
            frame@.headers == spec_headers(lv, k + 1, spec_blank_from(lv, k + 1)),
            frame@.body == if j == b {
                None::<Seq<char>>
            } else {
                Some(spec_join(lv.subrange(b as int, j as int)))
            },
            spec_parse(msg@) == Ok::<FrameModel, StompError>(
                FrameModel {
                    command,
                    headers: spec_headers(lv, k + 1, spec_blank_from(lv, k + 1)),
                    body: if b >= nl {
                        None::<Seq<char>>
                    } else {
                        Some(spec_join(lv.subrange(b as int, nl as int)))
                    },
                },
            ),
        decreases nl - j,
    {
        frame.push_body(lines[j].clone());
        proof {
            if j == b {
                assert(lv.subrange(b as int, j + 1) =~= seq![lv[j as int]]);
            } else {
                assert(lv.subrange(b as int, j + 1) =~= lv.subrange(b as int, j as int).push(
                    lv[j as int],
                ));
                lemma_join_snoc(lv.subrange(b as int, j as int), lv[j as int]);
            }
        }
        j = j + 1;
    }
    Ok(frame)
}

} // verus!
