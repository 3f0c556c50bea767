use vstd::prelude::*;
use vstd::string::*;
use crate::ansi::{colorize, colorize_spec, Color};
use crate::text::{first_nonspace, is_space, repeat_char, repeated, trim_start};

verus! {

/// Leading blank width of every rendered line.
pub const LEFT_PADDING: usize = 2;

/// Width of the timestamp column.
pub const TIMESTAMP_WIDTH: usize = 12;

/// Width of the tag column.
pub const TAG_WIDTH: usize = 25;

/// The column at which message text starts: the fixed columns to its left
/// (left padding, optional timestamp, tag, level badge and the spaces
/// between them).
pub open spec fn message_start_padding(hide_timestamp: bool) -> int {
    LEFT_PADDING as int + (if hide_timestamp { 0int } else { TIMESTAMP_WIDTH as int })
        + TAG_WIDTH as int + 6
}

/// The terminal width actually used: a reported width of zero (an
/// unavailable terminal) falls back to 80 columns.
pub open spec fn effective_width(term_width: int) -> int {
    if term_width == 0 { 80 } else { term_width }
}

/// The width available to message text, never less than one column so that
/// wrapping always makes progress.
pub open spec fn avail_width(term_width: int, hide_timestamp: bool) -> int {
    let a = effective_width(term_width) - message_start_padding(hide_timestamp);
    if a < 1 { 1 } else { a }
}

/// Index of the last space character of `s`, if any.
pub open spec fn last_space_in(s: Seq<char>) -> Option<int>
    decreases s.len(),
{
    if s.len() == 0 {
        None
    } else if s.last() == ' ' {
        Some(s.len() - 1)
    } else {
        last_space_in(s.drop_last())
    }
}

pub proof fn lemma_last_space_props(s: Seq<char>)
    ensures
        match last_space_in(s) {
            Some(p) => 0 <= p < s.len() && s[p] == ' ' && (forall|k: int|
                p < k < s.len() ==> s[k] != ' '),
            None => forall|k: int| 0 <= k < s.len() ==> s[k] != ' ',
        },
    decreases s.len(),
{
    if s.len() > 0 && s.last() != ' ' {
        lemma_last_space_props(s.drop_last());
        assert(forall|k: int| 0 <= k < s.len() - 1 ==> s.drop_last()[k] == s[k]);
        match last_space_in(s.drop_last()) {
            Some(p) => {
                assert(s[p] == ' ');
                assert(forall|k: int| p < k < s.len() ==> s[k] != ' ');
            },
            None => {
                assert(forall|k: int| 0 <= k < s.len() ==> s[k] != ' ');
            },
        }
    }
}

proof fn lemma_last_space_at(s: Seq<char>, p: int)
    requires
        0 <= p < s.len(),
        s[p] == ' ',
        forall|k: int| p < k < s.len() ==> s[k] != ' ',
    ensures
        last_space_in(s) == Some(p),
    decreases s.len(),
{
    if p < s.len() - 1 {
        lemma_last_space_at(s.drop_last(), p);
    }
}

proof fn lemma_no_space(s: Seq<char>)
    requires
        forall|k: int| 0 <= k < s.len() ==> s[k] != ' ',
    ensures
        last_space_in(s) is None,
    decreases s.len(),
{
    if s.len() > 0 {
        lemma_no_space(s.drop_last());
    }
}

/// Trimming the front of a string never lengthens it, and strictly shortens
/// it when it starts with whitespace.
pub proof fn lemma_trim_start_len(s: Seq<char>)
    ensures
        trim_start(s).len() <= s.len(),
        s.len() > 0 && is_space(s[0]) ==> trim_start(s).len() < s.len(),
    decreases s.len(),
{
    if s.len() > 0 && is_space(s[0]) {
        lemma_trim_start_len(s.drop_first());
    }
}

/// The word-boundary wrapping of one logical line at width `w`: while the
/// remainder overflows `w`, break at the last space within the first `w`
/// characters (or hard-break at `w` when that window has no space), then
/// drop the whitespace the break landed on.
pub open spec fn wrap_chunks(s: Seq<char>, w: int) -> Seq<Seq<char>>
    decreases s.len(),
    when w >= 1
    via wrap_chunks_decreases
{
    if s.len() == 0 {
        Seq::empty()
    } else if s.len() <= w {
        seq![s]
    } else {
        match last_space_in(s.take(w)) {
            Some(p) => seq![s.take(p)] + wrap_chunks(trim_start(s.skip(p)), w),
            None => seq![s.take(w)] + wrap_chunks(trim_start(s.skip(w)), w),
        }
    }
}

#[via_fn]
proof fn wrap_chunks_decreases(s: Seq<char>, w: int) {
    if s.len() > w {
        lemma_last_space_props(s.take(w));
        match last_space_in(s.take(w)) {
            Some(p) => {
                assert(s.skip(p)[0] == s[p]);
                lemma_trim_start_len(s.skip(p));
            },
            None => {
                lemma_trim_start_len(s.skip(w));
            },
        }
    }
}

/// The wrapped segments of one logical line: an empty line still yields one
/// (empty) segment, so blank lines are kept.
pub open spec fn chunks_of_line(l: Seq<char>, w: int) -> Seq<Seq<char>> {
    if l.len() == 0 {
        seq![Seq::<char>::empty()]
    } else {
        wrap_chunks(l, w)
    }
}

/// Index of the first newline in `s`, if any.
pub open spec fn find_nl(s: Seq<char>) -> Option<int>
    decreases s.len(),
{
    if s.len() == 0 {
        None
    } else if s[0] == '\n' {
        Some(0int)
    } else {
        match find_nl(s.drop_first()) {
            Some(i) => Some(i + 1),
            None => None,
        }
    }
}

pub proof fn lemma_find_nl_range(s: Seq<char>)
    ensures
        match find_nl(s) {
            Some(i) => 0 <= i < s.len() && s[i] == '\n',
            None => true,
        },
    decreases s.len(),
{
    if s.len() > 0 && s[0] != '\n' {
        lemma_find_nl_range(s.drop_first());
    }
}

/// `s` without a single trailing carriage return.
pub open spec fn strip_last_cr(s: Seq<char>) -> Seq<char> {
    if s.len() > 0 && s.last() == '\r' {
        s.drop_last()
    } else {
        s
    }
}

/// The logical lines of `s`, split at newlines, each with a trailing
/// carriage return removed; a trailing newline opens no extra empty line.
pub open spec fn lines_of(s: Seq<char>) -> Seq<Seq<char>>
    decreases s.len(),
    via lines_of_decreases
{
    if s.len() == 0 {
        Seq::empty()
    } else {
        match find_nl(s) {
            Some(i) => seq![strip_last_cr(s.take(i))] + lines_of(s.skip(i + 1)),
            None => seq![s],
        }
    }
}

#[via_fn]
proof fn lines_of_decreases(s: Seq<char>) {
    lemma_find_nl_range(s);
}

/// The wrapped segments of all logical lines of a message, in order.
pub open spec fn all_chunks(ls: Seq<Seq<char>>, w: int) -> Seq<Seq<char>>
    decreases ls.len(),
{
    if ls.len() == 0 {
        Seq::empty()
    } else {
        chunks_of_line(ls[0], w) + all_chunks(ls.drop_first(), w)
    }
}

/// The rendered message body: each segment colorized in `c`, and every
/// segment after the first on its own line behind `pad` blank columns, so
/// continuations align under the message column.
pub open spec fn glue(segs: Seq<Seq<char>>, c: Color, pad: Seq<char>) -> Seq<char>
    decreases segs.len(),
{
    if segs.len() == 0 {
        Seq::empty()
    } else if segs.len() == 1 {
        colorize_spec(segs[0], c)
    } else {
        colorize_spec(segs[0], c) + seq!['\n'] + pad + glue(segs.drop_first(), c, pad)
    }
}

/// The full rendering of a message body `s` in color `c` at terminal width
/// `tw`: its logical lines wrapped at the available width and glued behind
/// the continuation padding.
pub open spec fn multiline_spec(s: Seq<char>, c: Color, hide_timestamp: bool, tw: int) -> Seq<
    char,
> {
    glue(
        all_chunks(lines_of(s), avail_width(tw, hide_timestamp)),
        c,
        repeated(' ', message_start_padding(hide_timestamp)),
    )
}

fn rfind_space_in_prefix(s: &str, w: usize) -> (r: Option<usize>)
    requires
        1 <= w <= s@.len(),
    ensures
        match r {
            Some(p) => p < w && last_space_in(s@.take(w as int)) == Some(p as int),
            None => last_space_in(s@.take(w as int)) is None,
        },
{
    let mut j = w;
    while j > 0
        invariant
            j <= w <= s@.len(),
            forall|k: int| j <= k < w ==> s@[k] != ' ',
        decreases j,
    {
        if s.get_char(j - 1) == ' ' {
            proof {
                assert(forall|k: int| j <= k < w ==> s@.take(w as int)[k] != ' ');
                lemma_last_space_at(s@.take(w as int), j as int - 1);
            }
            return Some(j - 1);
        }
        j = j - 1;
    }
    proof {
        assert(forall|k: int| 0 <= k < w ==> s@.take(w as int)[k] != ' ');
        lemma_no_space(s@.take(w as int));
    }
    None
}

fn wrap_chunks_str(s: &str, w: usize) -> (r: Vec<String>)
    requires
        w >= 1,
    ensures
        r@.map_values(|t: String| t@) == wrap_chunks(s@, w as int),
    decreases s@.len(),
{
    let n = s.unicode_len();
    if n == 0 {
        let r: Vec<String> = Vec::new();
        proof {
            assert(r@.map_values(|t: String| t@) =~= wrap_chunks(s@, w as int));
        }
        r
    } else if n <= w {
        let mut r: Vec<String> = Vec::new();
        r.push(String::from_str(s));
        proof {
            assert(r@.map_values(|t: String| t@) =~= wrap_chunks(s@, w as int));
        }
        r
    } else {
        let ghost sv = s@;
        let found = rfind_space_in_prefix(s, w);
        let ghost is_space_break = found is Some;
        let p = match found {
            Some(p) => p,
            None => w,
        };
        let chunk = String::from_str(s.substring_char(0, p));
        proof {
            lemma_last_space_props(sv.take(w as int));
            if is_space_break {
                assert(sv.take(w as int)[p as int] == sv[p as int]);
                assert(sv.skip(p as int)[0] == sv[p as int]);
            }
            lemma_trim_start_len(sv.skip(p as int));
        }
        let q = first_nonspace(s, p);
        proof {
            if q == p {
                assert(trim_start(sv.skip(p as int)) =~= sv.skip(q as int));
                if is_space_break {
                    assert(trim_start(sv.skip(p as int)).len() < sv.skip(p as int).len());
                }
            }
        }
        let tail = s.substring_char(q, n);
        proof {
            assert(tail@ =~= sv.skip(q as int));
            assert(trim_start(sv.skip(p as int)) =~= tail@);
            assert(tail@.len() < sv.len());
        }
        let mut rest = wrap_chunks_str(tail, w);
        let ghost rest_view = rest@.map_values(|t: String| t@);
        let mut r: Vec<String> = Vec::new();
        r.push(chunk);
        r.append(&mut rest);
        proof {
            assert(sv.subrange(0, p as int) =~= sv.take(p as int));
            assert(r@.map_values(|t: String| t@) =~= seq![sv.take(p as int)] + rest_view);
            assert(r@.map_values(|t: String| t@) =~= wrap_chunks(sv, w as int));
        }
        r
    }
}

fn find_nl_at(s: &str, i: usize) -> (r: Option<usize>)
    requires
        i <= s@.len(),
    ensures
        match r {
            Some(j) => i <= j && j < s@.len() && find_nl(s@.skip(i as int)) == Some(
                j as int - i as int,
            ),
            None => find_nl(s@.skip(i as int)) is None,
        },
    decreases s@.len() - i,
{
    let n = s.unicode_len();
    if i == n {
        None
    } else if s.get_char(i) == '\n' {
        Some(i)
    } else {
        proof {
            assert(s@.skip(i as int).drop_first() =~= s@.skip(i as int + 1));
        }
        find_nl_at(s, i + 1)
    }
}

fn split_lines(s: &str) -> (r: Vec<String>)
    ensures
        r@.map_values(|t: String| t@) == lines_of(s@),
    decreases s@.len(),
{
    let n = s.unicode_len();
    if n == 0 {
        let r: Vec<String> = Vec::new();
        proof {
            assert(r@.map_values(|t: String| t@) =~= lines_of(s@));
        }
        return r;
    }
    proof {
        assert(s@.skip(0) =~= s@);
    }
    match find_nl_at(s, 0) {
        Some(i) => {
            let e = if i > 0 && s.get_char(i - 1) == '\r' {
                i - 1
            } else {
                i
            };
            let first = String::from_str(s.substring_char(0, e));
            proof {
                if i > 0 {
                    assert(s@.take(i as int).last() == s@[i as int - 1]);
                }
                assert(strip_last_cr(s@.take(i as int)) =~= s@.subrange(0, e as int));
            }
            let tail = s.substring_char(i + 1, n);
            proof {
                assert(tail@ =~= s@.skip(i as int + 1));
            }
            let mut rest = split_lines(tail);
            let ghost rest_view = rest@.map_values(|t: String| t@);
            let mut r: Vec<String> = Vec::new();
            r.push(first);
            r.append(&mut rest);
            proof {
                assert(r@.map_values(|t: String| t@) =~= seq![strip_last_cr(s@.take(i as int))]
                    + rest_view);
                assert(r@.map_values(|t: String| t@) =~= lines_of(s@));
            }
            r
        },
        None => {
            let mut r: Vec<String> = Vec::new();
            r.push(String::from_str(s));
            proof {
                assert(r@.map_values(|t: String| t@) =~= lines_of(s@));
            }
            r
        },
    }
}

fn chunks_of_lines(ls: &Vec<String>, idx: usize, w: usize) -> (r: Vec<String>)
    requires
        idx <= ls@.len(),
        w >= 1,
    ensures
        r@.map_values(|t: String| t@) == all_chunks(
            ls@.map_values(|t: String| t@).skip(idx as int),
            w as int,
        ),
    decreases ls@.len() - idx,
{
    let ghost lv = ls@.map_values(|t: String| t@);
    if idx == ls.len() {
        let r: Vec<String> = Vec::new();
        proof {
            assert(lv.skip(idx as int) =~= Seq::<Seq<char>>::empty());
            assert(r@.map_values(|t: String| t@) =~= all_chunks(lv.skip(idx as int), w as int));
        }
        r
    } else {
        let line = &ls[idx];
        let mut cur: Vec<String> = if line.as_str().is_empty() {
            let mut v: Vec<String> = Vec::new();
            v.push(String::new());
            v
        } else {
            wrap_chunks_str(line.as_str(), w)
        };
        let ghost cur_view = cur@.map_values(|t: String| t@);
        proof {
            assert(lv[idx as int] == ls@[idx as int]@);
            assert(cur_view =~= chunks_of_line(lv[idx as int], w as int));
        }
        let mut rest = chunks_of_lines(ls, idx + 1, w);
        let ghost rest_view = rest@.map_values(|t: String| t@);
        cur.append(&mut rest);
        proof {
            assert(lv.skip(idx as int).drop_first() =~= lv.skip(idx as int + 1));
            assert(lv.skip(idx as int)[0] == lv[idx as int]);
            assert(cur@.map_values(|t: String| t@) =~= cur_view + rest_view);
            assert(cur@.map_values(|t: String| t@) =~= all_chunks(lv.skip(idx as int), w as int));
        }
        cur
    }
}

fn glue_exec(segs: &Vec<String>, idx: usize, color: Color, pad: &str) -> (r: String)
    requires
        idx <= segs@.len(),
    ensures
        r@ == glue(segs@.map_values(|t: String| t@).skip(idx as int), color, pad@),
    decreases segs@.len() - idx,
{
    let ghost sv = segs@.map_values(|t: String| t@);
    if idx == segs.len() {
        let r = String::new();
        proof {
            assert(sv.skip(idx as int) =~= Seq::<Seq<char>>::empty());
        }
        r
    } else if idx + 1 == segs.len() {
        let r = colorize(segs[idx].as_str(), color);
        proof {
            assert(sv[idx as int] == segs@[idx as int]@);
            assert(sv.skip(idx as int) =~= seq![sv[idx as int]]);
        }
        r
    } else {
        let mut r = colorize(segs[idx].as_str(), color);
        proof {
            reveal_strlit("\n");
        }
        r.append("\n");
        r.append(pad);
        let rest = glue_exec(segs, idx + 1, color, pad);
        r.append(rest.as_str());
        proof {
            assert(sv[idx as int] == segs@[idx as int]@);
            assert(sv.skip(idx as int).drop_first() =~= sv.skip(idx as int + 1));
            assert(sv.skip(idx as int)[0] == sv[idx as int]);
            assert(sv.skip(idx as int).len() >= 2);
            assert("\n"@ =~= seq!['\n']);
            assert(r@ =~= glue(sv.skip(idx as int), color, pad@));
        }
        r
    }
}

/// Render a message body: split it at embedded newlines, wrap each logical
/// line at the width available beside the fixed columns, colorize every
/// segment in `color`, and indent every continuation segment to the message
/// column. A `term_width` of zero stands for an unavailable terminal and
/// falls back to 80 columns.
pub fn format_multiline_content(content: &str, color: Color, hide_timestamp: bool,
    term_width: usize) -> (r: String)
    ensures
        r@ == multiline_spec(content@, color, hide_timestamp, term_width as int),
{
    let ts_w: usize = if hide_timestamp { 0 } else { TIMESTAMP_WIDTH };
    let msp: usize = LEFT_PADDING + ts_w + TAG_WIDTH + 6;
    let eff: usize = if term_width == 0 { 80 } else { term_width };
    let avail: usize = if eff > msp { eff - msp } else { 1 };
    proof {
        assert(avail as int == avail_width(term_width as int, hide_timestamp));
        reveal_strlit(" ");
    }
    let pad = repeat_char(" ", msp);
    let ls = split_lines(content);
    let segs = chunks_of_lines(&ls, 0, avail);
    let r = glue_exec(&segs, 0, color, pad.as_str());
    proof {
        assert(ls@.map_values(|t: String| t@).skip(0) =~= lines_of(content@));
        assert(segs@.map_values(|t: String| t@).skip(0) =~= segs@.map_values(|t: String| t@));
    }
    r
}

} // verus!
