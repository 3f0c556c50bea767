use vstd::prelude::*;
use crate::ansi::Color;
use crate::extract::LogRecordView;
use crate::registry::{color_for, first_index, registry_after};
use crate::render::{compose_line, tag_column};
use crate::text::{is_space, strip_ws, trim_start};
use crate::wrap::{
    all_chunks, avail_width, chunks_of_line, find_nl, last_space_in, lines_of, multiline_spec,
    strip_last_cr, wrap_chunks,
};

verus! {

proof fn lemma_strip_ws_concat(a: Seq<char>, b: Seq<char>)
    ensures
        strip_ws(a + b) == strip_ws(a) + strip_ws(b),
    decreases a.len(),
{
    if a.len() == 0 {
        assert(a + b =~= b);
        assert(strip_ws(a) + strip_ws(b) =~= strip_ws(b));
    } else {
        assert((a + b).drop_first() =~= a.drop_first() + b);
        assert((a + b)[0] == a[0]);
        lemma_strip_ws_concat(a.drop_first(), b);
        if is_space(a[0]) {
            assert(strip_ws(a + b) == strip_ws(a.drop_first() + b));
        } else {
            assert(strip_ws(a + b) =~= seq![a[0]] + strip_ws(a.drop_first()) + strip_ws(b));
            assert(strip_ws(a) + strip_ws(b) =~= seq![a[0]] + strip_ws(a.drop_first()) + strip_ws(
                b,
            ));
        }
    }
}

proof fn lemma_strip_ws_trim_start(s: Seq<char>)
    ensures
        strip_ws(trim_start(s)) == strip_ws(s),
    decreases s.len(),
{
    if s.len() > 0 && is_space(s[0]) {
        lemma_strip_ws_trim_start(s.drop_first());
    }
}

proof fn lemma_flatten_cons(h: Seq<char>, rest: Seq<Seq<char>>)
    ensures
        (seq![h] + rest).flatten() == h + rest.flatten(),
{
    let all = seq![h] + rest;
    assert(all.len() > 0);
    assert(all.first() == h);
    assert(all.drop_first() =~= rest);
}

/// Wrapping never drops message text: the segments a logical line wraps to
/// hold, in order, exactly the non-whitespace characters of the line.
pub proof fn wrapping_preserves_content(s: Seq<char>, w: int)
    requires
        w >= 1,
    ensures
        strip_ws(wrap_chunks(s, w).flatten()) == strip_ws(s),
    decreases s.len(),
{
    if s.len() == 0 {
        assert(wrap_chunks(s, w) =~= Seq::<Seq<char>>::empty());
        assert(Seq::<Seq<char>>::empty().flatten() =~= Seq::<char>::empty());
    } else if s.len() <= w {
        assert(wrap_chunks(s, w) =~= seq![s]);
        lemma_flatten_cons(s, Seq::<Seq<char>>::empty());
        assert(seq![s] =~= seq![s] + Seq::<Seq<char>>::empty());
        assert(Seq::<Seq<char>>::empty().flatten() =~= Seq::<char>::empty());
        assert(wrap_chunks(s, w).flatten() =~= s);
    } else {
        crate::wrap::lemma_last_space_props(s.take(w));
        let p = match last_space_in(s.take(w)) {
            Some(p) => p,
            None => w,
        };
        assert(0 <= p <= w);
        let chunk = s.take(p);
        let rest = trim_start(s.skip(p));
        assert(wrap_chunks(s, w) == seq![chunk] + wrap_chunks(rest, w));
        if last_space_in(s.take(w)) is Some {
            assert(s.take(w)[p] == s[p]);
            assert(s.skip(p)[0] == s[p]);
            crate::wrap::lemma_trim_start_len(s.skip(p));
        } else {
            crate::wrap::lemma_trim_start_len(s.skip(w));
        }
        wrapping_preserves_content(rest, w);
        lemma_flatten_cons(chunk, wrap_chunks(rest, w));
        lemma_strip_ws_concat(chunk, wrap_chunks(rest, w).flatten());
        lemma_strip_ws_trim_start(s.skip(p));
        lemma_strip_ws_concat(s.take(p), s.skip(p));
        assert(s.take(p) + s.skip(p) =~= s);
    }
}

proof fn lemma_chunks_of_line_content(l: Seq<char>, w: int)
    requires
        w >= 1,
    ensures
        strip_ws(chunks_of_line(l, w).flatten()) == strip_ws(l),
{
    if l.len() == 0 {
        lemma_flatten_cons(Seq::<char>::empty(), Seq::<Seq<char>>::empty());
        assert(chunks_of_line(l, w) =~= seq![Seq::<char>::empty()] + Seq::<Seq<char>>::empty());
        assert(Seq::<Seq<char>>::empty().flatten() =~= Seq::<char>::empty());
        assert(chunks_of_line(l, w).flatten() =~= Seq::<char>::empty());
        assert(strip_ws(l) =~= Seq::<char>::empty());
    } else {
        wrapping_preserves_content(l, w);
    }
}

proof fn lemma_all_chunks_content(ls: Seq<Seq<char>>, w: int)
    requires
        w >= 1,
    ensures
        strip_ws(all_chunks(ls, w).flatten()) == strip_ws(ls.flatten()),
    decreases ls.len(),
{
    if ls.len() == 0 {
        assert(all_chunks(ls, w) =~= Seq::<Seq<char>>::empty());
        assert(Seq::<Seq<char>>::empty().flatten() =~= Seq::<char>::empty());
        assert(ls.flatten() =~= Seq::<char>::empty());
    } else {
        lemma_all_chunks_content(ls.drop_first(), w);
        lemma_chunks_of_line_content(ls[0], w);
        let head = chunks_of_line(ls[0], w);
        let tail = all_chunks(ls.drop_first(), w);
        lemma_flatten_concat_chars(head, tail);
        lemma_strip_ws_concat(head.flatten(), tail.flatten());
        lemma_flatten_cons(ls[0], ls.drop_first());
        assert(ls =~= seq![ls[0]] + ls.drop_first());
        lemma_strip_ws_concat(ls[0], ls.drop_first().flatten());
    }
}

proof fn lemma_flatten_concat_chars(a: Seq<Seq<char>>, b: Seq<Seq<char>>)
    ensures
        (a + b).flatten() == a.flatten() + b.flatten(),
    decreases a.len(),
{
    if a.len() == 0 {
        assert(a + b =~= b);
        assert(a.flatten() =~= Seq::<char>::empty());
        assert(a.flatten() + b.flatten() =~= b.flatten());
    } else {
        assert((a + b).drop_first() =~= a.drop_first() + b);
        assert((a + b).first() == a.first());
        lemma_flatten_concat_chars(a.drop_first(), b);
        assert((a + b).flatten() =~= a.first() + (a.drop_first().flatten() + b.flatten()));
        assert(a.flatten() + b.flatten() =~= a.first() + (a.drop_first().flatten() + b.flatten()));
    }
}

proof fn lemma_lines_content(s: Seq<char>)
    ensures
        strip_ws(lines_of(s).flatten()) == strip_ws(s),
    decreases s.len(),
{
    if s.len() == 0 {
        assert(lines_of(s) =~= Seq::<Seq<char>>::empty());
        assert(Seq::<Seq<char>>::empty().flatten() =~= Seq::<char>::empty());
    } else {
        crate::wrap::lemma_find_nl_range(s);
        match find_nl(s) {
            Some(i) => {
                let head = strip_last_cr(s.take(i));
                let tail = lines_of(s.skip(i + 1));
                lemma_flatten_cons(head, tail);
                lemma_strip_ws_concat(head, tail.flatten());
                lemma_lines_content(s.skip(i + 1));
                // the head keeps the non-whitespace of the pre-newline part
                if s.take(i).len() > 0 && s.take(i).last() == '\r' {
                    assert(s.take(i) =~= head + seq!['\r']);
                    lemma_strip_ws_concat(head, seq!['\r']);
                    assert(seq!['\r'].drop_first() =~= Seq::<char>::empty());
                    assert(strip_ws(seq!['\r']) == strip_ws(Seq::<char>::empty()));
                    assert(strip_ws(seq!['\r']) =~= Seq::<char>::empty());
                    assert(strip_ws(head) + strip_ws(seq!['\r']) =~= strip_ws(head));
                }
                assert(strip_ws(head) == strip_ws(s.take(i)));
                // the split newline itself carries no content
                assert(s =~= s.take(i) + (seq!['\n'] + s.skip(i + 1)));
                lemma_strip_ws_concat(s.take(i), seq!['\n'] + s.skip(i + 1));
                lemma_strip_ws_concat(seq!['\n'], s.skip(i + 1));
                assert(seq!['\n'].drop_first() =~= Seq::<char>::empty());
                assert(strip_ws(seq!['\n']) == strip_ws(Seq::<char>::empty()));
                assert(strip_ws(seq!['\n']) =~= Seq::<char>::empty());
                assert(strip_ws(seq!['\n'] + s.skip(i + 1)) =~= strip_ws(s.skip(i + 1)));
            },
            None => {
                lemma_flatten_cons(s, Seq::<Seq<char>>::empty());
                assert(lines_of(s) =~= seq![s] + Seq::<Seq<char>>::empty());
                assert(Seq::<Seq<char>>::empty().flatten() =~= Seq::<char>::empty());
                assert(lines_of(s).flatten() =~= s);
            },
        }
    }
}

/// A rendered message never drops content: however the body of a record is
/// split into lines and wrapped segments, those segments hold, in order,
/// exactly the non-whitespace characters of the message.
pub proof fn render_preserves_message_content(rec: LogRecordView, hide_timestamp: bool, tw: int)
    ensures
        strip_ws(all_chunks(lines_of(rec.message), avail_width(tw, hide_timestamp)).flatten())
            == strip_ws(rec.message),
{
    lemma_all_chunks_content(lines_of(rec.message), avail_width(tw, hide_timestamp));
    lemma_lines_content(rec.message);
}

/// A tag's color never changes once assigned: looking any further tag up
/// leaves the color of an already-registered tag as it was.
pub proof fn tag_color_stable(tags: Seq<Seq<char>>, t: Seq<char>, u: Seq<char>)
    requires
        tags.contains(t),
    ensures
        color_for(registry_after(tags, u), t) == color_for(tags, t),
{
    if !tags.contains(u) {
        lemma_first_index_push(tags, t, u);
        assert(tags.push(u).contains(t)) by {
            let i = choose|i: int| 0 <= i < tags.len() && tags[i] == t;
            assert(tags.push(u)[i] == t);
        }
    }
}

/// The registry contents after a whole stream of lookups, in order.
pub open spec fn feed_all(tags: Seq<Seq<char>>, us: Seq<Seq<char>>) -> Seq<Seq<char>>
    decreases us.len(),
{
    if us.len() == 0 {
        tags
    } else {
        feed_all(registry_after(tags, us[0]), us.drop_first())
    }
}

proof fn lemma_registry_after_keeps(tags: Seq<Seq<char>>, t: Seq<char>, u: Seq<char>)
    requires
        tags.contains(t),
    ensures
        registry_after(tags, u).contains(t),
{
    if !tags.contains(u) {
        let i = choose|i: int| 0 <= i < tags.len() && tags[i] == t;
        assert(tags.push(u)[i] == t);
    }
}

/// A tag's color survives any later stream of lookups: once `t` is
/// registered, feeding arbitrarily many further tags never changes what a
/// lookup of `t` yields.
pub proof fn tag_color_stable_forever(tags: Seq<Seq<char>>, t: Seq<char>, us: Seq<Seq<char>>)
    requires
        tags.contains(t),
    ensures
        color_for(feed_all(tags, us), t) == color_for(tags, t),
    decreases us.len(),
{
    if us.len() > 0 {
        tag_color_stable(tags, t, us[0]);
        lemma_registry_after_keeps(tags, t, us[0]);
        tag_color_stable_forever(registry_after(tags, us[0]), t, us.drop_first());
    }
}

proof fn lemma_first_index_push(tags: Seq<Seq<char>>, t: Seq<char>, u: Seq<char>)
    requires
        tags.contains(t),
    ensures
        first_index(tags.push(u), t) == first_index(tags, t),
    decreases tags.len(),
{
    assert(tags.len() > 0) by {
        let i = choose|i: int| 0 <= i < tags.len() && tags[i] == t;
    }
    assert(tags.push(u)[0] == tags[0]);
    if tags[0] != t {
        assert(tags.drop_first().contains(t)) by {
            let i = choose|i: int| 0 <= i < tags.len() && tags[i] == t;
            assert(tags.drop_first()[i - 1] == t);
        }
        lemma_first_index_push(tags.drop_first(), t, u);
        assert(tags.push(u).drop_first() =~= tags.drop_first().push(u));
    }
}

/// Tag colors depend only on first-appearance order: a tag seen for the
/// first time is assigned the palette entry at the number of distinct tags
/// seen before it, and the registry then records it at that position.
pub proof fn tag_color_by_first_appearance(tags: Seq<Seq<char>>, t: Seq<char>)
    requires
        !tags.contains(t),
    ensures
        color_for(tags, t) == crate::ansi::palette_color(tags.len() as int),
        registry_after(tags, t) == tags.push(t),
        first_index(tags.push(t), t) == tags.len(),
{
    lemma_first_index_last(tags, t);
}

proof fn lemma_first_index_last(tags: Seq<Seq<char>>, t: Seq<char>)
    requires
        !tags.contains(t),
    ensures
        first_index(tags.push(t), t) == tags.len(),
    decreases tags.len(),
{
    assert(tags.push(t)[0] == if tags.len() == 0 { t } else { tags[0] });
    if tags.len() > 0 {
        assert(tags[0] != t) by {
            assert(tags.contains(t) <== tags[0] == t) by {
                if tags[0] == t {
                    assert(tags[0] == t);
                }
            }
        }
        assert(!tags.drop_first().contains(t)) by {
            if tags.drop_first().contains(t) {
                let i = choose|i: int|
                    0 <= i < tags.drop_first().len() && tags.drop_first()[i] == t;
                assert(tags[i + 1] == t);
            }
        }
        lemma_first_index_last(tags.drop_first(), t);
        assert(tags.push(t).drop_first() =~= tags.drop_first().push(t));
    }
}

/// A suppressed tag column has exactly the width of a shown one, so
/// consecutive same-tag lines keep their layout.
pub proof fn suppressed_tag_column_same_width(tag: Seq<char>, tc: Color)
    ensures
        tag_column(tag, tc, false).len() == tag_column(tag, tc, true).len(),
{
}

/// A message that fits in the available width wraps to exactly one segment.
pub proof fn short_line_single_chunk(s: Seq<char>, w: int)
    requires
        1 <= s.len() <= w,
    ensures
        wrap_chunks(s, w) == seq![s],
{
}

/// A message one character wider than the window, with a space in the
/// window, breaks at the last such space — not at the width boundary.
pub proof fn overlong_line_breaks_at_space(s: Seq<char>, w: int, p: int)
    requires
        w >= 1,
        s.len() == w + 1,
        last_space_in(s.take(w)) == Some(p),
    ensures
        wrap_chunks(s, w)[0] == s.take(p),
{
}

/// A message one character wider than the window, with a space in the
/// window, wraps into exactly two segments: the text before the last such
/// space, then the remainder behind the break — provided the remainder is
/// not all blanks (a line whose overflow is only trailing whitespace folds
/// to a single segment).
pub proof fn overlong_line_wraps_to_two_segments(s: Seq<char>, w: int, p: int)
    requires
        w >= 1,
        s.len() == w + 1,
        last_space_in(s.take(w)) == Some(p),
        trim_start(s.skip(p)).len() > 0,
    ensures
        wrap_chunks(s, w) == seq![s.take(p), trim_start(s.skip(p))],
{
    crate::wrap::lemma_last_space_props(s.take(w));
    assert(s.take(w)[p] == s[p]);
    assert(s.skip(p)[0] == s[p]);
    crate::wrap::lemma_trim_start_len(s.skip(p));
    let rest = trim_start(s.skip(p));
    assert(rest.len() <= w);
    assert(wrap_chunks(rest, w) == seq![rest]);
    assert(wrap_chunks(s, w) =~= seq![s.take(p), rest]);
}

/// A whole rendered line embeds the rendered message verbatim behind the
/// fixed columns.
pub proof fn rendered_line_ends_with_message(rec: LogRecordView, tc: Color, show_tag: bool,
    hide_timestamp: bool, tw: int)
    ensures
        exists|prefix: Seq<char>|
            compose_line(rec, tc, show_tag, hide_timestamp, tw) == prefix + multiline_spec(
                rec.message,
                crate::ansi::level_color_spec(rec.level),
                hide_timestamp,
                tw,
            ),
{
    let prefix = crate::text::repeated(' ', crate::wrap::LEFT_PADDING as int)
        + crate::render::timestamp_part(rec.timestamp, hide_timestamp) + tag_column(
        rec.tag,
        tc,
        show_tag,
    ) + seq![' '] + crate::ansi::badge_spec(rec.level) + seq![' '];
    assert(compose_line(rec, tc, show_tag, hide_timestamp, tw) =~= prefix + multiline_spec(
        rec.message,
        crate::ansi::level_color_spec(rec.level),
        hide_timestamp,
        tw,
    ));
}

} // verus!
