use vstd::prelude::*;
use vstd::string::*;
use crate::ansi::{badge_spec, colorize, colorize_spec, get_level_color, level_color_spec, Color};
use crate::extract::{extract_log_parts, extract_spec, LogRecordView};
use crate::registry::{color_for, registry_after, TagColorRegistry};
use crate::text::{pad_right, pad_right_str, repeat_char, repeated};
use crate::wrap::{
    format_multiline_content, multiline_spec, LEFT_PADDING, TAG_WIDTH, TIMESTAMP_WIDTH,
};

verus! {

/// The timestamp column: the timestamp left-aligned in its fixed width,
/// shown in bright black, followed by one space — or nothing at all when
/// timestamps are hidden.
pub open spec fn timestamp_part(ts: Seq<char>, hide_timestamp: bool) -> Seq<char> {
    if hide_timestamp {
        Seq::empty()
    } else {
        colorize_spec(pad_right(ts, TIMESTAMP_WIDTH as int), Color::BrightBlack) + seq![' ']
    }
}

/// The tag column: the tag right-aligned in its fixed width and colorized
/// in the tag's color. A suppressed tag (`show` false) is replaced by a
/// same-length run of blanks in the same color, so the column keeps its
/// width. A tag longer than the column is not truncated.
pub open spec fn tag_column(tag: Seq<char>, tc: Color, show: bool) -> Seq<char> {
    let body = if show { tag } else { repeated(' ', tag.len() as int) };
    let fill = if tag.len() < TAG_WIDTH as int {
        repeated(' ', TAG_WIDTH as int - tag.len())
    } else {
        Seq::<char>::empty()
    };
    fill + colorize_spec(body, tc)
}

/// One fully rendered display line: left padding, the optional timestamp
/// column, the tag column, the severity badge, and the wrapped message in
/// the severity's color, in that fixed order.
pub open spec fn compose_line(rec: LogRecordView, tc: Color, show_tag: bool, hide_timestamp: bool,
    tw: int) -> Seq<char> {
    repeated(' ', LEFT_PADDING as int) + timestamp_part(rec.timestamp, hide_timestamp)
        + tag_column(rec.tag, tc, show_tag) + seq![' '] + badge_spec(rec.level) + seq![' ']
        + multiline_spec(rec.message, level_color_spec(rec.level), hide_timestamp, tw)
}

/// All state a render carries from one line to the next: the tag color
/// registry and the most recently rendered tag.
pub struct RenderState {
    pub registry: TagColorRegistry,
    pub last_tag: String,
}

impl RenderState {
    /// A render state is well formed when its registry is.
    pub open spec fn wf(&self) -> bool {
        self.registry.wf()
    }

    /// The state at the start of a stream: no tags registered, no tag
    /// rendered yet.
    pub fn new() -> (r: Self)
        ensures
            r.wf(),
            r.registry@ == Seq::<Seq<char>>::empty(),
            r.last_tag@ == Seq::<char>::empty(),
    {
        RenderState { registry: TagColorRegistry::new(), last_tag: String::new() }
    }
}

/// Render one raw line. A line of the expected shape is parsed and rendered
/// as `compose_line` describes, its tag is registered, the tag column is
/// suppressed exactly when the tag equals the previously rendered one, and
/// the last-tag slot is updated. A malformed line passes through unchanged
/// and leaves the state untouched.
pub fn format_log_line(state: &mut RenderState, line: &str, hide_timestamp: bool,
    term_width: usize) -> (r: Option<String>)
    requires
        old(state).wf(),
    ensures
        final(state).wf(),
        match extract_spec(line@) {
            Some(rec) => {
                &&& final(state).registry@ == registry_after(old(state).registry@, rec.tag)
                &&& final(state).last_tag@ == rec.tag
                &&& (r matches Some(out) && out@ == compose_line(
                    rec,
                    color_for(old(state).registry@, rec.tag),
                    old(state).last_tag@ != rec.tag,
                    hide_timestamp,
                    term_width as int,
                ))
            },
            None => {
                &&& *final(state) == *old(state)
                &&& (r matches Some(out) && out@ == line@)
            },
        },
{
    match extract_log_parts(line) {
        None => Some(String::from_str(line)),
        Some(rec) => {
            let (badge, mcolor) = get_level_color(rec.level);
            let content = format_multiline_content(
                rec.message.as_str(),
                mcolor,
                hide_timestamp,
                term_width,
            );
            let show_tag = !(state.last_tag == rec.tag);
            state.last_tag = rec.tag.clone();
            let tc = state.registry.get_tag_color(rec.tag.as_str());
            let tag_len = rec.tag.as_str().unicode_len();
            proof {
                reveal_strlit(" ");
            }
            let body = if show_tag {
                rec.tag.clone()
            } else {
                repeat_char(" ", tag_len)
            };
            let mut out = repeat_char(" ", LEFT_PADDING);
            if !hide_timestamp {
                let padded = pad_right_str(rec.timestamp.as_str(), TIMESTAMP_WIDTH);
                out.append(colorize(padded.as_str(), Color::BrightBlack).as_str());
                out.append(" ");
            }
            if tag_len < TAG_WIDTH {
                let fill = repeat_char(" ", TAG_WIDTH - tag_len);
                out.append(fill.as_str());
            }
            out.append(colorize(body.as_str(), tc).as_str());
            out.append(" ");
            out.append(badge.as_str());
            out.append(" ");
            out.append(content.as_str());
            proof {
                assert(" "@ =~= seq![' ']);
                assert(out@ =~= compose_line(
                    rec@,
                    color_for(old(state).registry@, rec@.tag),
                    old(state).last_tag@ != rec@.tag,
                    hide_timestamp,
                    term_width as int,
                ));
            }
            Some(out)
        },
    }
}

} // verus!
