use vstd::prelude::*;
use vstd::string::*;
use crate::Level;
use crate::text::{
    find_dot, find_dot_str, find_sep, find_sep_str, join_from, join_tokens, repeat_char, repeated,
    strip_seps, strip_seps_start, tokenize, tokens_of, trim, trim_str,
};

verus! {

/// One structured log record, as read out of a raw logcat-style line.
pub struct LogRecord {
    pub timestamp: String,
    pub level: Level,
    pub tag: String,
    pub message: String,
}

/// The mathematical image of a `LogRecord`.
pub struct LogRecordView {
    pub timestamp: Seq<char>,
    pub level: Level,
    pub tag: Seq<char>,
    pub message: Seq<char>,
}

impl View for LogRecord {
    type V = LogRecordView;

    open spec fn view(&self) -> LogRecordView {
        LogRecordView {
            timestamp: self.timestamp@,
            level: self.level,
            tag: self.tag@,
            message: self.message@,
        }
    }
}

/// The fractional-seconds part brought to exactly three digits: truncated
/// when longer, right-padded with zeros when shorter.
pub open spec fn pad3(frac: Seq<char>) -> Seq<char> {
    if frac.len() >= 3 {
        frac.take(3)
    } else {
        frac + repeated('0', 3 - frac.len())
    }
}

/// The display timestamp built from the raw time token: the part before the
/// first dot, a dot, and exactly three fraction digits (`000` when the token
/// has no fraction).
pub open spec fn timestamp_of(tok: Seq<char>) -> Seq<char> {
    match find_dot(tok) {
        Some(i) => tok.take(i) + seq!['.'] + pad3(tok.skip(i + 1)),
        None => tok + seq!['.', '0', '0', '0'],
    }
}

/// The severity named by the raw level token, matched case-sensitively;
/// anything unrecognized is `Unknown`.
pub open spec fn level_of_token(tok: Seq<char>) -> Level {
    if tok == seq!['V'] { Level::Verbose }
    else if tok == seq!['D'] { Level::Debug }
    else if tok == seq!['I'] { Level::Info }
    else if tok == seq!['W'] { Level::Warn }
    else if tok == seq!['E'] { Level::Error }
    else if tok == seq!['F'] { Level::Fatal }
    else { Level::Unknown }
}

/// The record that a well-shaped line parses to, or `None` when the line has
/// fewer than six whitespace-separated tokens. The tag and the message are
/// split at the first `": "` of the re-joined remainder; without one, the
/// whole remainder is the tag and the message is empty.
pub open spec fn extract_spec(line: Seq<char>) -> Option<LogRecordView> {
    let ts = tokens_of(line);
    if ts.len() < 6 {
        None
    } else {
        let joined = join_tokens(ts.skip(5));
        let tag = match find_sep(joined) {
            Some(i) => trim(joined.take(i)),
            None => trim(joined),
        };
        let msg = match find_sep(joined) {
            Some(i) => strip_seps(joined.skip(i)),
            None => Seq::<char>::empty(),
        };
        Some(LogRecordView {
            timestamp: timestamp_of(ts[1]),
            level: level_of_token(ts[4]),
            tag: tag,
            message: msg,
        })
    }
}

/// The display timestamp for the raw time token `tok`.
pub fn make_timestamp(tok: &str) -> (r: String)
    ensures
        r@ == timestamp_of(tok@),
{
    let n = tok.unicode_len();
    match find_dot_str(tok) {
        Some(i) => {
            let mut r = String::from_str(tok.substring_char(0, i));
            proof {
                reveal_strlit(".");
            }
            r.append(".");
            let fl = n - (i + 1);
            if fl >= 3 {
                r.append(tok.substring_char(i + 1, i + 4));
                proof {
                    assert(tok@.skip(i + 1).take(3) =~= tok@.subrange(i + 1, i + 4));
                    assert(r@ =~= timestamp_of(tok@));
                }
            } else {
                r.append(tok.substring_char(i + 1, n));
                proof {
                    reveal_strlit("0");
                }
                let z = repeat_char("0", 3 - fl);
                r.append(z.as_str());
                proof {
                    assert(tok@.skip(i + 1) =~= tok@.subrange(i + 1, n as int));
                    assert(r@ =~= timestamp_of(tok@));
                }
            }
            r
        },
        None => {
            let mut r = String::from_str(tok);
            proof {
                reveal_strlit(".000");
            }
            r.append(".000");
            proof {
                assert(r@ =~= timestamp_of(tok@));
            }
            r
        },
    }
}

/// The severity named by the raw level token.
pub fn parse_level(tok: &str) -> (l: Level)
    ensures
        l == level_of_token(tok@),
{
    let n = tok.unicode_len();
    if n == 1 {
        let c = tok.get_char(0);
        if c == 'V' {
            proof { assert(tok@ =~= seq!['V']); }
            Level::Verbose
        } else if c == 'D' {
            proof { assert(tok@ =~= seq!['D']); }
            Level::Debug
        } else if c == 'I' {
            proof { assert(tok@ =~= seq!['I']); }
            Level::Info
        } else if c == 'W' {
            proof { assert(tok@ =~= seq!['W']); }
            Level::Warn
        } else if c == 'E' {
            proof { assert(tok@ =~= seq!['E']); }
            Level::Error
        } else if c == 'F' {
            proof { assert(tok@ =~= seq!['F']); }
            Level::Fatal
        } else {
            Level::Unknown
        }
    } else {
        Level::Unknown
    }
}

/// Parse one raw line into a structured record, or `None` when the line does
/// not have the minimum six whitespace-separated tokens of the expected
/// `date time pid tid level tag: message` shape.
pub fn extract_log_parts(line: &str) -> (r: Option<LogRecord>)
    ensures
        match r {
            Some(rec) => extract_spec(line@) == Some(rec@),
            None => extract_spec(line@) is None,
        },
{
    let toks = tokenize(line);
    let ghost tv = toks@.map_values(|t: String| t@);
    if toks.len() < 6 {
        return None;
    }
    let timestamp = make_timestamp(toks[1].as_str());
    let level = parse_level(toks[4].as_str());
    let joined = join_from(&toks, 5);
    let jn = joined.unicode_len();
    let (tag, message) = match find_sep_str(joined.as_str()) {
        Some(i) => {
            let tag = trim_str(joined.as_str().substring_char(0, i));
            let j = strip_seps_start(joined.as_str(), i);
            let message = String::from_str(joined.as_str().substring_char(j, jn));
            proof {
                assert(joined@.subrange(0, i as int) =~= joined@.take(i as int));
                assert(joined@.subrange(j as int, jn as int) =~= joined@.skip(j as int));
            }
            (tag, message)
        },
        None => (trim_str(joined.as_str()), String::new()),
    };
    let rec = LogRecord { timestamp, level, tag, message };
    proof {
        assert(tv[1] == toks@[1]@);
        assert(tv[4] == toks@[4]@);
        assert(extract_spec(line@) == Some(rec@));
    }
    Some(rec)
}

} // verus!
