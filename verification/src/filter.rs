use vstd::prelude::*;
use vstd::string::*;
use crate::text::tokens_of;

verus! {

/// `regex::Regex`, declared so compiled patterns can live in fields here.
#[verifier::external_type_specification]
#[verifier::external_body]
pub struct ExRegex(regex::Regex);

/// `regex::Error`, declared so the compile wrapper can return it.
#[verifier::external_type_specification]
#[verifier::external_body]
pub struct ExRegexError(regex::Error);

/// Whether `regex::Regex::new` accepts `pat`: a fixed function of the
/// pattern text alone.
pub uninterp spec fn regex_compiles(pat: Seq<char>) -> bool;

/// Whether the regular expression written `pat` matches somewhere in
/// `text`: a fixed function of the two strings alone.
pub uninterp spec fn regex_accepts(pat: Seq<char>, text: Seq<char>) -> bool;

/// The error a process-filter pattern can raise: it does not form a valid
/// regular expression.
#[derive(Clone, Copy, PartialEq, Eq, Structural, Debug)]
pub enum PatternError {
    InvalidPattern,
}

/// The regular-expression text a glob-like package pattern translates to:
/// `.` becomes literal, `*` becomes a wildcard, all else stands as is.
pub open spec fn glob_pattern_regex(p: Seq<char>) -> Seq<char>
    decreases p.len(),
{
    if p.len() == 0 {
        Seq::empty()
    } else if p[0] == '.' {
        seq!['\\', '.'] + glob_pattern_regex(p.drop_first())
    } else if p[0] == '*' {
        seq!['.', '*'] + glob_pattern_regex(p.drop_first())
    } else {
        seq![p[0]] + glob_pattern_regex(p.drop_first())
    }
}

fn glob_to_regex_at(s: &str, i: usize) -> (r: String)
    requires
        i <= s@.len(),
    ensures
        r@ == glob_pattern_regex(s@.skip(i as int)),
    decreases s@.len() - i,
{
    let n = s.unicode_len();
    if i == n {
        let r = String::new();
        proof {
            assert(s@.skip(i as int) =~= Seq::<char>::empty());
        }
        r
    } else {
        let c = s.get_char(i);
        let mut r = if c == '.' {
            proof {
                reveal_strlit("\\.");
            }
            let h = String::from_str("\\.");
            proof {
                assert(h@ =~= seq!['\\', '.']);
            }
            h
        } else if c == '*' {
            proof {
                reveal_strlit(".*");
            }
            let h = String::from_str(".*");
            proof {
                assert(h@ =~= seq!['.', '*']);
            }
            h
        } else {
            let h = String::from_str(s.substring_char(i, i + 1));
            proof {
                assert(h@ =~= seq![s@[i as int]]);
            }
            h
        };
        let rest = glob_to_regex_at(s, i + 1);
        r.append(rest.as_str());
        proof {
            assert(s@.skip(i as int).drop_first() =~= s@.skip(i as int + 1));
            assert(s@.skip(i as int)[0] == s@[i as int]);
        }
        r
    }
}

/// Translate a glob-like package pattern into regular-expression text.
pub fn glob_to_regex(pattern: &str) -> (r: String)
    ensures
        r@ == glob_pattern_regex(pattern@),
{
    let r = glob_to_regex_at(pattern, 0);
    proof {
        assert(pattern@.skip(0) =~= pattern@);
    }
    r
}

/// A compiled process-filter: a regular expression together with the text
/// it was compiled from.
pub struct LogFilter {
    regex: regex::Regex,
    pattern: String,
}

impl LogFilter {
    /// The pattern text this filter was compiled from.
    pub closed spec fn pat(&self) -> Seq<char> {
        self.pattern@
    }

    /// Relies on `regex::Regex::new`: compilation succeeds or fails on the
    /// pattern text alone, and the compiled regex matches as that text
    /// prescribes.
    #[verifier::external_body]
    fn compile(pattern: &str) -> (r: Result<LogFilter, regex::Error>)
        ensures
            r is Ok <==> regex_compiles(pattern@),
            r matches Ok(f) ==> f.pat() == pattern@,
    {
        match regex::Regex::new(pattern) {
            Ok(re) => Ok(LogFilter { regex: re, pattern: pattern.to_string() }),
            Err(e) => Err(e),
        }
    }

    /// Compile a filter from regular-expression text; an unparseable
    /// pattern yields `InvalidPattern`.
    pub fn new(pattern: &str) -> (r: Result<LogFilter, PatternError>)
        ensures
            r is Ok <==> regex_compiles(pattern@),
            r matches Ok(f) ==> f.pat() == pattern@,
    {
        match Self::compile(pattern) {
            Ok(f) => Ok(f),
            Err(_) => Err(PatternError::InvalidPattern),
        }
    }

    /// Relies on `regex::Regex::is_match`: whether the expression this
    /// filter was compiled from (held beside the regex by `compile`)
    /// matches somewhere in `line`.
    #[verifier::external_body]
    pub(crate) fn is_match(&self, line: &str) -> (r: bool)
        ensures
            r == regex_accepts(self.pat(), line@),
    {
        self.regex.is_match(line)
    }
}

/// The process id field of one process-listing line: its second
/// whitespace-separated token.
pub open spec fn pid_of_line(l: Seq<char>) -> Option<Seq<char>> {
    let ts = tokens_of(l);
    if ts.len() >= 2 {
        Some(ts[1])
    } else {
        None
    }
}

/// The process ids of the listing lines the filter matches, in order: for
/// each matching line with a pid field, that field.
pub open spec fn matching_pids_spec(pat: Seq<char>, ls: Seq<Seq<char>>) -> Seq<Seq<char>>
    decreases ls.len(),
{
    if ls.len() == 0 {
        Seq::empty()
    } else {
        let rest = matching_pids_spec(pat, ls.drop_first());
        if regex_accepts(pat, ls[0]) {
            match pid_of_line(ls[0]) {
                Some(pid) => seq![pid] + rest,
                None => rest,
            }
        } else {
            rest
        }
    }
}

fn matching_pids_at(filter: &LogFilter, lines: &Vec<String>, idx: usize) -> (r: Vec<String>)
    requires
        idx <= lines@.len(),
    ensures
        r@.map_values(|t: String| t@) == matching_pids_spec(
            filter.pat(),
            lines@.map_values(|t: String| t@).skip(idx as int),
        ),
    decreases lines@.len() - idx,
{
    let ghost lv = lines@.map_values(|t: String| t@);
    if idx == lines.len() {
        let r: Vec<String> = Vec::new();
        proof {
            assert(lv.skip(idx as int) =~= Seq::<Seq<char>>::empty());
            assert(r@.map_values(|t: String| t@) =~= matching_pids_spec(
                filter.pat(),
                lv.skip(idx as int),
            ));
        }
        r
    } else {
        let line = &lines[idx];
        let mut cur: Vec<String> = Vec::new();
        if filter.is_match(line.as_str()) {
            let toks = crate::text::tokenize(line.as_str());
            if toks.len() >= 2 {
                cur.push(toks[1].clone());
            }
        }
        let mut rest = matching_pids_at(filter, lines, idx + 1);
        let ghost cur_view = cur@.map_values(|t: String| t@);
        let ghost rest_view = rest@.map_values(|t: String| t@);
        cur.append(&mut rest);
        proof {
            assert(lv[idx as int] == lines@[idx as int]@);
            assert(lv.skip(idx as int).drop_first() =~= lv.skip(idx as int + 1));
            assert(lv.skip(idx as int)[0] == lv[idx as int]);
            if regex_accepts(filter.pat(), lv[idx as int]) {
                match pid_of_line(lv[idx as int]) {
                    Some(pid) => {
                        assert(cur_view =~= seq![pid]);
                    },
                    None => {
                        assert(cur_view =~= Seq::<Seq<char>>::empty());
                    },
                }
            } else {
                assert(cur_view =~= Seq::<Seq<char>>::empty());
            }
            assert(cur@.map_values(|t: String| t@) =~= cur_view + rest_view);
            assert(cur@.map_values(|t: String| t@) =~= matching_pids_spec(
                filter.pat(),
                lv.skip(idx as int),
            ));
        }
        cur
    }
}

/// The process ids of the listing lines that `filter` matches: for each
/// matching line, its second whitespace-separated token, in input order.
pub fn matching_pids(filter: &LogFilter, lines: &Vec<String>) -> (r: Vec<String>)
    ensures
        r@.map_values(|t: String| t@) == matching_pids_spec(
            filter.pat(),
            lines@.map_values(|t: String| t@),
        ),
{
    let r = matching_pids_at(filter, lines, 0);
    proof {
        assert(lines@.map_values(|t: String| t@).skip(0) =~= lines@.map_values(|t: String| t@));
    }
    r
}

} // verus!
