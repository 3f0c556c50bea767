use vstd::prelude::*;
use vstd::string::*;

verus! {

/// The whitespace characters that separate fields of a log line.
pub open spec fn is_space(c: char) -> bool {
    c == ' ' || c == '\t' || c == '\r' || c == '\n'
}

/// Executable mirror of `is_space`.
pub fn is_space_char(c: char) -> (r: bool)
    ensures
        r == is_space(c),
{
    c == ' ' || c == '\t' || c == '\r' || c == '\n'
}

/// The run of non-whitespace characters at the front of `s`.
pub open spec fn leading_token(s: Seq<char>) -> Seq<char>
    decreases s.len(),
{
    if s.len() == 0 || is_space(s[0]) {
        Seq::empty()
    } else {
        seq![s[0]] + leading_token(s.drop_first())
    }
}

/// The whitespace-separated tokens of `s`, in order.
pub open spec fn tokens_of(s: Seq<char>) -> Seq<Seq<char>>
    decreases s.len(),
    via tokens_of_decreases
{
    if s.len() == 0 {
        Seq::empty()
    } else if is_space(s[0]) {
        tokens_of(s.drop_first())
    } else {
        seq![leading_token(s)] + tokens_of(s.skip(leading_token(s).len() as int))
    }
}

#[via_fn]
proof fn tokens_of_decreases(s: Seq<char>) {
    if s.len() > 0 && !is_space(s[0]) {
        assert(leading_token(s) == seq![s[0]] + leading_token(s.drop_first()));
        lemma_leading_token_len(s);
    }
}

pub proof fn lemma_leading_token_len(s: Seq<char>)
    ensures
        leading_token(s).len() <= s.len(),
    decreases s.len(),
{
    if s.len() > 0 && !is_space(s[0]) {
        lemma_leading_token_len(s.drop_first());
    }
}

/// The tokens joined back together with single spaces.
pub open spec fn join_tokens(ts: Seq<Seq<char>>) -> Seq<char>
    decreases ts.len(),
{
    if ts.len() == 0 {
        Seq::empty()
    } else if ts.len() == 1 {
        ts[0]
    } else {
        ts[0] + seq![' '] + join_tokens(ts.drop_first())
    }
}

/// Index of the first occurrence of the tag/message separator `": "`.
pub open spec fn find_sep(s: Seq<char>) -> Option<int>
    decreases s.len(),
{
    if s.len() < 2 {
        None
    } else if s[0] == ':' && s[1] == ' ' {
        Some(0int)
    } else {
        match find_sep(s.drop_first()) {
            Some(i) => Some(i + 1),
            None => None,
        }
    }
}

/// Index of the first `'.'` in `s`.
pub open spec fn find_dot(s: Seq<char>) -> Option<int>
    decreases s.len(),
{
    if s.len() == 0 {
        None
    } else if s[0] == '.' {
        Some(0int)
    } else {
        match find_dot(s.drop_first()) {
            Some(i) => Some(i + 1),
            None => None,
        }
    }
}

/// `s` with leading whitespace removed.
pub open spec fn trim_start(s: Seq<char>) -> Seq<char>
    decreases s.len(),
{
    if s.len() > 0 && is_space(s[0]) {
        trim_start(s.drop_first())
    } else {
        s
    }
}

/// `s` with trailing whitespace removed.
pub open spec fn trim_end(s: Seq<char>) -> Seq<char>
    decreases s.len(),
{
    if s.len() > 0 && is_space(s.last()) {
        trim_end(s.drop_last())
    } else {
        s
    }
}

/// `s` with whitespace removed from both ends.
pub open spec fn trim(s: Seq<char>) -> Seq<char> {
    trim_end(trim_start(s))
}

/// `s` with every leading repetition of `": "` removed.
pub open spec fn strip_seps(s: Seq<char>) -> Seq<char>
    decreases s.len(),
{
    if s.len() >= 2 && s[0] == ':' && s[1] == ' ' {
        strip_seps(s.skip(2))
    } else {
        s
    }
}

/// `n` copies of the character `c`.
pub open spec fn repeated(c: char, n: int) -> Seq<char> {
    Seq::new(n as nat, |i: int| c)
}

/// `s` followed by enough spaces to reach width `w`; `s` itself if it is
/// already at least that wide.
pub open spec fn pad_right(s: Seq<char>, w: int) -> Seq<char> {
    if s.len() < w {
        s + repeated(' ', w - s.len())
    } else {
        s
    }
}

/// `s` with every whitespace character removed.
pub open spec fn strip_ws(s: Seq<char>) -> Seq<char>
    decreases s.len(),
{
    if s.len() == 0 {
        Seq::empty()
    } else if is_space(s[0]) {
        strip_ws(s.drop_first())
    } else {
        seq![s[0]] + strip_ws(s.drop_first())
    }
}

/// A string made of `n` copies of the single character of `unit`.
pub fn repeat_char(unit: &str, n: usize) -> (r: String)
    requires
        unit@.len() == 1,
    ensures
        r@ == repeated(unit@[0], n as int),
{
    let mut r = String::new();
    let mut i: usize = 0;
    while i < n
        invariant
            i <= n,
            unit@.len() == 1,
            r@ == repeated(unit@[0], i as int),
        decreases n - i,
    {
        r.append(unit);
        i = i + 1;
        proof {
            assert(r@ =~= repeated(unit@[0], i as int));
        }
    }
    r
}

/// First index at or after `i` holding a whitespace character (or the end).
fn token_end(s: &str, i: usize) -> (j: usize)
    requires
        i <= s@.len(),
    ensures
        i <= j <= s@.len(),
        forall|k: int| i <= k < j ==> !is_space(s@[k]),
        j < s@.len() ==> is_space(s@[j as int]),
{
    let n = s.unicode_len();
    let mut j: usize = i;
    while j < n
        invariant
            i <= j <= n,
            n == s@.len(),
            forall|k: int| i <= k < j ==> !is_space(s@[k]),
        decreases n - j,
    {
        if is_space_char(s.get_char(j)) {
            return j;
        }
        j = j + 1;
    }
    j
}

proof fn lemma_leading_token_range(s: Seq<char>, i: int, j: int)
    requires
        0 <= i <= j <= s.len(),
        forall|k: int| i <= k < j ==> !is_space(s[k]),
        j == s.len() || is_space(s[j]),
    ensures
        leading_token(s.skip(i)) =~= s.subrange(i, j),
    decreases j - i,
{
    if i == j {
        assert(s.skip(i).len() == 0 || is_space(s.skip(i)[0]));
    } else {
        lemma_leading_token_range(s, i + 1, j);
        assert(s.skip(i).drop_first() =~= s.skip(i + 1));
        assert(leading_token(s.skip(i)) =~= seq![s[i]] + leading_token(s.skip(i + 1)));
        assert(seq![s[i]] + s.subrange(i + 1, j) =~= s.subrange(i, j));
    }
}

fn tokenize_at(s: &str, i: usize) -> (r: Vec<String>)
    requires
        i <= s@.len(),
    ensures
        r@.map_values(|t: String| t@) == tokens_of(s@.skip(i as int)),
    decreases s@.len() - i,
{
    let n = s.unicode_len();
    if i == n {
        let r: Vec<String> = Vec::new();
        proof {
            assert(s@.skip(i as int) =~= Seq::<char>::empty());
            assert(r@.map_values(|t: String| t@) =~= Seq::<Seq<char>>::empty());
        }
        r
    } else if is_space_char(s.get_char(i)) {
        proof {
            assert(s@.skip(i as int).drop_first() =~= s@.skip(i as int + 1));
        }
        tokenize_at(s, i + 1)
    } else {
        let j = token_end(s, i);
        proof {
            if j == i {
                assert(is_space(s@[i as int]));
            }
        }
        let tok = String::from_str(s.substring_char(i, j));
        let mut rest = tokenize_at(s, j);
        let ghost rest_view = rest@.map_values(|t: String| t@);
        let mut r: Vec<String> = Vec::new();
        r.push(tok);
        r.append(&mut rest);
        proof {
            lemma_leading_token_range(s@, i as int, j as int);
            assert(s@.skip(i as int).skip(j - i) =~= s@.skip(j as int));
            assert(r@.map_values(|t: String| t@) =~= seq![s@.subrange(i as int, j as int)]
                + rest_view);
            assert(r@.map_values(|t: String| t@) =~= tokens_of(s@.skip(i as int)));
        }
        r
    }
}

/// The whitespace-separated tokens of `s`, as owned strings.
pub fn tokenize(s: &str) -> (r: Vec<String>)
    ensures
        r@.map_values(|t: String| t@) == tokens_of(s@),
{
    let r = tokenize_at(s, 0);
    proof {
        assert(s@.skip(0) =~= s@);
    }
    r
}

/// The tokens of `toks` from index `from` on, joined with single spaces.
pub fn join_from(toks: &Vec<String>, from: usize) -> (r: String)
    requires
        from <= toks@.len(),
    ensures
        r@ == join_tokens(toks@.map_values(|t: String| t@).skip(from as int)),
    decreases toks@.len() - from,
{
    let ghost tv = toks@.map_values(|t: String| t@);
    if from == toks.len() {
        let r = String::new();
        proof {
            assert(tv.skip(from as int) =~= Seq::<Seq<char>>::empty());
        }
        r
    } else if from + 1 == toks.len() {
        let r = toks[from].clone();
        proof {
            assert(tv.skip(from as int) =~= seq![tv[from as int]]);
        }
        r
    } else {
        let mut r = toks[from].clone();
        r.append(" ");
        let rest = join_from(toks, from + 1);
        r.append(rest.as_str());
        proof {
            reveal_strlit(" ");
            assert(" "@ =~= seq![' ']);
            assert(tv.skip(from as int).drop_first() =~= tv.skip(from as int + 1));
            assert(tv.skip(from as int)[0] == tv[from as int]);
            assert(tv.skip(from as int).len() >= 2);
        }
        r
    }
}

fn find_sep_at(s: &str, i: usize) -> (r: Option<usize>)
    requires
        i <= s@.len(),
    ensures
        match r {
            Some(j) => i <= j && j < s@.len() && find_sep(s@.skip(i as int)) == Some(
                j as int - i as int,
            ),
            None => find_sep(s@.skip(i as int)) is None,
        },
    decreases s@.len() - i,
{
    let n = s.unicode_len();
    if n - i < 2 {
        None
    } else if s.get_char(i) == ':' && s.get_char(i + 1) == ' ' {
        Some(i)
    } else {
        proof {
            assert(s@.skip(i as int).drop_first() =~= s@.skip(i as int + 1));
        }
        find_sep_at(s, i + 1)
    }
}

/// Index of the first occurrence of `": "` in `s`, if any.
pub fn find_sep_str(s: &str) -> (r: Option<usize>)
    ensures
        match r {
            Some(j) => j < s@.len() && find_sep(s@) == Some(j as int),
            None => find_sep(s@) is None,
        },
{
    let r = find_sep_at(s, 0);
    proof {
        assert(s@.skip(0) =~= s@);
    }
    r
}

fn find_dot_at(s: &str, i: usize) -> (r: Option<usize>)
    requires
        i <= s@.len(),
    ensures
        match r {
            Some(j) => i <= j && j < s@.len() && find_dot(s@.skip(i as int)) == Some(
                j as int - i as int,
            ),
            None => find_dot(s@.skip(i as int)) is None,
        },
    decreases s@.len() - i,
{
    let n = s.unicode_len();
    if i == n {
        None
    } else if s.get_char(i) == '.' {
        Some(i)
    } else {
        proof {
            assert(s@.skip(i as int).drop_first() =~= s@.skip(i as int + 1));
        }
        find_dot_at(s, i + 1)
    }
}

/// Index of the first `'.'` in `s`, if any.
pub fn find_dot_str(s: &str) -> (r: Option<usize>)
    ensures
        match r {
            Some(j) => j < s@.len() && find_dot(s@) == Some(j as int),
            None => find_dot(s@) is None,
        },
{
    let r = find_dot_at(s, 0);
    proof {
        assert(s@.skip(0) =~= s@);
    }
    r
}

/// First index at or after `i` holding a non-whitespace character; the
/// remainder of the string from there is its whitespace-trimmed front.
pub fn first_nonspace(s: &str, i: usize) -> (j: usize)
    requires
        i <= s@.len(),
    ensures
        i <= j <= s@.len(),
        trim_start(s@.skip(i as int)) =~= s@.skip(j as int),
        j < s@.len() ==> !is_space(s@[j as int]),
    decreases s@.len() - i,
{
    let n = s.unicode_len();
    if i == n {
        proof {
            assert(s@.skip(i as int).len() == 0);
        }
        i
    } else if is_space_char(s.get_char(i)) {
        proof {
            assert(s@.skip(i as int).drop_first() =~= s@.skip(i as int + 1));
        }
        first_nonspace(s, i + 1)
    } else {
        i
    }
}

fn trim_end_at(s: &str, a: usize, e: usize) -> (b: usize)
    requires
        a <= e <= s@.len(),
    ensures
        a <= b <= e,
        trim_end(s@.subrange(a as int, e as int)) =~= s@.subrange(a as int, b as int),
    decreases e,
{
    if e == a {
        a
    } else if is_space_char(s.get_char(e - 1)) {
        proof {
            assert(s@.subrange(a as int, e as int).drop_last() =~= s@.subrange(
                a as int,
                e as int - 1,
            ));
            assert(s@.subrange(a as int, e as int).last() == s@[e as int - 1]);
        }
        trim_end_at(s, a, e - 1)
    } else {
        proof {
            assert(s@.subrange(a as int, e as int).last() == s@[e as int - 1]);
        }
        e
    }
}

/// `s` with whitespace removed from both ends.
pub fn trim_str(s: &str) -> (r: String)
    ensures
        r@ == trim(s@),
{
    let n = s.unicode_len();
    let a = first_nonspace(s, 0);
    let b = trim_end_at(s, a, n);
    let r = String::from_str(s.substring_char(a, b));
    proof {
        assert(s@.skip(0) =~= s@);
        assert(s@.skip(a as int) =~= s@.subrange(a as int, n as int));
    }
    r
}

/// Index just past every leading repetition of `": "` in `s`.
pub fn strip_seps_start(s: &str, i: usize) -> (j: usize)
    requires
        i <= s@.len(),
    ensures
        i <= j <= s@.len(),
        strip_seps(s@.skip(i as int)) =~= s@.skip(j as int),
    decreases s@.len() - i,
{
    let n = s.unicode_len();
    if n - i >= 2 && s.get_char(i) == ':' && s.get_char(i + 1) == ' ' {
        proof {
            assert(s@.skip(i as int).skip(2) =~= s@.skip(i as int + 2));
        }
        strip_seps_start(s, i + 2)
    } else {
        i
    }
}

/// `s` right-padded with spaces to width `w`.
pub fn pad_right_str(s: &str, w: usize) -> (r: String)
    ensures
        r@ == pad_right(s@, w as int),
{
    let n = s.unicode_len();
    let mut r = String::from_str(s);
    if n < w {
        proof {
            reveal_strlit(" ");
        }
        let pad = repeat_char(" ", w - n);
        r.append(pad.as_str());
    }
    r
}

} // verus!
