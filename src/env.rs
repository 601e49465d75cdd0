use vstd::prelude::*;
use vstd::string::StrSliceExecFns;

verus! {

/// Unicode's `White_Space` characters, the ones `char::is_whitespace` and
/// `str::trim` treat as white space.
pub open spec fn is_white_space(c: char) -> bool {
    ('\u{9}' <= c && c <= '\u{d}') || c == ' ' || c == '\u{85}' || c == '\u{a0}' || c == '\u{1680}'
        || ('\u{2000}' <= c && c <= '\u{200a}') || c == '\u{2028}' || c == '\u{2029}' || c == '\u{202f}'
        || c == '\u{205f}' || c == '\u{3000}'
}

fn white_space(c: char) -> (r: bool)
    ensures
        r == is_white_space(c),
{
    ('\u{9}' <= c && c <= '\u{d}') || c == ' ' || c == '\u{85}' || c == '\u{a0}' || c == '\u{1680}'
        || ('\u{2000}' <= c && c <= '\u{200a}') || c == '\u{2028}' || c == '\u{2029}' || c == '\u{202f}'
        || c == '\u{205f}' || c == '\u{3000}'
}

/// `s` without leading white space.
pub open spec fn trim_start(s: Seq<char>) -> Seq<char>
    decreases s.len(),
{
    if s.len() > 0 && is_white_space(s[0]) {
        trim_start(s.subrange(1, s.len() as int))
    } else {
        s
    }
}

/// `s` without trailing white space.
pub open spec fn trim_end(s: Seq<char>) -> Seq<char>
    decreases s.len(),
{
    if s.len() > 0 && is_white_space(s.last()) {
        trim_end(s.drop_last())
    } else {
        s
    }
}

/// `s` without leading and trailing white space.
pub open spec fn trim(s: Seq<char>) -> Seq<char> {
    trim_end(trim_start(s))
}

/// The pieces of `s` between newlines (a text ending in a newline has an
/// empty last piece).
pub open spec fn pieces(s: Seq<char>) -> Seq<Seq<char>>
    decreases s.len(),
{
    if s.len() == 0 {
        seq![Seq::empty()]
    } else if s.last() == '\n' {
        pieces(s.drop_last()).push(Seq::empty())
    } else {
        let p = pieces(s.drop_last());
        p.drop_last().push(p.last().push(s.last()))
    }
}

/// The position of the first `=` in `l`, or -1.
pub open spec fn first_eq(l: Seq<char>) -> int
    decreases l.len(),
{
    if l.len() == 0 {
        -1
    } else if first_eq(l.drop_last()) >= 0 {
        first_eq(l.drop_last())
    } else if l.last() == '=' {
        l.len() - 1
    } else {
        -1
    }
}

/// One line of `env` output: a key and a value split at the first `=`, both
/// trimmed; an empty line or one without `=` gives nothing.
pub open spec fn parse_line(l: Seq<char>) -> Option<(Seq<char>, Seq<char>)> {
    let p = first_eq(l);
    if l.len() == 0 || p < 0 {
        None
    } else {
        Some((trim(l.subrange(0, p)), trim(l.subrange(p + 1, l.len() as int))))
    }
}

/// The pairs of a sequence of lines, in order.
pub open spec fn parse_lines(ls: Seq<Seq<char>>) -> Seq<(Seq<char>, Seq<char>)>
    decreases ls.len(),
{
    if ls.len() == 0 {
        Seq::empty()
    } else {
        match parse_line(ls.last()) {
            Some(kv) => parse_lines(ls.drop_last()).push(kv),
            None => parse_lines(ls.drop_last()),
        }
    }
}

/// The variables of a text in the format of `env` output, one `KEY=value`
/// per line; of two with one key the later counts.
pub struct EnvVars {
    pairs: Vec<(String, String)>,
}

pub open spec fn pair_views(s: Seq<(String, String)>) -> Seq<(Seq<char>, Seq<char>)> {
    s.map_values(|p: (String, String)| (p.0@, p.1@))
}

/// The value of the last pair with key `k`.
pub open spec fn lookup(s: Seq<(Seq<char>, Seq<char>)>, k: Seq<char>) -> Option<Seq<char>>
    decreases s.len(),
{
    if s.len() == 0 {
        None
    } else if s.last().0 == k {
        Some(s.last().1)
    } else {
        lookup(s.drop_last(), k)
    }
}

impl EnvVars {
    pub closed spec fn pairs(&self) -> Seq<(Seq<char>, Seq<char>)> {
        pair_views(self.pairs@)
    }

    /// The value of the variable `key`.
    pub fn get(&self, key: &str) -> (r: Option<&String>)
        ensures
            match lookup(self.pairs(), key@) {
                Some(v) => r is Some && r.unwrap()@ == v,
                None => r is None,
            },
    {
        let mut i: usize = self.pairs.len();
        proof {
            assert(self.pairs@.subrange(0, i as int) =~= self.pairs@);
        }
        while i > 0
            invariant
                i <= self.pairs@.len(),
                lookup(self.pairs(), key@) == lookup(pair_views(self.pairs@.subrange(0, i as int)), key@),
            decreases i,
        {
            let ghost pre = pair_views(self.pairs@.subrange(0, i as int));
            proof {
                assert(pair_views(self.pairs@.subrange(0, i - 1)) =~= pre.drop_last());
            }
            if str_eq(self.pairs[i - 1].0.as_str(), key) {
                return Some(&self.pairs[i - 1].1);
            }
            i = i - 1;
        }
        None
    }

    /// The number of pairs read.
    pub fn len(&self) -> (r: usize)
        ensures
            r == self.pairs().len(),
    {
        self.pairs.len()
    }
}

fn str_eq(a: &str, b: &str) -> (r: bool)
    ensures
        r == (a@ == b@),
{
    let n = a.unicode_len();
    if n != b.unicode_len() {
        return false;
    }
    let mut i: usize = 0;
    while i < n
        invariant
            n == a@.len(),
            n == b@.len(),
            i <= n,
            forall|j: int| 0 <= j < i ==> a@[j] == b@[j],
        decreases n - i,
    {
        if a.get_char(i) != b.get_char(i) {
            return false;
        }
        i = i + 1;
    }
    proof {
        assert(a@ =~= b@);
    }
    true
}

/// The trimmed characters `from..to` of `s`, as a new string.
fn trimmed(s: &str, from: usize, to: usize) -> (r: String)
    requires
        from <= to <= s@.len(),
    ensures
        r@ == trim(s@.subrange(from as int, to as int)),
{
    let ghost whole = s@.subrange(from as int, to as int);
    let mut a: usize = from;
    while a < to && white_space(s.get_char(a))
        invariant
            from <= a <= to <= s@.len(),
            whole == s@.subrange(from as int, to as int),
            trim_start(whole) == trim_start(s@.subrange(a as int, to as int)),
        decreases to - a,
    {
        proof {
            let cur = s@.subrange(a as int, to as int);
            assert(cur.subrange(1, cur.len() as int) =~= s@.subrange(a + 1, to as int));
        }
        a = a + 1;
    }
    let ghost started = s@.subrange(a as int, to as int);
    proof {
        assert(trim_start(started) == started);
    }
    let mut b: usize = to;
    while b > a && white_space(s.get_char(b - 1))
        invariant
            a <= b <= to <= s@.len(),
            trim_end(started) == trim_end(s@.subrange(a as int, b as int)),
        decreases b - a,
    {
        proof {
            assert(s@.subrange(a as int, b as int).drop_last() =~= s@.subrange(a as int, b - 1));
        }
        b = b - 1;
    }
    s.substring_char(a, b).to_owned()
}

/// Reads the variables of a text in the format of `env` output: each line
/// with an `=` gives a variable, named by the trimmed text before the first
/// `=` and valued by the trimmed text after it; other lines are skipped.
pub fn parse_env(env: &str) -> (r: EnvVars)
    ensures
        r.pairs() == parse_lines(pieces(env@)),
{
    let n = env.unicode_len();
    let mut pairs: Vec<(String, String)> = Vec::new();
    let mut start: usize = 0;
    let mut eq: Option<usize> = None;
    let mut i: usize = 0;
    proof {
        assert(env@.subrange(0, 0) =~= Seq::<char>::empty());
        assert(pieces(env@.subrange(0, 0)).last() =~= env@.subrange(0, 0));
    }
    while i < n
        invariant
            n == env@.len(),
            start <= i <= n,
            pieces(env@.subrange(0, i as int)).len() > 0,
            pieces(env@.subrange(0, i as int)).last() == env@.subrange(start as int, i as int),
            pair_views(pairs@) == parse_lines(pieces(env@.subrange(0, i as int)).drop_last()),
            match eq {
                Some(p) => start <= p < i && first_eq(env@.subrange(start as int, i as int)) == p - start,
                None => first_eq(env@.subrange(start as int, i as int)) == -1,
            },
        decreases n - i,
    {
        let c = env.get_char(i);
        let ghost pre = env@.subrange(0, i as int);
        let ghost next = env@.subrange(0, i + 1);
        proof {
            assert(next.drop_last() =~= pre);
            assert(next.last() == c);
        }
        if c == '\n' {
            let ghost line = env@.subrange(start as int, i as int);
            match eq {
                Some(p) => {
                    let key = trimmed(env, start, p);
                    let value = trimmed(env, p + 1, i);
                    let ghost before = pairs@;
                    pairs.push((key, value));
                    proof {
                        assert(line.subrange(0, p - start) =~= env@.subrange(start as int, p as int));
                        assert(line.subrange(p - start + 1, line.len() as int) =~= env@.subrange(p + 1, i as int));
                        assert(pair_views(pairs@) =~= pair_views(before).push((key@, value@)));
                        assert(pieces(next).drop_last() =~= pieces(pre));
                        assert(pieces(pre).drop_last().push(line) =~= pieces(pre));
                    }
                },
                None => {
                    proof {
                        assert(pieces(next).drop_last() =~= pieces(pre));
                        assert(pieces(pre).drop_last().push(line) =~= pieces(pre));
                    }
                },
            }
            start = i + 1;
            eq = None;
            proof {
                assert(env@.subrange(start as int, i + 1) =~= Seq::<char>::empty());
            }
        } else {
            let ghost line = env@.subrange(start as int, i as int);
            proof {
                assert(env@.subrange(start as int, i + 1) =~= line.push(c));
                assert(env@.subrange(start as int, i + 1).drop_last() =~= line);
                assert(pieces(next).drop_last() =~= pieces(pre).drop_last());
            }
            if c == '=' && eq.is_none() {
                eq = Some(i);
            }
        }
        i = i + 1;
    }
    let ghost line = env@.subrange(start as int, n as int);
    proof {
        assert(env@.subrange(0, n as int) =~= env@);
        assert(pieces(env@).drop_last().push(line) =~= pieces(env@));
    }
    match eq {
        Some(p) => {
            let key = trimmed(env, start, p);
            let value = trimmed(env, p + 1, n);
            let ghost before = pairs@;
            pairs.push((key, value));
            proof {
                assert(line.subrange(0, p - start) =~= env@.subrange(start as int, p as int));
                assert(line.subrange(p - start + 1, line.len() as int) =~= env@.subrange(p + 1, n as int));
                assert(pair_views(pairs@) =~= pair_views(before).push((key@, value@)));
            }
        },
        None => {},
    }
    EnvVars { pairs }
}

/// What the tool takes from the user's login shell: its search path.
#[derive(Debug, Clone, PartialEq, Eq)]
pub struct Env {
    pub path: Option<String>,
}

impl Env {
    /// The search path named in the shell's `env` output, if any.
    pub fn from_env_output(output: &str) -> (r: Env)
        ensures
            match lookup(parse_lines(pieces(output@)), "PATH"@) {
                Some(v) => r.path is Some && r.path.unwrap()@ == v,
                None => r.path is None,
            },
    {
        let vars = parse_env(output);
        let path = match vars.get("PATH") {
            Some(p) => Some(p.clone()),
            None => None,
        };
        Env { path }
    }
}

} // verus!
