//! The reference grammar: `$input path | name(arg, ...) | ...`.
use vstd::prelude::*;

verus! {

/// One step of a pipeline: a transform name and its arguments.
pub struct Transform {
    pub name: String,
    pub args: Vec<String>,
}

pub struct TransformModel {
    pub name: Seq<char>,
    pub args: Seq<Seq<char>>,
}

impl View for Transform {
    type V = TransformModel;

    open spec fn view(&self) -> TransformModel {
        TransformModel { name: self.name@, args: self.args@.map_values(|a: String| a@) }
    }
}

/// A parsed reference: the input it names (empty for the context value), the
/// path that follows the name, and the pipeline applied to the result.
pub struct Expr {
    pub input: String,
    pub jpath: String,
    pub transforms: Vec<Transform>,
}

pub struct ExprModel {
    pub input: Seq<char>,
    pub jpath: Seq<char>,
    pub transforms: Seq<TransformModel>,
}

impl View for Expr {
    type V = ExprModel;

    open spec fn view(&self) -> ExprModel {
        ExprModel {
            input: self.input@,
            jpath: self.jpath@,
            transforms: self.transforms@.map_values(|t: Transform| t@),
        }
    }
}

pub open spec fn is_word(c: char) -> bool {
    ('a' <= c <= 'z') || ('A' <= c <= 'Z') || ('0' <= c <= '9') || c == '_'
}

pub open spec fn is_blank(c: char) -> bool {
    c == ' ' || c == '\t'
}

/// End of the run of word characters that starts at `i`, not going past `hi`.
pub open spec fn word_end(s: Seq<char>, i: int, hi: int) -> int
    decreases hi - i,
{
    if 0 <= i < hi && hi <= s.len() && is_word(s[i]) {
        word_end(s, i + 1, hi)
    } else {
        i
    }
}

/// End of the run of blanks that starts at `i`, not going past `hi`.
pub open spec fn blank_end(s: Seq<char>, i: int, hi: int) -> int
    decreases hi - i,
{
    if 0 <= i < hi && hi <= s.len() && is_blank(s[i]) {
        blank_end(s, i + 1, hi)
    } else {
        i
    }
}

/// Start of the run of blanks that ends at `j`, not going below `lo`.
pub open spec fn blank_start(s: Seq<char>, lo: int, j: int) -> int
    decreases j - lo,
{
    if 0 <= lo < j && j <= s.len() && is_blank(s[j - 1]) {
        blank_start(s, lo, j - 1)
    } else {
        j
    }
}

/// The first position at or after `i` holding `c`, or `hi` if none before it.
pub open spec fn find_char(s: Seq<char>, c: char, i: int, hi: int) -> int
    decreases hi - i,
{
    if 0 <= i < hi && hi <= s.len() && s[i] != c {
        find_char(s, c, i + 1, hi)
    } else if 0 <= i < hi {
        i
    } else {
        hi
    }
}

/// `s[lo..hi]` without the blanks at either end.
pub open spec fn trimmed(s: Seq<char>, lo: int, hi: int) -> Seq<char> {
    let a = blank_end(s, lo, hi);
    s.subrange(a, blank_start(s, a, hi))
}

/// The comma-separated pieces of `s[i..hi]`, each without surrounding blanks.
pub open spec fn args_from(s: Seq<char>, i: int, hi: int) -> Seq<Seq<char>>
    decreases hi - i,
{
    let c = find_char(s, ',', i, hi);
    if 0 <= i && i <= c < hi {
        seq![trimmed(s, i, c)] + args_from(s, c + 1, hi)
    } else {
        seq![trimmed(s, i, hi)]
    }
}

/// The arguments written between `(` and `)`: the text `s[lo..hi]`, trimmed,
/// split at each comma, each piece trimmed. Empty text gives one empty argument.
pub open spec fn args_of(s: Seq<char>, lo: int, hi: int) -> Seq<Seq<char>> {
    let a = blank_end(s, lo, hi);
    args_from(s, a, blank_start(s, a, hi))
}

/// The transform that `s[p..hi]` consists of, if it has the shape
/// `blanks | blanks name blanks [( args )] blanks`.
pub open spec fn transform_at(s: Seq<char>, p: int, hi: int) -> Option<TransformModel> {
    let q = blank_end(s, p, hi);
    if !(0 <= p <= q < hi && hi <= s.len() && s[q] == '|') {
        None
    } else {
        let a = blank_end(s, q + 1, hi);
        let b = word_end(s, a, hi);
        let c = blank_end(s, b, hi);
        if b == a {
            None
        } else if c == hi {
            Some(TransformModel { name: s.subrange(a, b), args: seq![] })
        } else if s[c] != '(' {
            None
        } else {
            let k = find_char(s, ')', c + 1, hi);
            if k == hi || blank_end(s, k + 1, hi) != hi {
                None
            } else {
                Some(TransformModel { name: s.subrange(a, b), args: args_of(s, c + 1, k) })
            }
        }
    }
}

/// The leftmost position in `[p, hi)` from which the rest of `s[..hi]` is one transform.
pub open spec fn last_transform(s: Seq<char>, p: int, hi: int) -> Option<(int, TransformModel)>
    decreases hi - p,
{
    if p < hi {
        match transform_at(s, p, hi) {
            Some(t) => Some((p, t)),
            None => last_transform(s, p + 1, hi),
        }
    } else {
        None
    }
}

/// Strip transforms from the right end of `s[lo..hi]` for as long as one is
/// there: where the path ends, and the transforms in the order they apply.
pub open spec fn pipeline(s: Seq<char>, lo: int, hi: int) -> (int, Seq<TransformModel>)
    decreases hi - lo,
{
    match last_transform(s, lo, hi) {
        Some((p, t)) => if lo <= p < hi {
            let (e, ts) = pipeline(s, lo, p);
            (e, ts.push(t))
        } else {
            (hi, seq![])
        },
        None => (hi, seq![]),
    }
}

/// The reference that a template string denotes, if it starts with `$`.
pub open spec fn parse_model(s: Seq<char>) -> Option<ExprModel> {
    if s.len() == 0 || s[0] != '$' {
        None
    } else {
        let e = word_end(s, 1, s.len() as int);
        let (end, ts) = pipeline(s, e, s.len() as int);
        Some(ExprModel { input: s.subrange(1, e), jpath: s.subrange(e, end), transforms: ts })
    }
}

/// The characters of `s`, one per element.
pub fn chars_of(s: &str) -> (r: Vec<char>)
    ensures
        r@ == s@,
{
    let n = s.unicode_len();
    let mut out: Vec<char> = Vec::new();
    let mut i: usize = 0;
    while i < n
        invariant
            n == s@.len(),
            i <= n,
            out@ == s@.subrange(0, i as int),
        decreases n - i,
    {
        out.push(s.get_char(i));
        assert(out@ =~= s@.subrange(0, i + 1));
        i = i + 1;
    }
    assert(out@ =~= s@);
    out
}

fn word_end_at(cs: &Vec<char>, i: usize, hi: usize) -> (r: usize)
    requires
        i <= hi <= cs@.len(),
    ensures
        r == word_end(cs@, i as int, hi as int),
        i <= r <= hi,
    decreases hi - i,
{
    if i < hi && (('a' <= cs[i] && cs[i] <= 'z') || ('A' <= cs[i] && cs[i] <= 'Z') || ('0' <= cs[i]
        && cs[i] <= '9') || cs[i] == '_') {
        word_end_at(cs, i + 1, hi)
    } else {
        i
    }
}

fn blank_end_at(cs: &Vec<char>, i: usize, hi: usize) -> (r: usize)
    requires
        i <= hi <= cs@.len(),
    ensures
        r == blank_end(cs@, i as int, hi as int),
        i <= r <= hi,
    decreases hi - i,
{
    if i < hi && (cs[i] == ' ' || cs[i] == '\t') {
        blank_end_at(cs, i + 1, hi)
    } else {
        i
    }
}

fn blank_start_at(cs: &Vec<char>, lo: usize, j: usize) -> (r: usize)
    requires
        lo <= j <= cs@.len(),
    ensures
        r == blank_start(cs@, lo as int, j as int),
        lo <= r <= j,
    decreases j - lo,
{
    if lo < j && (cs[j - 1] == ' ' || cs[j - 1] == '\t') {
        blank_start_at(cs, lo, j - 1)
    } else {
        j
    }
}

fn find_char_at(cs: &Vec<char>, c: char, i: usize, hi: usize) -> (r: usize)
    requires
        i <= hi <= cs@.len(),
    ensures
        r == find_char(cs@, c, i as int, hi as int),
        i <= r <= hi,
    decreases hi - i,
{
    if i < hi && cs[i] != c {
        find_char_at(cs, c, i + 1, hi)
    } else {
        i
    }
}

/// The text `s[a..b]` as a new string.
fn text_between(s: &str, a: usize, b: usize) -> (r: String)
    requires
        a <= b <= s@.len(),
    ensures
        r@ == s@.subrange(a as int, b as int),
{
    String::from_str(s.substring_char(a, b))
}

fn trimmed_at(s: &str, cs: &Vec<char>, lo: usize, hi: usize) -> (r: String)
    requires
        cs@ == s@,
        lo <= hi <= cs@.len(),
    ensures
        r@ == trimmed(s@, lo as int, hi as int),
{
    let a = blank_end_at(cs, lo, hi);
    let b = blank_start_at(cs, a, hi);
    text_between(s, a, b)
}

fn args_at(s: &str, cs: &Vec<char>, lo: usize, hi: usize) -> (r: Vec<String>)
    requires
        cs@ == s@,
        lo <= hi <= cs@.len(),
    ensures
        r@.map_values(|a: String| a@) == args_of(s@, lo as int, hi as int),
{
    let a = blank_end_at(cs, lo, hi);
    let b = blank_start_at(cs, a, hi);
    let mut out: Vec<String> = Vec::new();
    let mut i = a;
    loop
        invariant
            cs@ == s@,
            a <= i <= b <= cs@.len(),
            args_of(s@, lo as int, hi as int) == out@.map_values(|x: String| x@) + args_from(
                s@,
                i as int,
                b as int,
            ),
        decreases b - i,
    {
        let c = find_char_at(cs, ',', i, b);
        let piece = trimmed_at(s, cs, i, c);
        let ghost before = out@.map_values(|x: String| x@);
        out.push(piece);
        assert(out@.map_values(|x: String| x@) =~= before.push(piece@));
        if c == b {
            assert(args_from(s@, i as int, b as int) == seq![trimmed(s@, i as int, b as int)]);
            assert(before + seq![piece@] =~= before.push(piece@));
            return out;
        }
        assert(args_from(s@, i as int, b as int) == seq![trimmed(s@, i as int, c as int)]
            + args_from(s@, c + 1, b as int));
        assert(before + (seq![piece@] + args_from(s@, c + 1, b as int)) =~= before.push(piece@)
            + args_from(s@, c + 1, b as int));
        i = c + 1;
    }
}

fn transform_at_pos(s: &str, cs: &Vec<char>, p: usize, hi: usize) -> (r: Option<Transform>)
    requires
        cs@ == s@,
        p <= hi <= cs@.len(),
    ensures
        match transform_at(s@, p as int, hi as int) {
            Some(t) => r is Some && r->0@ == t,
            None => r is None,
        },
{
    let q = blank_end_at(cs, p, hi);
    if !(q < hi && cs[q] == '|') {
        return None;
    }
    let a = blank_end_at(cs, q + 1, hi);
    let b = word_end_at(cs, a, hi);
    let c = blank_end_at(cs, b, hi);
    if b == a {
        return None;
    }
    let name = text_between(s, a, b);
    if c == hi {
        let r = Transform { name, args: Vec::new() };
        assert(r@.args =~= seq![]);
        return Some(r);
    }
    if cs[c] != '(' {
        return None;
    }
    let k = find_char_at(cs, ')', c + 1, hi);
    if k == hi || blank_end_at(cs, k + 1, hi) != hi {
        return None;
    }
    let args = args_at(s, cs, c + 1, k);
    Some(Transform { name, args })
}

fn last_transform_from(s: &str, cs: &Vec<char>, p: usize, hi: usize) -> (r: Option<(usize, Transform)>)
    requires
        cs@ == s@,
        p <= hi <= cs@.len(),
    ensures
        match last_transform(s@, p as int, hi as int) {
            Some((q, t)) => match r {
                Some((q2, t2)) => q2 == q && t2@ == t && p <= q < hi,
                None => false,
            },
            None => r is None,
        },
    decreases hi - p,
{
    if p < hi {
        match transform_at_pos(s, cs, p, hi) {
            Some(t) => Some((p, t)),
            None => last_transform_from(s, cs, p + 1, hi),
        }
    } else {
        None
    }
}

/// Parse a template string as a reference. Any string that starts with `$`
/// parses: its input name is the run of word characters after the `$`, its
/// transforms are stripped from the right end, and what lies between is its path.
pub fn parse_expr(text: &str) -> (r: Option<Expr>)
    ensures
        match parse_model(text@) {
            Some(e) => r is Some && r->0@ == e,
            None => r is None,
        },
{
    if text.unicode_len() == 0 || text.get_char(0) != '$' {
        return None;
    }
    let cs = chars_of(text);
    let n = cs.len();
    let e = word_end_at(&cs, 1, n);
    let mut end = n;
    let mut rev: Vec<Transform> = Vec::new();
    loop
        invariant
            cs@ == text@,
            n == cs@.len(),
            e <= end <= n,
            pipeline(text@, e as int, n as int) == (
                pipeline(text@, e as int, end as int).0,
                pipeline(text@, e as int, end as int).1 + rev@.reverse().map_values(|t: Transform| t@),
            ),
        ensures
            pipeline(text@, e as int, end as int) == (end as int, Seq::<TransformModel>::empty()),
        decreases end - e,
    {
        match last_transform_from(text, &cs, e, end) {
            None => {
                break;
            },
            Some((p, t)) => {
                let ghost m = rev@.reverse().map_values(|t: Transform| t@);
                let ghost tm = t@;
                rev.push(t);
                assert(rev@.reverse().map_values(|t: Transform| t@) =~= seq![tm] + m);
                let ghost inner = pipeline(text@, e as int, p as int);
                assert(inner.1.push(tm) + m =~= inner.1 + (seq![tm] + m));
                end = p;
            },
        }
    }
    let mut transforms: Vec<Transform> = Vec::new();
    let ghost full = rev@.reverse();
    while rev.len() > 0
        invariant
            transforms@ + rev@.reverse() == full,
        decreases rev.len(),
    {
        let t = rev.pop().unwrap();
        let ghost before = transforms@;
        transforms.push(t);
        assert(transforms@ + rev@.reverse() =~= before + (rev@.push(t)).reverse());
    }
    assert(transforms@ =~= full);
    assert(pipeline(text@, e as int, n as int).1 =~= transforms@.map_values(|t: Transform| t@));
    Some(Expr { input: text_between(text, 1, e), jpath: text_between(text, e, end), transforms })
}

} // verus!
