//! Removal of comments, blank lines and surrounding whitespace from VM source.
use vstd::prelude::*;

use crate::text::{chars_of, is_whitespace, is_ws, slice_chars, trim, trim_end, trim_start};

verus! {

/// The length of the first line of `s`: the number of characters before the
/// first `'\n'`, or all of them.
pub open spec fn line_len(s: Seq<char>) -> nat
    decreases s.len(),
{
    if s.len() == 0 || s[0] == '\n' {
        0
    } else {
        1 + line_len(s.drop_first())
    }
}

pub proof fn lemma_line_len_bound(s: Seq<char>)
    ensures
        line_len(s) <= s.len(),
    decreases s.len(),
{
    if s.len() > 0 && s[0] != '\n' {
        lemma_line_len_bound(s.drop_first());
    }
}

proof fn lemma_line_len_is(s: Seq<char>, k: int)
    requires
        0 <= k <= s.len(),
        forall|j: int| 0 <= j < k ==> #[trigger] s[j] != '\n',
        k == s.len() || s[k] == '\n',
    ensures
        line_len(s) == k,
    decreases k,
{
    if k > 0 {
        lemma_line_len_is(s.drop_first(), k - 1);
    }
}

/// A line that a `'\n'` ended, without the `'\r'` of a `"\r\n"` ending.
pub open spec fn strip_cr(line: Seq<char>) -> Seq<char> {
    if line.len() > 0 && line.last() == '\r' {
        line.drop_last()
    } else {
        line
    }
}

/// The lines of `s`, as `str::lines` gives them: split at `"\n"` or `"\r\n"`,
/// where a final line ending adds no empty line.
pub open spec fn lines_of(s: Seq<char>) -> Seq<Seq<char>>
    decreases s.len(),
{
    if s.len() == 0 {
        seq![]
    } else if line_len(s) == s.len() {
        seq![s]
    } else {
        proof {
            lemma_line_len_bound(s);
        }
        seq![strip_cr(s.take(line_len(s) as int))] + lines_of(s.skip(line_len(s) as int + 1))
    }
}

/// The number of characters of `s` before its first `"//"`, or all of them.
pub open spec fn code_len(s: Seq<char>) -> nat
    decreases s.len(),
{
    if s.len() < 2 {
        s.len()
    } else if s[0] == '/' && s[1] == '/' {
        0
    } else {
        1 + code_len(s.drop_first())
    }
}

/// A line without its comment and without surrounding whitespace.
pub open spec fn clean_line(line: Seq<char>) -> Seq<char> {
    trim(line.take(code_len(line) as int))
}

/// The cleaned lines that are not empty, in order.
pub open spec fn clean_lines(lines: Seq<Seq<char>>) -> Seq<Seq<char>>
    decreases lines.len(),
{
    if lines.len() == 0 {
        seq![]
    } else {
        let c = clean_line(lines[0]);
        (if c.len() > 0 {
            seq![c]
        } else {
            seq![]
        }) + clean_lines(lines.drop_first())
    }
}

/// The instructions of a program: each line without comment and surrounding
/// whitespace, blank ones left out.
pub open spec fn clean_spec(program: Seq<char>) -> Seq<Seq<char>> {
    clean_lines(lines_of(program))
}

proof fn lemma_code_len_bound(s: Seq<char>)
    ensures
        code_len(s) <= s.len(),
    decreases s.len(),
{
    if s.len() >= 2 && !(s[0] == '/' && s[1] == '/') {
        lemma_code_len_bound(s.drop_first());
    }
}

/// The bounds, within `c[lo..hi]`, of that line cleaned.
fn clean_range(c: &Vec<char>, lo: usize, hi: usize) -> (r: (usize, usize))
    requires
        lo <= hi <= c.len(),
    ensures
        lo <= r.0 <= r.1 <= hi,
        c@.subrange(r.0 as int, r.1 as int) == clean_line(c@.subrange(lo as int, hi as int)),
{
    let ghost line = c@.subrange(lo as int, hi as int);
    // the end of the code: the first "//" or the end of the line
    let mut j: usize = lo;
    while hi - j > 1 && !(c[j] == '/' && c[j + 1] == '/')
        invariant
            lo <= j <= hi,
            hi <= c.len(),
            code_len(line) == (j - lo) + code_len(c@.subrange(j as int, hi as int)),
        decreases hi - j,
    {
        let ghost t = c@.subrange(j as int, hi as int);
        assert(t.drop_first() =~= c@.subrange(j + 1, hi as int));
        j = j + 1;
    }
    let cut: usize = if hi - j > 1 {
        j
    } else {
        hi
    };
    assert(line.take(code_len(line) as int) =~= c@.subrange(lo as int, cut as int));
    // leading whitespace
    let mut a: usize = lo;
    assert(c@.subrange(lo as int, cut as int) =~= c@.subrange(a as int, cut as int));
    while a < cut && is_whitespace(c[a])
        invariant
            lo <= a <= cut,
            cut <= hi <= c.len(),
            trim_start(c@.subrange(lo as int, cut as int)) == trim_start(
                c@.subrange(a as int, cut as int),
            ),
        decreases cut - a,
    {
        assert(c@.subrange(a as int, cut as int).drop_first() =~= c@.subrange(a + 1, cut as int));
        a = a + 1;
    }
    // trailing whitespace
    let mut b: usize = cut;
    assert(c@.subrange(a as int, cut as int) =~= c@.subrange(a as int, b as int));
    while b > a && is_whitespace(c[b - 1])
        invariant
            lo <= a <= b <= cut,
            cut <= hi <= c.len(),
            trim_end(c@.subrange(a as int, cut as int)) == trim_end(
                c@.subrange(a as int, b as int),
            ),
        decreases b - a,
    {
        assert(c@.subrange(a as int, b as int).drop_last() =~= c@.subrange(a as int, b - 1));
        b = b - 1;
    }
    (a, b)
}

/// The instructions of a VM program: its lines, each without its `//` comment
/// and without surrounding whitespace, where blank lines are left out.
pub fn clean_program(program: &str) -> (instructions: Vec<&str>)
    ensures
        instructions@.len() == clean_spec(program@).len(),
        forall|i: int|
            0 <= i < instructions@.len() ==> (#[trigger] instructions@[i])@ == clean_spec(
                program@,
            )[i],
        forall|i: int| 0 <= i < instructions@.len() ==> is_clean((#[trigger] instructions@[i])@),
{
    proof {
        lemma_instructions_are_clean(program@);
    }
    let c = chars_of(program);
    let ascii = program.is_ascii();
    let n = c.len();
    let mut instructions: Vec<&str> = Vec::new();
    let ghost mut done: Seq<Seq<char>> = seq![];
    let mut start: usize = 0;
    let mut i: usize = 0;
    assert(program@.skip(0) =~= program@);
    assert(done + clean_spec(program@) =~= clean_spec(program@));
    while i < n
        invariant
            c@ == program@,
            ascii ==> program.is_ascii(),
            n == c.len(),
            start <= i <= n,
            forall|m: int| start <= m < i ==> #[trigger] program@[m] != '\n',
            instructions@.len() == done.len(),
            forall|k: int| 0 <= k < instructions@.len() ==> (#[trigger] instructions@[k])@ == done[k],
            clean_spec(program@) == done + clean_lines(lines_of(program@.skip(start as int))),
        decreases n - i,
    {
        if c[i] == '\n' {
            let end: usize = if i > start && c[i - 1] == '\r' {
                i - 1
            } else {
                i
            };
            let (a, b) = clean_range(&c, start, end);
            proof {
                let t = program@.skip(start as int);
                let k = i - start;
                assert forall|m: int| 0 <= m < k implies #[trigger] t[m] != '\n' by {
                    assert(t[m] == program@[start + m]);
                }
                assert(t[k] == program@[i as int]);
                lemma_line_len_is(t, k);
                assert(strip_cr(t.take(k)) =~= program@.subrange(start as int, end as int));
                assert(t.skip(k + 1) =~= program@.skip(i + 1));
                let lines = lines_of(t);
                assert(lines[0] == program@.subrange(start as int, end as int));
                assert(lines.drop_first() =~= lines_of(program@.skip(i + 1)));
            }
            if a < b {
                proof {
                    done = done.push(program@.subrange(a as int, b as int));
                }
                instructions.push(slice_chars(program, ascii, a, b));
            }
            proof {
                let t = program@.skip(start as int);
                let cl = clean_line(program@.subrange(start as int, end as int));
                assert(clean_lines(lines_of(t)) == (if cl.len() > 0 {
                    seq![cl]
                } else {
                    seq![]
                }) + clean_lines(lines_of(program@.skip(i + 1))));
                assert(clean_spec(program@) =~= done + clean_lines(lines_of(program@.skip(i + 1))));
            }
            start = i + 1;
        }
        i = i + 1;
    }
    if start < n {
        let (a, b) = clean_range(&c, start, n);
        proof {
            let t = program@.skip(start as int);
            assert forall|m: int| 0 <= m < t.len() implies #[trigger] t[m] != '\n' by {
                assert(t[m] == program@[start + m]);
            }
            lemma_line_len_is(t, t.len() as int);
            assert(t =~= program@.subrange(start as int, n as int));
            assert(lines_of(t) == seq![t]);
            assert(seq![t].drop_first() =~= Seq::<Seq<char>>::empty());
        }
        if a < b {
            proof {
                done = done.push(program@.subrange(a as int, b as int));
            }
            instructions.push(slice_chars(program, ascii, a, b));
        }
        proof {
            let t = program@.skip(start as int);
            let cl = clean_line(t);
            assert(clean_lines(lines_of(t)) == (if cl.len() > 0 {
                seq![cl]
            } else {
                seq![]
            }) + clean_lines(Seq::<Seq<char>>::empty()));
            assert(clean_spec(program@) =~= done);
        }
    } else {
        proof {
            assert(program@.skip(start as int) =~= Seq::<char>::empty());
            assert(clean_spec(program@) =~= done);
        }
    }
    assert forall|i: int| 0 <= i < instructions@.len() implies is_clean(
        (#[trigger] instructions@[i])@,
    ) by {
        assert(instructions@[i]@ == clean_spec(program@)[i]);
    }
    instructions
}

/// Whether `x` holds no `"//"`.
pub open spec fn no_comment(x: Seq<char>) -> bool {
    forall|m: int| 0 <= m && m + 1 < x.len() ==> !(#[trigger] x[m] == '/' && x[m + 1] == '/')
}

/// Whether `x` is a clean instruction: not empty, without whitespace at either
/// end, without a comment and within one line.
pub open spec fn is_clean(x: Seq<char>) -> bool {
    &&& x.len() > 0
    &&& !is_ws(x[0])
    &&& !is_ws(x.last())
    &&& no_comment(x)
    &&& forall|j: int| 0 <= j < x.len() ==> #[trigger] x[j] != '\n'
}

proof fn lemma_trim_start(s: Seq<char>) -> (j: int)
    ensures
        0 <= j <= s.len(),
        trim_start(s) == s.skip(j),
        j < s.len() ==> !is_ws(s[j]),
    decreases s.len(),
{
    if s.len() > 0 && is_ws(s[0]) {
        let j = lemma_trim_start(s.drop_first());
        assert(s.drop_first().skip(j) =~= s.skip(j + 1));
        if j + 1 < s.len() {
            assert(s.drop_first()[j] == s[j + 1]);
        }
        j + 1
    } else {
        assert(s.skip(0) =~= s);
        0
    }
}

proof fn lemma_trim_end(s: Seq<char>) -> (k: int)
    ensures
        0 <= k <= s.len(),
        trim_end(s) == s.take(k),
        k > 0 ==> !is_ws(s[k - 1]),
    decreases s.len(),
{
    if s.len() > 0 && is_ws(s.last()) {
        let k = lemma_trim_end(s.drop_last());
        assert(s.drop_last().take(k) =~= s.take(k));
        k
    } else {
        assert(s.take(s.len() as int) =~= s);
        s.len() as int
    }
}

proof fn lemma_code_len_no_comment(s: Seq<char>)
    ensures
        code_len(s) <= s.len(),
        no_comment(s.take(code_len(s) as int)),
    decreases s.len(),
{
    lemma_code_len_bound(s);
    if s.len() >= 2 && !(s[0] == '/' && s[1] == '/') {
        lemma_code_len_no_comment(s.drop_first());
        let t = s.take(code_len(s) as int);
        let u = s.drop_first().take(code_len(s.drop_first()) as int);
        assert forall|m: int| 0 <= m && m + 1 < t.len() implies !(#[trigger] t[m] == '/' && t[m
            + 1] == '/') by {
            if m > 0 {
                assert(t[m] == u[m - 1]);
                assert(t[m + 1] == u[m]);
            }
        }
    }
}

/// A cleaned line, when not empty, is a clean instruction.
proof fn lemma_clean_line_is_clean(l: Seq<char>)
    requires
        forall|j: int| 0 <= j < l.len() ==> #[trigger] l[j] != '\n',
    ensures
        clean_line(l).len() > 0 ==> is_clean(clean_line(l)),
{
    lemma_code_len_no_comment(l);
    let u = l.take(code_len(l) as int);
    let j = lemma_trim_start(u);
    let v = u.skip(j);
    let k = lemma_trim_end(v);
    let x = v.take(k);
    assert(x =~= u.subrange(j, j + k));
    assert(x == clean_line(l));
    if x.len() > 0 {
        assert(x[0] == u[j]);
        assert(x.last() == v[k - 1]);
        assert forall|m: int| 0 <= m && m + 1 < x.len() implies !(#[trigger] x[m] == '/' && x[m
            + 1] == '/') by {
            assert(x[m] == u[j + m]);
            assert(x[m + 1] == u[j + m + 1]);
        }
        assert forall|m: int| 0 <= m < x.len() implies #[trigger] x[m] != '\n' by {
            assert(x[m] == l[j + m]);
        }
    }
}

proof fn lemma_lines_one_line_each(s: Seq<char>)
    ensures
        forall|i: int, j: int|
            0 <= i < lines_of(s).len() && 0 <= j < lines_of(s)[i].len() ==> #[trigger] lines_of(
                s,
            )[i][j] != '\n',
    decreases s.len(),
{
    if s.len() > 0 && line_len(s) < s.len() {
        lemma_line_len_bound(s);
        let k = line_len(s) as int;
        lemma_lines_one_line_each(s.skip(k + 1));
        lemma_line_len_prefix(s);
        let rest = lines_of(s.skip(k + 1));
        let first = strip_cr(s.take(k));
        assert(lines_of(s) == seq![first] + rest);
        assert forall|i: int, j: int|
            0 <= i < lines_of(s).len() && 0 <= j < lines_of(s)[i].len() implies #[trigger] lines_of(
            s,
        )[i][j] != '\n' by {
            if i == 0 {
                assert(first[j] == s[j]);
            } else {
                assert(lines_of(s)[i] == rest[i - 1]);
            }
        }
    } else if s.len() > 0 {
        lemma_line_len_prefix(s);
    }
}

proof fn lemma_line_len_prefix(s: Seq<char>)
    ensures
        forall|j: int| 0 <= j < line_len(s) ==> #[trigger] s[j] != '\n',
        line_len(s) <= s.len(),
    decreases s.len(),
{
    lemma_line_len_bound(s);
    if s.len() > 0 && s[0] != '\n' {
        lemma_line_len_prefix(s.drop_first());
        assert forall|j: int| 0 <= j < line_len(s) implies #[trigger] s[j] != '\n' by {
            if j > 0 {
                assert(s[j] == s.drop_first()[j - 1]);
            }
        }
    }
}

proof fn lemma_clean_lines_clean(ls: Seq<Seq<char>>)
    requires
        forall|i: int, j: int| 0 <= i < ls.len() && 0 <= j < ls[i].len() ==> #[trigger] ls[i][j] != '\n',
    ensures
        forall|i: int| 0 <= i < clean_lines(ls).len() ==> is_clean(#[trigger] clean_lines(ls)[i]),
    decreases ls.len(),
{
    if ls.len() > 0 {
        let rest = ls.drop_first();
        assert forall|i: int, j: int| 0 <= i < rest.len() && 0 <= j < rest[i].len() implies #[trigger] rest[i][j] != '\n' by {
            assert(rest[i] == ls[i + 1]);
        }
        lemma_clean_lines_clean(rest);
        assert forall|j: int| 0 <= j < ls[0].len() implies #[trigger] ls[0][j] != '\n' by {}
        lemma_clean_line_is_clean(ls[0]);
        let c = clean_line(ls[0]);
        let head: Seq<Seq<char>> = if c.len() > 0 {
            seq![c]
        } else {
            seq![]
        };
        let all = clean_lines(ls);
        assert(all == head + clean_lines(rest));
        assert forall|i: int| 0 <= i < all.len() implies is_clean(#[trigger] all[i]) by {
            if i < head.len() {
                assert(all[i] == c);
            } else {
                assert(all[i] == clean_lines(rest)[i - head.len()]);
            }
        }
    }
}

/// Every instruction of a cleaned program is clean: not empty, without
/// whitespace at either end, without a `//` comment and within one line.
pub proof fn lemma_instructions_are_clean(program: Seq<char>)
    ensures
        forall|i: int| 0 <= i < clean_spec(program).len() ==> is_clean(#[trigger] clean_spec(program)[i]),
{
    lemma_lines_one_line_each(program);
    lemma_clean_lines_clean(lines_of(program));
}

proof fn lemma_no_comment_code_len(x: Seq<char>)
    requires
        no_comment(x),
    ensures
        code_len(x) == x.len(),
    decreases x.len(),
{
    if x.len() >= 2 {
        assert(!(x[0] == '/' && x[1] == '/'));
        let y = x.drop_first();
        assert forall|m: int| 0 <= m && m + 1 < y.len() implies !(#[trigger] y[m] == '/' && y[m + 1]
            == '/') by {
            assert(y[m] == x[m + 1]);
            assert(y[m + 1] == x[m + 2]);
        }
        lemma_no_comment_code_len(y);
    }
}

/// Cleaning a clean instruction leaves it as it is.
pub proof fn lemma_clean_line_fixes_clean(x: Seq<char>)
    requires
        is_clean(x),
    ensures
        clean_line(x) == x,
{
    lemma_no_comment_code_len(x);
    assert(x.take(x.len() as int) =~= x);
}

/// The lines joined by `'\n'`, as `join("\n")` gives them.
pub open spec fn join_lines(xs: Seq<Seq<char>>) -> Seq<char>
    decreases xs.len(),
{
    if xs.len() == 0 {
        seq![]
    } else if xs.len() == 1 {
        xs[0]
    } else {
        xs[0] + seq!['\n'] + join_lines(xs.drop_first())
    }
}

proof fn lemma_lines_of_join(xs: Seq<Seq<char>>)
    requires
        forall|i: int| 0 <= i < xs.len() ==> is_clean(#[trigger] xs[i]),
    ensures
        lines_of(join_lines(xs)) == xs,
    decreases xs.len(),
{
    if xs.len() == 1 {
        let x = xs[0];
        assert(is_clean(x));
        lemma_line_len_is(x, x.len() as int);
        assert(xs =~= seq![x]);
    } else if xs.len() > 1 {
        let x = xs[0];
        assert(is_clean(x));
        let rest = xs.drop_first();
        assert forall|i: int| 0 <= i < rest.len() implies is_clean(#[trigger] rest[i]) by {
            assert(rest[i] == xs[i + 1]);
        }
        lemma_lines_of_join(rest);
        let s = join_lines(xs);
        assert(s == x + seq!['\n'] + join_lines(rest));
        assert forall|j: int| 0 <= j < x.len() implies #[trigger] s[j] != '\n' by {
            assert(s[j] == x[j]);
        }
        assert(s[x.len() as int] == '\n');
        lemma_line_len_is(s, x.len() as int);
        assert(s.take(x.len() as int) =~= x);
        assert(s.skip(x.len() as int + 1) =~= join_lines(rest));
        assert(x.last() != '\r');
        assert(xs =~= seq![x] + rest);
    }
}

proof fn lemma_clean_lines_of_clean(xs: Seq<Seq<char>>)
    requires
        forall|i: int| 0 <= i < xs.len() ==> is_clean(#[trigger] xs[i]),
    ensures
        clean_lines(xs) == xs,
    decreases xs.len(),
{
    if xs.len() > 0 {
        let rest = xs.drop_first();
        assert forall|i: int| 0 <= i < rest.len() implies is_clean(#[trigger] rest[i]) by {
            assert(rest[i] == xs[i + 1]);
        }
        lemma_clean_lines_of_clean(rest);
        assert(is_clean(xs[0]));
        lemma_clean_line_fixes_clean(xs[0]);
        assert(xs =~= seq![xs[0]] + rest);
    }
}

/// Cleaning is idempotent: the instructions of a cleaned program, joined by
/// `'\n'`, clean to the same instructions.
pub proof fn lemma_clean_idempotent(program: Seq<char>)
    ensures
        clean_spec(join_lines(clean_spec(program))) == clean_spec(program),
{
    let xs = clean_spec(program);
    lemma_instructions_are_clean(program);
    lemma_lines_of_join(xs);
    lemma_clean_lines_of_clean(xs);
}

/// Cleaning keeps every clean instruction: a program made of clean
/// instructions, one per line, cleans to exactly those instructions.
pub proof fn law_clean_program_keeps_instructions(xs: Seq<Seq<char>>)
    requires
        forall|i: int| 0 <= i < xs.len() ==> is_clean(#[trigger] xs[i]),
    ensures
        clean_spec(join_lines(xs)) == xs,
{
    lemma_lines_of_join(xs);
    lemma_clean_lines_of_clean(xs);
}

} // verus!
