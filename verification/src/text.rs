//! Character and string primitives shared by the rest of the library.
//!
//! Strings are modelled by their views, sequences of Unicode scalar values.
use vstd::prelude::*;
use vstd::string::*;

verus! {

// ---------------------------------------------------------------------------
// Character classes
// ---------------------------------------------------------------------------

/// The Unicode `White_Space` property, which `char::is_whitespace` tests.
pub open spec fn is_white(c: char) -> bool {
    let u = c as u32;
    ||| 0x9 <= u <= 0xD
    ||| u == 0x20
    ||| u == 0x85
    ||| u == 0xA0
    ||| u == 0x1680
    ||| 0x2000 <= u <= 0x200A
    ||| u == 0x2028
    ||| u == 0x2029
    ||| u == 0x202F
    ||| u == 0x205F
    ||| u == 0x3000
}

/// The general category `Cc` (control codes), which `char::is_control` tests.
pub open spec fn is_control(c: char) -> bool {
    let u = c as u32;
    u <= 0x1F || (0x7F <= u && u <= 0x9F)
}

/// `'0'` through `'9'`.
pub open spec fn is_ascii_digit(c: char) -> bool {
    '0' <= c && c <= '9'
}

/// Whether `c` is white space, as `char::is_whitespace` decides it.
pub fn white(c: char) -> (r: bool)
    ensures
        r == is_white(c),
{
    let u: u32 = c as u32;
    (0x9 <= u && u <= 0xD) || u == 0x20 || u == 0x85 || u == 0xA0 || u == 0x1680 || (0x2000 <= u
        && u <= 0x200A) || u == 0x2028 || u == 0x2029 || u == 0x202F || u == 0x205F || u == 0x3000
}

/// Whether `c` is a control character, as `char::is_control` decides it.
pub fn control(c: char) -> (r: bool)
    ensures
        r == is_control(c),
{
    let u: u32 = c as u32;
    u <= 0x1F || (0x7F <= u && u <= 0x9F)
}

/// Whether `c` is an ASCII decimal digit.
pub fn ascii_digit(c: char) -> (r: bool)
    ensures
        r == is_ascii_digit(c),
{
    '0' <= c && c <= '9'
}

/// What `char::is_alphanumeric` answers for `c` (the Unicode `Alphabetic`
/// and `Numeric` tables).
pub uninterp spec fn alphanumeric(c: char) -> bool;

/// `char::is_alphanumeric`: true when `c` is alphabetic or numeric in the
/// Unicode tables that std was built with. The answer depends on `c` alone.
#[verifier::external_body]
pub(crate) fn is_alphanumeric(c: char) -> (r: bool)
    ensures
        r == alphanumeric(c),
{
    c.is_alphanumeric()
}

/// What `str::to_lowercase` makes of a string (full Unicode case mapping,
/// including the context-dependent final sigma).
pub uninterp spec fn lowercase(s: Seq<char>) -> Seq<char>;

/// `str::to_lowercase`: the lowercase mapping of `s`, which depends on `s` alone.
#[verifier::external_body]
pub(crate) fn to_lowercase(s: &str) -> (r: String)
    ensures
        r@ == lowercase(s@),
{
    s.to_lowercase()
}

// ---------------------------------------------------------------------------
// Building strings
// ---------------------------------------------------------------------------

/// `String::push`: appends one character.
#[verifier::external_body]
pub(crate) fn push_char(s: &mut String, c: char)
    ensures
        final(s)@ == old(s)@.push(c),
{
    s.push(c);
}

/// The characters of `s`, in order.
pub fn chars_of(s: &str) -> (v: Vec<char>)
    ensures
        v@ == s@,
{
    let mut v: Vec<char> = Vec::new();
    for c in it: s.chars()
        invariant
            v@ == it.seq().take(it.index() as int),
    {
        v.push(c);
    }
    v
}

/// The string made of `v[from..to]`.
pub fn string_of_range(v: &Vec<char>, from: usize, to: usize) -> (s: String)
    requires
        from <= to <= v.len(),
    ensures
        s@ == v@.subrange(from as int, to as int),
{
    let mut s = String::new();
    let mut i: usize = from;
    while i < to
        invariant
            from <= i <= to <= v.len(),
            s@ == v@.subrange(from as int, i as int),
        decreases to - i,
    {
        push_char(&mut s, v[i]);
        assert(v@.subrange(from as int, i + 1) == v@.subrange(from as int, i as int).push(
            v@[i as int],
        ));
        i = i + 1;
    }
    s
}

/// The string made of all of `v`.
pub fn string_of(v: &Vec<char>) -> (s: String)
    ensures
        s@ == v@,
{
    let s = string_of_range(v, 0, v.len());
    assert(v@.subrange(0, v.len() as int) == v@);
    s
}

/// `a` followed by `b`, as a new string.
pub fn concat(a: &str, b: &str) -> (r: String)
    ensures
        r@ == a@ + b@,
{
    let mut r = String::from_str(a);
    r.append(b);
    r
}

/// The decimal digit for `d < 10`.
pub open spec fn digit_char(d: nat) -> char {
    if d == 0 {
        '0'
    } else if d == 1 {
        '1'
    } else if d == 2 {
        '2'
    } else if d == 3 {
        '3'
    } else if d == 4 {
        '4'
    } else if d == 5 {
        '5'
    } else if d == 6 {
        '6'
    } else if d == 7 {
        '7'
    } else if d == 8 {
        '8'
    } else {
        '9'
    }
}

/// The decimal representation of `n`, without leading zeros.
pub open spec fn decimal(n: nat) -> Seq<char>
    decreases n,
{
    if n < 10 {
        seq![digit_char(n)]
    } else {
        decimal(n / 10).push(digit_char(n % 10))
    }
}

fn digit(d: u64) -> (c: char)
    requires
        d < 10,
    ensures
        c == digit_char(d as nat),
{
    if d == 0 {
        '0'
    } else if d == 1 {
        '1'
    } else if d == 2 {
        '2'
    } else if d == 3 {
        '3'
    } else if d == 4 {
        '4'
    } else if d == 5 {
        '5'
    } else if d == 6 {
        '6'
    } else if d == 7 {
        '7'
    } else if d == 8 {
        '8'
    } else {
        '9'
    }
}

/// `n` written in decimal, as `usize::to_string` writes it.
pub fn decimal_string(n: u64) -> (s: String)
    ensures
        s@ == decimal(n as nat),
    decreases n,
{
    if n < 10 {
        let mut s = String::new();
        push_char(&mut s, digit(n));
        assert(s@ == seq![digit_char(n as nat)]);
        s
    } else {
        let mut s = decimal_string(n / 10);
        push_char(&mut s, digit(n % 10));
        s
    }
}

// ---------------------------------------------------------------------------
// Trimming
// ---------------------------------------------------------------------------

/// `s` without its leading white space.
pub open spec fn trim_start(s: Seq<char>) -> Seq<char>
    decreases s.len(),
{
    if s.len() > 0 && is_white(s[0]) {
        trim_start(s.drop_first())
    } else {
        s
    }
}

/// `s` without its trailing white space.
pub open spec fn trim_end(s: Seq<char>) -> Seq<char>
    decreases s.len(),
{
    if s.len() > 0 && is_white(s.last()) {
        trim_end(s.drop_last())
    } else {
        s
    }
}

/// `s` without leading and trailing white space, as `str::trim` gives it.
pub open spec fn trimmed(s: Seq<char>) -> Seq<char> {
    trim_end(trim_start(s))
}

/// The index of the first character of `s` that is not white space
/// (`s.len()` if there is none), and the proof that `trim_start` cuts there.
fn first_non_white(v: &Vec<char>) -> (i: usize)
    ensures
        i <= v.len(),
        trim_start(v@) == v@.subrange(i as int, v.len() as int),
        i < v.len() ==> !is_white(v@[i as int]),
        forall|k: int| 0 <= k < i ==> is_white(#[trigger] v@[k]),
{
    let mut i: usize = 0;
    assert(v@.subrange(0, v.len() as int) == v@);
    while i < v.len() && white(v[i])
        invariant
            i <= v.len(),
            trim_start(v@) == trim_start(v@.subrange(i as int, v.len() as int)),
            forall|k: int| 0 <= k < i ==> is_white(#[trigger] v@[k]),
        decreases v.len() - i,
    {
        assert(v@.subrange(i as int, v.len() as int).drop_first() == v@.subrange(
            i + 1,
            v.len() as int,
        ));
        i = i + 1;
    }
    i
}

/// `s` with leading and trailing white space removed (`str::trim`).
pub fn trim(s: &str) -> (r: String)
    ensures
        r@ == trimmed(s@),
{
    let v = chars_of(s);
    let i = first_non_white(&v);
    let ghost rest = v@.subrange(i as int, v.len() as int);
    let mut j: usize = v.len();
    assert(rest.subrange(0, (j - i) as int) == rest);
    while j > i && white(v[j - 1])
        invariant
            i <= j <= v.len(),
            rest == v@.subrange(i as int, v.len() as int),
            trim_end(rest) == trim_end(v@.subrange(i as int, j as int)),
        decreases j,
    {
        assert(v@.subrange(i as int, j as int).drop_last() == v@.subrange(i as int, j - 1));
        j = j - 1;
    }
    string_of_range(&v, i, j)
}

// ---------------------------------------------------------------------------
// Words
// ---------------------------------------------------------------------------

/// The maximal runs of characters of `s` that are not separators, in order.
pub open spec fn runs(s: Seq<char>, is_sep: spec_fn(char) -> bool) -> Seq<Seq<char>>
    decreases s.len(),
{
    if s.len() == 0 {
        seq![]
    } else {
        let w = runs(s.drop_last(), is_sep);
        let c = s.last();
        if is_sep(c) {
            w
        } else if s.len() >= 2 && !is_sep(s[s.len() - 2]) {
            w.update(w.len() - 1, w.last().push(c))
        } else {
            w.push(seq![c])
        }
    }
}

/// White space as a separator predicate.
pub open spec fn white_sep() -> spec_fn(char) -> bool {
    |c: char| is_white(c)
}

/// The words of `s`: its maximal runs of non-white-space characters
/// (what `str::split_whitespace` yields).
pub open spec fn words(s: Seq<char>) -> Seq<Seq<char>> {
    runs(s, white_sep())
}

/// The elements of `ws` separated by `sep`.
pub open spec fn join(ws: Seq<Seq<char>>, sep: Seq<char>) -> Seq<char>
    decreases ws.len(),
{
    if ws.len() == 0 {
        seq![]
    } else if ws.len() == 1 {
        ws[0]
    } else {
        join(ws.drop_last(), sep) + sep + ws.last()
    }
}

/// The words of `s` joined by single spaces: runs of white space collapse to
/// one space and the ends are trimmed.
pub open spec fn normalized(s: Seq<char>) -> Seq<char> {
    join(words(s), seq![' '])
}

proof fn lemma_runs_nonempty_when_run_ends(s: Seq<char>, is_sep: spec_fn(char) -> bool)
    requires
        s.len() > 0,
        !is_sep(s.last()),
    ensures
        runs(s, is_sep).len() > 0,
    decreases s.len(),
{
    if s.len() >= 2 && !is_sep(s[s.len() - 2]) {
        lemma_runs_nonempty_when_run_ends(s.drop_last(), is_sep);
    }
}

proof fn lemma_join_push(ws: Seq<Seq<char>>, x: Seq<char>, sep: Seq<char>)
    requires
        ws.len() > 0,
    ensures
        join(ws.push(x), sep) == join(ws, sep) + sep + x,
{
    assert(ws.push(x).drop_last() == ws);
}

proof fn lemma_join_extend_last(ws: Seq<Seq<char>>, c: char, sep: Seq<char>)
    requires
        ws.len() > 0,
    ensures
        join(ws.update(ws.len() - 1, ws.last().push(c)), sep) == join(ws, sep).push(c),
{
    let u = ws.update(ws.len() - 1, ws.last().push(c));
    if ws.len() >= 2 {
        assert(u.drop_last() == ws.drop_last());
        assert(join(ws, sep) == join(ws.drop_last(), sep) + sep + ws.last());
        assert(join(u, sep) == join(ws.drop_last(), sep) + sep + ws.last().push(c));
        assert(join(ws.drop_last(), sep) + sep + ws.last().push(c) == (join(ws.drop_last(), sep)
            + sep + ws.last()).push(c));
    }
}

/// The runs of `v` (separators marked in `marks`) joined by `glue`.
pub(crate) fn join_runs(
    v: &Vec<char>,
    marks: &Vec<bool>,
    glue: char,
    Ghost(is_sep): Ghost<spec_fn(char) -> bool>,
) -> (r: String)
    requires
        marks.len() == v.len(),
        forall|i: int| 0 <= i < v.len() ==> marks@[i] == is_sep(#[trigger] v@[i]),
    ensures
        r@ == join(runs(v@, is_sep), seq![glue]),
{
    let mut out = String::new();
    let mut any_run = false;
    let mut i: usize = 0;
    while i < v.len()
        invariant
            i <= v.len(),
            marks.len() == v.len(),
            forall|i: int| 0 <= i < v.len() ==> marks@[i] == is_sep(#[trigger] v@[i]),
            out@ == join(runs(v@.take(i as int), is_sep), seq![glue]),
            any_run == (runs(v@.take(i as int), is_sep).len() > 0),
        decreases v.len() - i,
    {
        let c = v[i];
        let ghost pre = v@.take(i as int);
        let ghost cur = v@.take(i + 1);
        assert(cur.drop_last() == pre);
        assert(cur.last() == c);
        assert(marks@[i as int] == is_sep(v@[i as int]));
        if !marks[i] {
            if i > 0 && !marks[i - 1] {
                assert(marks@[i - 1] == is_sep(v@[i - 1]));
                assert(cur[cur.len() - 2] == v@[i - 1]);
                assert(pre.last() == v@[i - 1]);
                proof {
                    lemma_runs_nonempty_when_run_ends(pre, is_sep);
                    lemma_join_extend_last(runs(pre, is_sep), c, seq![glue]);
                }
                push_char(&mut out, c);
            } else {
                if i > 0 {
                    assert(marks@[i - 1] == is_sep(v@[i - 1]));
                    assert(cur[cur.len() - 2] == v@[i - 1]);
                }
                if any_run {
                    proof {
                        lemma_join_push(runs(pre, is_sep), seq![c], seq![glue]);
                    }
                    push_char(&mut out, glue);
                    push_char(&mut out, c);
                    assert(out@ == join(runs(pre, is_sep), seq![glue]) + seq![glue] + seq![c]);
                } else {
                    push_char(&mut out, c);
                    assert(runs(pre, is_sep).push(seq![c]) == seq![seq![c]]);
                    assert(out@ == seq![c]);
                }
                any_run = true;
            }
        }
        i = i + 1;
    }
    assert(v@.take(v.len() as int) == v@);
    out
}

/// `s` with every run of white space collapsed to one space and no white
/// space at either end (`split_whitespace` joined by `" "`).
pub fn normalize_whitespace(s: &str) -> (r: String)
    ensures
        r@ == normalized(s@),
{
    let v = chars_of(s);
    let mut marks: Vec<bool> = Vec::new();
    let mut i: usize = 0;
    while i < v.len()
        invariant
            i <= v.len(),
            marks.len() == i,
            forall|k: int| 0 <= k < i ==> marks@[k] == white_sep()(#[trigger] v@[k]),
        decreases v.len() - i,
    {
        marks.push(white(v[i]));
        i = i + 1;
    }
    join_runs(&v, &marks, ' ', Ghost(white_sep()))
}

/// `t` neither begins nor ends with a separator and never holds two
/// separators in a row.
pub open spec fn single_separators(t: Seq<char>, is_sep: spec_fn(char) -> bool) -> bool {
    &&& t.len() > 0 ==> !is_sep(t[0]) && !is_sep(t.last())
    &&& forall|i: int| 0 <= i < t.len() - 1 ==> !(is_sep(#[trigger] t[i]) && is_sep(t[i + 1]))
}

/// Every piece of `ws` is non-empty and holds no separator.
pub open spec fn clean_pieces(ws: Seq<Seq<char>>, is_sep: spec_fn(char) -> bool) -> bool {
    forall|k: int|
        0 <= k < ws.len() ==> #[trigger] ws[k].len() > 0 && forall|j: int|
            0 <= j < ws[k].len() ==> !is_sep(#[trigger] ws[k][j])
}

/// The runs of a sequence are non-empty and hold no separator.
pub proof fn lemma_runs_clean(s: Seq<char>, is_sep: spec_fn(char) -> bool)
    ensures
        clean_pieces(runs(s, is_sep), is_sep),
    decreases s.len(),
{
    if s.len() > 0 {
        lemma_runs_clean(s.drop_last(), is_sep);
        let w = runs(s.drop_last(), is_sep);
        let c = s.last();
        if !is_sep(c) && s.len() >= 2 && !is_sep(s[s.len() - 2]) {
            lemma_runs_nonempty_when_run_ends(s.drop_last(), is_sep);
            let u = w.update(w.len() - 1, w.last().push(c));
            assert forall|k: int| 0 <= k < u.len() implies #[trigger] u[k].len() > 0 && forall|j: int|
                0 <= j < u[k].len() ==> !is_sep(#[trigger] u[k][j]) by {
                if k == w.len() - 1 {
                    assert forall|j: int| 0 <= j < u[k].len() implies !is_sep(#[trigger] u[k][j]) by {
                        if j < w.last().len() {
                            assert(u[k][j] == w[k][j]);
                        }
                    }
                } else {
                    assert(u[k] == w[k]);
                }
            }
        } else if !is_sep(c) {
            let u = w.push(seq![c]);
            assert forall|k: int| 0 <= k < u.len() implies #[trigger] u[k].len() > 0 && forall|j: int|
                0 <= j < u[k].len() ==> !is_sep(#[trigger] u[k][j]) by {
                if k < w.len() {
                    assert(u[k] == w[k]);
                }
            }
        }
    }
}

/// Appending a non-empty, separator-free piece after a separator (or at the
/// start) adds exactly that piece as a new run.
proof fn lemma_runs_append_piece(x: Seq<char>, w: Seq<char>, is_sep: spec_fn(char) -> bool)
    requires
        x.len() == 0 || is_sep(x.last()),
        w.len() > 0,
        forall|j: int| 0 <= j < w.len() ==> !is_sep(#[trigger] w[j]),
    ensures
        runs(x + w, is_sep) == runs(x, is_sep).push(w),
    decreases w.len(),
{
    let s = x + w;
    let c = w.last();
    assert(s.last() == c);
    assert(s.drop_last() == x + w.drop_last());
    if w.len() == 1 {
        assert(x + w.drop_last() == x);
        if s.len() >= 2 {
            assert(s[s.len() - 2] == x.last());
        }
        assert(w == seq![c]);
    } else {
        let w0 = w.drop_last();
        assert forall|j: int| 0 <= j < w0.len() implies !is_sep(#[trigger] w0[j]) by {
            assert(w0[j] == w[j]);
        }
        lemma_runs_append_piece(x, w0, is_sep);
        assert(s[s.len() - 2] == w[w.len() - 2]);
        let r = runs(x, is_sep).push(w0);
        assert(w0.push(c) =~= w);
        assert(r.update(r.len() - 1, r.last().push(c)) =~= runs(x, is_sep).push(w));
    }
}

/// Splitting a join of clean pieces at the (separator) glue gives the
/// pieces back.
pub proof fn lemma_runs_of_join(ws: Seq<Seq<char>>, g: char, is_sep: spec_fn(char) -> bool)
    requires
        is_sep(g),
        clean_pieces(ws, is_sep),
    ensures
        runs(join(ws, seq![g]), is_sep) == ws,
    decreases ws.len(),
{
    if ws.len() == 1 {
        assert(ws[0].len() > 0);
        lemma_runs_append_piece(Seq::<char>::empty(), ws[0], is_sep);
        assert(Seq::<char>::empty() + ws[0] == ws[0]);
        assert(Seq::<Seq<char>>::empty().push(ws[0]) == ws);
    } else if ws.len() >= 2 {
        let front = ws.drop_last();
        assert forall|k: int| 0 <= k < front.len() implies #[trigger] front[k].len() > 0 && forall|j: int|
            0 <= j < front[k].len() ==> !is_sep(#[trigger] front[k][j]) by {
            assert(front[k] == ws[k]);
        }
        lemma_runs_of_join(front, g, is_sep);
        let x = join(front, seq![g]) + seq![g];
        assert(x.last() == g);
        assert(x.drop_last() == join(front, seq![g]));
        assert(ws.last() == ws[ws.len() - 1]);
        assert(ws.last().len() > 0);
        lemma_runs_append_piece(x, ws.last(), is_sep);
        assert(join(ws, seq![g]) == x + ws.last());
        assert(front.push(ws.last()) == ws);
    }
}

/// A join of clean pieces with separator glue neither begins nor ends with
/// a separator, and never holds two separators in a row.
pub proof fn lemma_join_shape(ws: Seq<Seq<char>>, g: char, is_sep: spec_fn(char) -> bool)
    requires
        is_sep(g),
        clean_pieces(ws, is_sep),
    ensures
        ws.len() > 0 ==> join(ws, seq![g]).len() > 0,
        single_separators(join(ws, seq![g]), is_sep),
    decreases ws.len(),
{
    let t = join(ws, seq![g]);
    if ws.len() == 1 {
        assert(ws[0].len() > 0);
        assert forall|i: int| 0 <= i < t.len() implies !is_sep(#[trigger] t[i]) by {
            assert(t[i] == ws[0][i]);
        }
    } else if ws.len() >= 2 {
        let front = ws.drop_last();
        assert forall|k: int| 0 <= k < front.len() implies #[trigger] front[k].len() > 0 && forall|j: int|
            0 <= j < front[k].len() ==> !is_sep(#[trigger] front[k][j]) by {
            assert(front[k] == ws[k]);
        }
        lemma_join_shape(front, g, is_sep);
        let a = join(front, seq![g]);
        let w = ws.last();
        assert(w == ws[ws.len() - 1]);
        assert(w.len() > 0);
        assert(t == a + seq![g] + w);
        assert(t[0] == a[0]);
        assert(t.last() == w.last());
        assert(!is_sep(w[w.len() - 1]));
        assert forall|i: int| 0 <= i < t.len() - 1 implies !(is_sep(#[trigger] t[i]) && is_sep(t[i + 1])) by {
            if i < a.len() - 1 {
                assert(t[i] == a[i] && t[i + 1] == a[i + 1]);
            } else if i == a.len() - 1 {
                assert(t[i] == a.last());
            } else if i == a.len() {
                assert(t[i + 1] == w[0]);
            } else {
                assert(t[i] == w[i - a.len() - 1]);
            }
        }
    }
}

/// Every character of every run of `s` satisfies `keep` when every
/// non-separator character of `s` does.
pub proof fn lemma_runs_keep(s: Seq<char>, is_sep: spec_fn(char) -> bool, keep: spec_fn(char) -> bool)
    requires
        forall|i: int| 0 <= i < s.len() && !is_sep(#[trigger] s[i]) ==> keep(s[i]),
    ensures
        forall|k: int, j: int|
            0 <= k < runs(s, is_sep).len() && 0 <= j < runs(s, is_sep)[k].len() ==> keep(
                #[trigger] runs(s, is_sep)[k][j],
            ),
    decreases s.len(),
{
    if s.len() > 0 {
        let p = s.drop_last();
        assert forall|i: int| 0 <= i < p.len() && !is_sep(#[trigger] p[i]) implies keep(p[i]) by {
            assert(p[i] == s[i]);
        }
        lemma_runs_keep(p, is_sep, keep);
        let w = runs(p, is_sep);
        let c = s.last();
        let u = runs(s, is_sep);
        if !is_sep(c) {
            assert(keep(s[s.len() - 1]));
            if s.len() >= 2 && !is_sep(s[s.len() - 2]) {
                assert(p.last() == s[s.len() - 2]);
                lemma_runs_nonempty_when_run_ends(p, is_sep);
                assert(u == w.update(w.len() - 1, w.last().push(c)));
                assert forall|k: int, j: int| 0 <= k < u.len() && 0 <= j < u[k].len() implies keep(
                    #[trigger] u[k][j],
                ) by {
                    if k < w.len() - 1 {
                        assert(u[k] == w[k]);
                    } else {
                        assert(u[k] == w[k].push(c));
                        if j < w[k].len() {
                            assert(u[k][j] == w[k][j]);
                        } else {
                            assert(u[k][j] == c);
                        }
                    }
                }
            } else {
                assert(u == w.push(seq![c]));
                assert forall|k: int, j: int| 0 <= k < u.len() && 0 <= j < u[k].len() implies keep(
                    #[trigger] u[k][j],
                ) by {
                    if k < w.len() {
                        assert(u[k] == w[k]);
                    } else {
                        assert(u[k] == seq![c]);
                    }
                }
            }
        }
    }
}

/// Every character of a join is the glue or a character of a piece that
/// satisfies `keep`, when every character of every piece does.
pub proof fn lemma_join_keep(ws: Seq<Seq<char>>, g: char, keep: spec_fn(char) -> bool)
    requires
        forall|k: int, j: int| 0 <= k < ws.len() && 0 <= j < ws[k].len() ==> keep(#[trigger] ws[k][j]),
    ensures
        forall|i: int|
            0 <= i < join(ws, seq![g]).len() ==> #[trigger] join(ws, seq![g])[i] == g || keep(
                join(ws, seq![g])[i],
            ),
    decreases ws.len(),
{
    let t = join(ws, seq![g]);
    if ws.len() == 1 {
        assert forall|i: int| 0 <= i < t.len() implies #[trigger] t[i] == g || keep(t[i]) by {
            assert(t[i] == ws[0][i]);
        }
    } else if ws.len() >= 2 {
        let front = ws.drop_last();
        assert forall|k: int, j: int| 0 <= k < front.len() && 0 <= j < front[k].len() implies keep(
            #[trigger] front[k][j],
        ) by {
            assert(front[k] == ws[k]);
        }
        lemma_join_keep(front, g, keep);
        let a = join(front, seq![g]);
        let w = ws.last();
        assert(w == ws[ws.len() - 1]);
        assert(t == a + seq![g] + w);
        assert forall|i: int| 0 <= i < t.len() implies #[trigger] t[i] == g || keep(t[i]) by {
            if i < a.len() {
                assert(t[i] == a[i]);
            } else if i > a.len() {
                assert(t[i] == w[i - a.len() - 1]);
            }
        }
    }
}

/// Normalised text has no white space at either end and never two white
/// space characters in a row, and normalising it again changes nothing.
pub proof fn law_normalize_whitespace_is_idempotent(s: Seq<char>)
    ensures
        single_separators(normalized(s), white_sep()),
        normalized(normalized(s)) == normalized(s),
{
    lemma_runs_clean(s, white_sep());
    assert(white_sep()(' '));
    lemma_join_shape(words(s), ' ', white_sep());
    lemma_runs_of_join(words(s), ' ', white_sep());
}

// ---------------------------------------------------------------------------
// Searching
// ---------------------------------------------------------------------------

/// `needle` occurs in `hay` at position `i`.
pub open spec fn occurs_at(hay: Seq<char>, needle: Seq<char>, i: int) -> bool {
    0 <= i && i + needle.len() <= hay.len() && hay.subrange(i, i + needle.len()) == needle
}

/// `needle` occurs somewhere in `hay` (`str::contains`).
pub open spec fn has_infix(hay: Seq<char>, needle: Seq<char>) -> bool {
    exists|i: int| occurs_at(hay, needle, i)
}

/// `prefix` begins `s` (`str::starts_with`).
pub open spec fn has_prefix(s: Seq<char>, prefix: Seq<char>) -> bool {
    prefix.len() <= s.len() && s.take(prefix.len() as int) == prefix
}

/// `suffix` ends `s` (`str::ends_with`).
pub open spec fn has_suffix(s: Seq<char>, suffix: Seq<char>) -> bool {
    suffix.len() <= s.len() && s.skip(s.len() - suffix.len()) == suffix
}

fn matches_at(hay: &Vec<char>, needle: &Vec<char>, i: usize) -> (r: bool)
    requires
        i + needle.len() <= hay.len(),
    ensures
        r == occurs_at(hay@, needle@, i as int),
{
    let mut k: usize = 0;
    while k < needle.len()
        invariant
            i + needle.len() <= hay.len(),
            k <= needle.len(),
            forall|j: int| 0 <= j < k ==> hay@[i + j] == needle@[j],
        decreases needle.len() - k,
    {
        if hay[i + k] != needle[k] {
            assert(hay@.subrange(i as int, i + needle.len())[k as int] != needle@[k as int]);
            return false;
        }
        k = k + 1;
    }
    assert(hay@.subrange(i as int, i + needle.len()) == needle@);
    true
}

/// Whether `needle` occurs in `hay`.
pub fn contains(hay: &str, needle: &str) -> (r: bool)
    ensures
        r == has_infix(hay@, needle@),
{
    let h = chars_of(hay);
    let n = chars_of(needle);
    if n.len() > h.len() {
        return false;
    }
    let last = h.len() - n.len();
    let mut i: usize = 0;
    while i < last
        invariant
            n.len() <= h.len(),
            last == h.len() - n.len(),
            i <= last,
            h@ == hay@,
            n@ == needle@,
            forall|j: int| 0 <= j < i ==> !occurs_at(h@, n@, j),
        decreases last - i,
    {
        if matches_at(&h, &n, i) {
            assert(occurs_at(hay@, needle@, i as int));
            return true;
        }
        i = i + 1;
    }
    if matches_at(&h, &n, last) {
        assert(occurs_at(hay@, needle@, last as int));
        return true;
    }
    assert forall|j: int| !occurs_at(h@, n@, j) by {
        if 0 <= j && j < i {
        }
    }
    false
}

/// Whether `s` begins with `prefix`.
pub fn starts_with(s: &str, prefix: &str) -> (r: bool)
    ensures
        r == has_prefix(s@, prefix@),
{
    let h = chars_of(s);
    let p = chars_of(prefix);
    if p.len() > h.len() {
        return false;
    }
    let r = matches_at(&h, &p, 0);
    assert(h@.subrange(0, p.len() as int) == h@.take(p.len() as int));
    r
}

/// Whether `s` ends with `suffix`.
pub fn ends_with(s: &str, suffix: &str) -> (r: bool)
    ensures
        r == has_suffix(s@, suffix@),
{
    let h = chars_of(s);
    let p = chars_of(suffix);
    if p.len() > h.len() {
        return false;
    }
    let r = matches_at(&h, &p, h.len() - p.len());
    assert(h@.subrange(h.len() - p.len(), h.len() as int) == h@.skip(h.len() - p.len()));
    r
}

/// The first `n` characters of `s` (all of `s` if it is shorter):
/// `s.chars().take(n).collect()`.
pub open spec fn first_chars(s: Seq<char>, n: nat) -> Seq<char> {
    if s.len() <= n {
        s
    } else {
        s.take(n as int)
    }
}

/// The first `n` characters of `s`.
pub fn take_chars(s: &str, n: usize) -> (r: String)
    ensures
        r@ == first_chars(s@, n as nat),
{
    let v = chars_of(s);
    if v.len() <= n {
        string_of(&v)
    } else {
        let r = string_of_range(&v, 0, n);
        assert(v@.subrange(0, n as int) == v@.take(n as int));
        r
    }
}

/// The number of characters of `s` (`s.chars().count()`).
pub fn char_count(s: &str) -> (n: usize)
    ensures
        n == s@.len(),
{
    let v = chars_of(s);
    v.len()
}

/// `s` with every `from` replaced by `to` (`str::replace` for one character).
pub open spec fn replaced(s: Seq<char>, from: char, to: Seq<char>) -> Seq<char>
    decreases s.len(),
{
    if s.len() == 0 {
        seq![]
    } else {
        replaced(s.drop_last(), from, to) + (if s.last() == from {
            to
        } else {
            seq![s.last()]
        })
    }
}

/// `s` with every `from` replaced by `to`.
pub fn replace_char(s: &str, from: char, to: &str) -> (r: String)
    ensures
        r@ == replaced(s@, from, to@),
{
    let v = chars_of(s);
    let mut out = String::new();
    let mut i: usize = 0;
    while i < v.len()
        invariant
            i <= v.len(),
            out@ == replaced(v@.take(i as int), from, to@),
        decreases v.len() - i,
    {
        assert(v@.take(i + 1).drop_last() == v@.take(i as int));
        if v[i] == from {
            out.append(to);
        } else {
            push_char(&mut out, v[i]);
            assert(out@ == replaced(v@.take(i as int), from, to@) + seq![v@[i as int]]);
        }
        i = i + 1;
    }
    assert(v@.take(v.len() as int) == v@);
    out
}

} // verus!
