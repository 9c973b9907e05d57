//! Text utilities used by the code generator: replacing, splitting into
//! lines, joining, searching and filling `{name}` templates.
//!
//! Every function here is specified over `Seq<char>`, the view of `str` and
//! `String`.
use vstd::prelude::*;
use vstd::string::*;

verus! {


// ---------------------------------------------------------------------------
// Specifications
// ---------------------------------------------------------------------------

/// `s` with every non-overlapping occurrence of `from`, scanned from the
/// left, replaced by `to` (the behaviour of `str::replace` for a non-empty
/// pattern).
pub open spec fn replace_all(s: Seq<char>, from: Seq<char>, to: Seq<char>) -> Seq<char>
    decreases s.len(),
{
    if from.len() == 0 || s.len() < from.len() {
        s
    } else if s.take(from.len() as int) == from {
        to + replace_all(s.skip(from.len() as int), from, to)
    } else {
        seq![s[0]] + replace_all(s.skip(1), from, to)
    }
}

/// A line without its trailing carriage return, if it has one.
pub open spec fn strip_cr(line: Seq<char>) -> Seq<char> {
    if line.len() > 0 && line.last() == '\r' {
        line.drop_last()
    } else {
        line
    }
}

/// The lines of `cur + rest`, where `cur` is the part of the current line
/// that was already read: lines end at `\n`, a `\r` before the `\n` is not
/// part of the line, and a last line that is empty is not a line.
pub open spec fn lines_from(cur: Seq<char>, rest: Seq<char>) -> Seq<Seq<char>>
    decreases rest.len(),
{
    if rest.len() == 0 {
        if cur.len() == 0 {
            seq![]
        } else {
            seq![cur]
        }
    } else if rest[0] == '\n' {
        seq![strip_cr(cur)] + lines_from(seq![], rest.skip(1))
    } else {
        lines_from(cur.push(rest[0]), rest.skip(1))
    }
}

/// The lines of `s`, as `str::lines` yields them.
pub open spec fn lines_of(s: Seq<char>) -> Seq<Seq<char>> {
    lines_from(seq![], s)
}

/// The parts, in order, with `sep` between each two neighbours.
pub open spec fn join(parts: Seq<Seq<char>>, sep: Seq<char>) -> Seq<char>
    decreases parts.len(),
{
    if parts.len() == 0 {
        seq![]
    } else if parts.len() == 1 {
        parts[0]
    } else {
        join(parts.drop_last(), sep) + sep + parts.last()
    }
}

/// Whether `pat` occurs in `s`.
pub open spec fn contains(s: Seq<char>, pat: Seq<char>) -> bool {
    exists|i: int| 0 <= i <= s.len() - pat.len() && #[trigger] s.subrange(i, i + pat.len()) == pat
}

/// The pieces of `cur + rest` between non-overlapping occurrences of `pat`,
/// scanned from the left, where `cur` is the part of the current piece that
/// was already read (the behaviour of `str::split` for a non-empty pattern).
pub open spec fn split_from(cur: Seq<char>, rest: Seq<char>, pat: Seq<char>) -> Seq<Seq<char>>
    decreases rest.len(),
{
    if pat.len() == 0 || rest.len() < pat.len() {
        seq![cur + rest]
    } else if rest.take(pat.len() as int) == pat {
        seq![cur] + split_from(seq![], rest.skip(pat.len() as int), pat)
    } else {
        split_from(cur.push(rest[0]), rest.skip(1), pat)
    }
}

/// The pieces of `s` between the occurrences of `pat`.
pub open spec fn split_by(s: Seq<char>, pat: Seq<char>) -> Seq<Seq<char>> {
    split_from(seq![], s, pat)
}

/// `s` without all leading occurrences of `c`.
pub open spec fn trim_start(s: Seq<char>, c: char) -> Seq<char>
    decreases s.len(),
{
    if s.len() > 0 && s[0] == c {
        trim_start(s.skip(1), c)
    } else {
        s
    }
}

/// The index of the first `c` in `s`, if there is one.
pub open spec fn index_of(s: Seq<char>, c: char) -> Option<int>
    decreases s.len(),
{
    if s.len() == 0 {
        None
    } else if s[0] == c {
        Some(0)
    } else {
        match index_of(s.skip(1), c) {
            Some(i) => Some(i + 1),
            None => None,
        }
    }
}

/// The value of the first argument called `name`, or nothing.
pub open spec fn lookup(args: Seq<(Seq<char>, Seq<char>)>, name: Seq<char>) -> Seq<char>
    decreases args.len(),
{
    if args.len() == 0 {
        seq![]
    } else if args[0].0 == name {
        args[0].1
    } else {
        lookup(args.skip(1), name)
    }
}

/// The template `t` with each `{name}` replaced by the value of the argument
/// `name`, and with `{{` and `}}` standing for `{` and `}`; a `{` that no `}`
/// follows stands for itself.
pub open spec fn fill(t: Seq<char>, args: Seq<(Seq<char>, Seq<char>)>) -> Seq<char>
    decreases t.len(),
{
    if t.len() == 0 {
        seq![]
    } else if t.len() >= 2 && t[0] == '{' && t[1] == '{' {
        seq!['{'] + fill(t.skip(2), args)
    } else if t.len() >= 2 && t[0] == '}' && t[1] == '}' {
        seq!['}'] + fill(t.skip(2), args)
    } else if t[0] == '{' && index_of(t, '}') is Some {
        let k = index_of(t, '}')->0;
        proof {
            lemma_index_of_bounds(t, '}');
        }
        lookup(args, t.subrange(1, k)) + fill(t.skip(k + 1), args)
    } else {
        seq![t[0]] + fill(t.skip(1), args)
    }
}

/// The views of a sequence of strings.
pub open spec fn views(v: Seq<String>) -> Seq<Seq<char>> {
    v.map_values(|s: String| s@)
}

/// The view of an optional string.
pub open spec fn opt_view(o: Option<String>) -> Option<Seq<char>> {
    match o {
        Some(s) => Some(s@),
        None => None,
    }
}

/// The views of template arguments.
pub open spec fn template_args(args: Seq<(&str, &str)>) -> Seq<(Seq<char>, Seq<char>)> {
    args.map_values(|a: (&str, &str)| (a.0@, a.1@))
}

/// The `Some` values of `s`, in order.
pub open spec fn keep_some<A>(s: Seq<Option<A>>) -> Seq<A>
    decreases s.len(),
{
    if s.len() == 0 {
        seq![]
    } else {
        match s.last() {
            Some(x) => keep_some(s.drop_last()).push(x),
            None => keep_some(s.drop_last()),
        }
    }
}

/// Keeping the values of one more option.
pub proof fn lemma_keep_some_push<A>(s: Seq<Option<A>>, x: Option<A>)
    ensures
        keep_some(s.push(x)) == match x {
            Some(v) => keep_some(s).push(v),
            None => keep_some(s),
        },
{
    assert(s.push(x).drop_last() =~= s);
}

/// `n` spaces.
pub open spec fn spaces(n: nat) -> Seq<char> {
    Seq::new(n, |i: int| ' ')
}

/// The text starts with `\n` or `\r\n`: its first line is empty and is
/// dropped by `unindented`.
pub open spec fn starts_with_newline(s: Seq<char>) -> bool {
    (s.len() >= 1 && s[0] == '\n') || (s.len() >= 2 && s[0] == '\r' && s[1] == '\n')
}

/// The lines of `s` as `unindent` reads them: the text (without the `\r` of
/// a leading `\r\n`) split at each `\n`, without a last line that is
/// empty. A `\r` at the end of another line stays in it.
pub open spec fn unindent_lines(s: Seq<char>) -> Seq<Seq<char>> {
    let t = if s.len() >= 2 && s[0] == '\r' && s[1] == '\n' {
        s.skip(1)
    } else {
        s
    };
    let pieces = split_by(t, seq!['\n']);
    if pieces.len() > 0 && pieces.last().len() == 0 {
        pieces.drop_last()
    } else {
        pieces
    }
}

/// The number of spaces and tabs that a line starts with, where another
/// character follows them; none for a line of spaces and tabs only.
pub open spec fn indent_width(line: Seq<char>) -> Option<nat>
    decreases line.len(),
{
    if line.len() == 0 {
        None
    } else if line[0] == ' ' || line[0] == '\t' {
        match indent_width(line.skip(1)) {
            Some(n) => Some(n + 1),
            None => None,
        }
    } else {
        Some(0)
    }
}

/// The smallest indent width of the lines, if some line has one.
pub open spec fn least_indent(lines: Seq<Seq<char>>) -> Option<nat>
    decreases lines.len(),
{
    if lines.len() == 0 {
        None
    } else {
        match (indent_width(lines[0]), least_indent(lines.skip(1))) {
            (Some(a), Some(b)) => Some(
                if a <= b {
                    a
                } else {
                    b
                },
            ),
            (Some(a), None) => Some(a),
            (None, r) => r,
        }
    }
}

/// Line `i` of the unindented text: a newline in front of every line but
/// the first one written, then the line with its first `cut` characters
/// removed (nothing where it has no more than `cut`), the first line whole.
pub open spec fn unindent_piece(lines: Seq<Seq<char>>, i: int, cut: nat, skip_first: bool) -> Seq<char> {
    let newline = if i > 1 || (i == 1 && !skip_first) {
        seq!['\n']
    } else {
        Seq::<char>::empty()
    };
    let body = if i == 0 {
        lines[0]
    } else if lines[i].len() > cut {
        lines[i].skip(cut as int)
    } else {
        Seq::<char>::empty()
    };
    newline + body
}

/// The first `n` lines of the unindented text.
pub open spec fn unindent_pieces(lines: Seq<Seq<char>>, n: nat, cut: nat, skip_first: bool) -> Seq<char>
    decreases n,
{
    if n == 0 {
        Seq::<char>::empty()
    } else {
        unindent_pieces(lines, (n - 1) as nat, cut, skip_first) + unindent_piece(
            lines,
            n - 1,
            cut,
            skip_first,
        )
    }
}

/// What `unindent::unindent` returns for `s`: every line after the first
/// loses as many leading characters as the smallest indent width of those
/// lines (none where no such line has another character than spaces and
/// tabs); an empty first line, before a leading newline, is dropped.
pub open spec fn unindented(s: Seq<char>) -> Seq<char> {
    let lines = unindent_lines(s);
    let cut = if lines.len() > 0 {
        match least_indent(lines.skip(1)) {
            Some(n) => n,
            None => 0,
        }
    } else {
        0
    };
    unindent_pieces(lines, lines.len(), cut, starts_with_newline(s))
}

// ---------------------------------------------------------------------------
// Lemmas
// ---------------------------------------------------------------------------

/// Taking one more element of a sequence appends that element.
pub proof fn lemma_take_push<A>(s: Seq<A>, i: int)
    requires
        0 <= i < s.len(),
    ensures
        s.take(i + 1) == s.take(i).push(s[i]),
{
    assert(s.take(i + 1) =~= s.take(i).push(s[i]));
}

/// The index of the first `c`, if there is one, is the index of a `c`.
pub proof fn lemma_index_of_bounds(s: Seq<char>, c: char)
    ensures
        index_of(s, c) matches Some(k) ==> 0 <= k < s.len() && s[k] == c,
    decreases s.len(),
{
    if s.len() > 0 && s[0] != c {
        lemma_index_of_bounds(s.skip(1), c);
    }
}

/// Where the first `c` in `s` is.
pub proof fn lemma_index_of(s: Seq<char>, c: char, k: int)
    requires
        0 <= k < s.len(),
        s[k] == c,
        forall|j: int| 0 <= j < k ==> s[j] != c,
    ensures
        index_of(s, c) == Some(k),
    decreases k,
{
    if k > 0 {
        lemma_index_of(s.skip(1), c, k - 1);
    }
}

/// A sequence without `c` has no index of `c`.
pub proof fn lemma_index_of_none(s: Seq<char>, c: char)
    requires
        forall|j: int| 0 <= j < s.len() ==> s[j] != c,
    ensures
        index_of(s, c) is None,
    decreases s.len(),
{
    if s.len() > 0 {
        lemma_index_of_none(s.skip(1), c);
    }
}

/// Joining one more part.
pub proof fn lemma_join_push(parts: Seq<Seq<char>>, p: Seq<char>, sep: Seq<char>)
    ensures
        join(parts.push(p), sep) == if parts.len() == 0 {
            p
        } else {
            join(parts, sep) + sep + p
        },
{
    assert(parts.push(p).drop_last() =~= parts);
}

// ---------------------------------------------------------------------------
// Executable functions
// ---------------------------------------------------------------------------

/// Appends one character to `s` (`String::push`).
#[verifier::external_body]
pub(crate) fn push_char(s: &mut String, c: char)
    ensures
        final(s)@ == old(s)@.push(c),
{
    s.push(c);
}

/// `unindent::unindent`: the contract states its result as `unindented`,
/// which follows the crate's code: it splits the text at `\n`, takes the
/// smallest number of leading spaces and tabs over the lines after the first
/// that have another character, removes that many characters from each line
/// after the first, and drops an empty first line.
#[verifier::external_body]
pub(crate) fn unindent_text(s: &str) -> (r: String)
    ensures
        r@ == unindented(s@),
{
    unindent::unindent(s)
}

/// The characters of `s`.
pub fn chars_of(s: &str) -> (v: Vec<char>)
    ensures
        v@ == s@,
{
    let mut v: Vec<char> = Vec::new();
    for c in it: s.chars()
        invariant
            v@ == it.seq().take(it.index()),
            it.seq() == s@,
    {
        proof {
            lemma_take_push(it.seq(), it.index());
        }
        v.push(c);
    }
    v
}

/// Whether `pat` occurs in `s` at position `i`.
fn matches_at(s: &Vec<char>, i: usize, pat: &Vec<char>) -> (b: bool)
    requires
        i + pat@.len() <= s@.len(),
    ensures
        b == (s@.subrange(i as int, i + pat@.len()) == pat@),
{
    let sl = s.len();
    let mut j: usize = 0;
    while j < pat.len()
        invariant
            sl == s@.len(),
            i + pat@.len() <= s@.len(),
            j <= pat@.len(),
            forall|k: int| 0 <= k < j ==> s@[i + k] == pat@[k],
        decreases pat@.len() - j,
    {
        if s[i + j] != pat[j] {
            assert(s@.subrange(i as int, i + pat@.len())[j as int] != pat@[j as int]);
            return false;
        }
        j = j + 1;
    }
    assert(s@.subrange(i as int, i + pat@.len()) =~= pat@);
    true
}

/// `s` with every occurrence of `from` replaced by `to` (`str::replace`).
pub fn replace(s: &str, from: &str, to: &str) -> (r: String)
    requires
        from@.len() > 0,
    ensures
        r@ == replace_all(s@, from@, to@),
{
    let sv = chars_of(s);
    let fv = chars_of(from);
    let n = sv.len();
    let m = fv.len();
    let mut out = String::new();
    let mut i: usize = 0;
    assert(s@.skip(0) =~= s@);
    assert(Seq::<char>::empty() + s@ =~= s@);
    while i < n
        invariant
            n == sv@.len(),
            m == fv@.len(),
            sv@ == s@,
            fv@ == from@,
            m > 0,
            i <= n,
            replace_all(s@, from@, to@) == out@ + replace_all(s@.skip(i as int), from@, to@),
        decreases n - i,
    {
        let ghost rest = s@.skip(i as int);
        if m <= n - i && matches_at(&sv, i, &fv) {
            assert(rest.take(m as int) =~= sv@.subrange(i as int, i + m));
            assert(rest.skip(m as int) =~= s@.skip(i + m));
            out.append(to);
            i = i + m;
        } else {
            proof {
                if m <= n - i {
                    assert(rest.take(m as int) =~= sv@.subrange(i as int, i + m));
                }
                assert(rest.skip(1) =~= s@.skip(i + 1));
                lemma_replace_no_match(rest, from@, to@);
            }
            push_char(&mut out, sv[i]);
            i = i + 1;
        }
    }
    assert(s@.skip(n as int) =~= Seq::<char>::empty());
    assert(out@ + Seq::<char>::empty() =~= out@);
    out
}

/// The lines of `s` (`str::lines`).
pub fn lines(s: &str) -> (r: Vec<String>)
    ensures
        views(r@) == lines_of(s@),
{
    let sv = chars_of(s);
    let n = sv.len();
    let mut done: Vec<String> = Vec::new();
    let mut cur = String::new();
    let mut i: usize = 0;
    assert(s@.skip(0) =~= s@);
    assert(views(done@) =~= Seq::<Seq<char>>::empty());
    assert(Seq::<Seq<char>>::empty() + lines_of(s@) =~= lines_of(s@));
    while i < n
        invariant
            n == sv@.len(),
            sv@ == s@,
            i <= n,
            lines_of(s@) == views(done@) + lines_from(cur@, s@.skip(i as int)),
        decreases n - i,
    {
        let ghost rest = s@.skip(i as int);
        assert(rest.skip(1) =~= s@.skip(i + 1));
        let c = sv[i];
        if c == '\n' {
            let cn = cur.unicode_len();
            let line = if cn > 0 && cur.as_str().get_char(cn - 1) == '\r' {
                let t = cur.as_str().substring_char(0, cn - 1);
                assert(t@ =~= cur@.drop_last());
                t.to_owned()
            } else {
                cur
            };
            assert(line@ == strip_cr(cur@));
            let ghost before = views(done@);
            done.push(line);
            assert(views(done@) =~= before.push(strip_cr(cur@)));
            assert(before + (seq![strip_cr(cur@)] + lines_from(seq![], rest.skip(1))) =~= before.push(
                strip_cr(cur@),
            ) + lines_from(seq![], rest.skip(1)));
            cur = String::new();
        } else {
            push_char(&mut cur, c);
        }
        i = i + 1;
    }
    assert(s@.skip(n as int) =~= Seq::<char>::empty());
    if cur.unicode_len() > 0 {
        let ghost before = views(done@);
        done.push(cur);
        assert(views(done@) =~= before.push(cur@));
        assert(before + seq![cur@] =~= before.push(cur@));
    } else {
        assert(views(done@) + Seq::<Seq<char>>::empty() =~= views(done@));
    }
    done
}

/// The parts joined with `sep` between them (`slice::join`).
pub fn join_strings(parts: &Vec<String>, sep: &str) -> (r: String)
    ensures
        r@ == join(views(parts@), sep@),
{
    let mut out = String::new();
    let mut i: usize = 0;
    while i < parts.len()
        invariant
            i <= parts@.len(),
            out@ == join(views(parts@.take(i as int)), sep@),
        decreases parts@.len() - i,
    {
        proof {
            lemma_take_push(parts@, i as int);
            lemma_join_push(views(parts@.take(i as int)), parts@[i as int]@, sep@);
            assert(views(parts@.take(i + 1)) =~= views(parts@.take(i as int)).push(
                parts@[i as int]@,
            ));
        }
        if i > 0 {
            out.append(sep);
        }
        out.append(parts[i].as_str());
        i = i + 1;
    }
    assert(parts@.take(parts@.len() as int) =~= parts@);
    out
}

/// Whether `pat` occurs in `s` (`str::contains`).
pub fn contains_text(s: &str, pat: &str) -> (b: bool)
    ensures
        b == contains(s@, pat@),
{
    let sv = chars_of(s);
    let pv = chars_of(pat);
    let n = sv.len();
    let m = pv.len();
    if m > n {
        return false;
    }
    if m == 0 {
        assert(s@.subrange(0, 0 + pat@.len() as int) =~= pat@);
        return true;
    }
    let mut i: usize = 0;
    while i <= n - m
        invariant
            n == sv@.len(),
            m == pv@.len(),
            sv@ == s@,
            pv@ == pat@,
            0 < m <= n,
            i <= n - m + 1,
            forall|j: int| 0 <= j < i ==> #[trigger] s@.subrange(j, j + m) != pat@,
        decreases n - m + 1 - i,
    {
        if matches_at(&sv, i, &pv) {
            return true;
        }
        i = i + 1;
    }
    false
}

/// The pieces of `s` between the occurrences of `pat` (`str::split`).
pub fn split_text(s: &str, pat: &str) -> (r: Vec<String>)
    requires
        pat@.len() > 0,
    ensures
        views(r@) == split_by(s@, pat@),
{
    let sv = chars_of(s);
    let pv = chars_of(pat);
    let n = sv.len();
    let m = pv.len();
    let mut done: Vec<String> = Vec::new();
    let mut cur = String::new();
    let mut i: usize = 0;
    assert(s@.skip(0) =~= s@);
    assert(views(done@) =~= Seq::<Seq<char>>::empty());
    assert(Seq::<Seq<char>>::empty() + split_by(s@, pat@) =~= split_by(s@, pat@));
    while i < n
        invariant
            n == sv@.len(),
            m == pv@.len(),
            sv@ == s@,
            pv@ == pat@,
            m > 0,
            i <= n,
            split_by(s@, pat@) == views(done@) + split_from(cur@, s@.skip(i as int), pat@),
        decreases n - i,
    {
        let ghost rest = s@.skip(i as int);
        if m <= n - i && matches_at(&sv, i, &pv) {
            proof {
                assert(rest.take(m as int) =~= sv@.subrange(i as int, i + m));
                assert(rest.skip(m as int) =~= s@.skip(i + m));
                lemma_push_then(views(done@), cur@, split_from(seq![], s@.skip(i + m), pat@));
            }
            done.push(cur);
            cur = String::new();
            i = i + m;
        } else {
            proof {
                if m <= n - i {
                    assert(rest.take(m as int) =~= sv@.subrange(i as int, i + m));
                }
                assert(rest.skip(1) =~= s@.skip(i + 1));
                lemma_split_no_match(cur@, rest, pat@);
            }
            push_char(&mut cur, sv[i]);
            i = i + 1;
        }
    }
    proof {
        assert(s@.skip(n as int) =~= Seq::<char>::empty());
        assert(cur@ + Seq::<char>::empty() =~= cur@);
        lemma_push_then(views(done@), cur@, Seq::<Seq<char>>::empty());
    }
    done.push(cur);
    done
}

/// Appending one more element, then the rest.
proof fn lemma_push_then(done: Seq<Seq<char>>, x: Seq<char>, rest: Seq<Seq<char>>)
    ensures
        done + (seq![x] + rest) == done.push(x) + rest,
{
    assert(done + (seq![x] + rest) =~= done.push(x) + rest);
}

/// Where no occurrence of `pat` starts, the first character belongs to the
/// current piece.
proof fn lemma_split_no_match(cur: Seq<char>, rest: Seq<char>, pat: Seq<char>)
    requires
        rest.len() > 0,
        pat.len() > 0,
        !(rest.len() >= pat.len() && rest.take(pat.len() as int) == pat),
    ensures
        split_from(cur, rest, pat) == split_from(cur.push(rest[0]), rest.skip(1), pat),
{
    if rest.len() < pat.len() {
        assert(cur + rest =~= cur.push(rest[0]) + rest.skip(1));
    }
}

/// Where no occurrence of `from` starts, the first character is kept.
proof fn lemma_replace_no_match(rest: Seq<char>, from: Seq<char>, to: Seq<char>)
    requires
        rest.len() > 0,
        from.len() > 0,
        !(rest.len() >= from.len() && rest.take(from.len() as int) == from),
    ensures
        replace_all(rest, from, to) == seq![rest[0]] + replace_all(rest.skip(1), from, to),
{
    if rest.len() < from.len() {
        assert(rest =~= seq![rest[0]] + rest.skip(1));
    }
}

/// The characters of `v` from position `i` on, as a `String`.
fn s_tail(v: &Vec<char>, i: usize) -> (r: String)
    requires
        i <= v@.len(),
    ensures
        r@ == v@.subrange(i as int, v@.len() as int),
{
    let mut r = String::new();
    let mut j = i;
    while j < v.len()
        invariant
            i <= j <= v@.len(),
            r@ == v@.subrange(i as int, j as int),
        decreases v@.len() - j,
    {
        assert(v@.subrange(i as int, j + 1) =~= v@.subrange(i as int, j as int).push(v@[j as int]));
        push_char(&mut r, v[j]);
        j = j + 1;
    }
    r
}

/// `s` without its leading `c`s (`str::trim_start_matches` with a character).
pub fn trim_start_char(s: &str, c: char) -> (r: String)
    ensures
        r@ == trim_start(s@, c),
{
    let sv = chars_of(s);
    let mut i: usize = 0;
    assert(s@.skip(0) =~= s@);
    while i < sv.len() && sv[i] == c
        invariant
            sv@ == s@,
            i <= sv@.len(),
            trim_start(s@, c) == trim_start(s@.skip(i as int), c),
        decreases sv@.len() - i,
    {
        assert(s@.skip(i as int).skip(1) =~= s@.skip(i + 1));
        i = i + 1;
    }
    let r = s_tail(&sv, i);
    assert(r@ =~= s@.skip(i as int));
    r
}

/// The value of the first argument called `name`, or an empty string.
fn lookup_arg<'a>(args: &[(&'a str, &'a str)], name: &Vec<char>) -> (r: &'a str)
    ensures
        r@ == lookup(template_args(args@), name@),
{
    let mut i: usize = 0;
    assert(template_args(args@).skip(0) =~= template_args(args@));
    while i < args.len()
        invariant
            i <= args@.len(),
            lookup(template_args(args@), name@) == lookup(template_args(args@).skip(i as int), name@),
        decreases args@.len() - i,
    {
        let (k, v) = args[i];
        let kv = chars_of(k);
        assert(template_args(args@).skip(i as int)[0] == (k@, v@));
        assert(template_args(args@).skip(i as int).skip(1) =~= template_args(args@).skip(i + 1));
        if kv.len() == name.len() && matches_at(&kv, 0, name) {
            assert(kv@.subrange(0, name@.len() as int) =~= kv@);
            return v;
        }
        if kv.len() == name.len() {
            assert(kv@.subrange(0, name@.len() as int) =~= kv@);
        }
        i = i + 1;
    }
    assert(template_args(args@).skip(i as int) =~= Seq::<(Seq<char>, Seq<char>)>::empty());
    proof {
        reveal_strlit("");
    }
    ""
}

/// The position of the first `}` at or after `from`, or the length of `tv`
/// if there is none.
fn find_close(tv: &Vec<char>, from: usize) -> (j: usize)
    requires
        from <= tv@.len(),
    ensures
        from <= j <= tv@.len(),
        forall|k: int| from <= k < j ==> tv@[k] != '}',
        j < tv@.len() ==> tv@[j as int] == '}',
{
    let n = tv.len();
    let mut j = from;
    while j < n && tv[j] != '}'
        invariant
            n == tv@.len(),
            from <= j <= n,
            forall|k: int| from <= k < j ==> tv@[k] != '}',
        decreases n - j,
    {
        j = j + 1;
    }
    j
}

/// The characters of `tv` from `a` up to `b`.
fn chars_between(tv: &Vec<char>, a: usize, b: usize) -> (r: Vec<char>)
    requires
        a <= b <= tv@.len(),
    ensures
        r@ == tv@.subrange(a as int, b as int),
{
    let mut r: Vec<char> = Vec::new();
    let mut k = a;
    while k < b
        invariant
            a <= k <= b <= tv@.len(),
            r@ == tv@.subrange(a as int, k as int),
        decreases b - k,
    {
        assert(tv@.subrange(a as int, k + 1) =~= tv@.subrange(a as int, k as int).push(tv@[k as int]));
        r.push(tv[k]);
        k = k + 1;
    }
    r
}

/// A placeholder `{name}` stands for the value of `name`.
proof fn lemma_fill_placeholder(t: Seq<char>, j: int, args: Seq<(Seq<char>, Seq<char>)>)
    requires
        0 < j < t.len(),
        t[0] == '{',
        t[j] == '}',
        !(t.len() >= 2 && t[1] == '{'),
        forall|k: int| 0 <= k < j ==> t[k] != '}',
    ensures
        fill(t, args) == lookup(args, t.subrange(1, j)) + fill(t.skip(j + 1), args),
{
    reveal(fill);
    lemma_index_of(t, '}', j);
}

/// `{{` and `}}` stand for one brace.
proof fn lemma_fill_double(t: Seq<char>, args: Seq<(Seq<char>, Seq<char>)>)
    requires
        t.len() >= 2,
        t[0] == t[1],
        t[0] == '{' || t[0] == '}',
    ensures
        fill(t, args) == seq![t[0]] + fill(t.skip(2), args),
{
    reveal(fill);
}

/// Any other character stands for itself.
proof fn lemma_fill_plain(t: Seq<char>, args: Seq<(Seq<char>, Seq<char>)>)
    requires
        t.len() >= 1,
        t[0] != '{',
        !(t.len() >= 2 && t[0] == '}' && t[1] == '}'),
    ensures
        fill(t, args) == seq![t[0]] + fill(t.skip(1), args),
{
    reveal(fill);
}

/// The empty template.
proof fn lemma_fill_empty(args: Seq<(Seq<char>, Seq<char>)>)
    ensures
        fill(Seq::empty(), args) == Seq::<char>::empty(),
{
    reveal(fill);
}

/// A `{` without a closing `}` stands for itself.
proof fn lemma_fill_open(t: Seq<char>, args: Seq<(Seq<char>, Seq<char>)>)
    requires
        0 < t.len(),
        t[0] == '{',
        !(t.len() >= 2 && t[1] == '{'),
        forall|k: int| 0 <= k < t.len() ==> t[k] != '}',
    ensures
        fill(t, args) == seq!['{'] + fill(t.skip(1), args),
{
    reveal(fill);
    lemma_index_of_none(t, '}');
}

/// Fills the template `t`: each `{name}` becomes the value of the argument
/// `name`, `{{` becomes `{` and `}}` becomes `}`.
pub fn fill_template(t: &str, args: &[(&str, &str)]) -> (r: String)
    ensures
        r@ == fill(t@, template_args(args@)),
{
    let tv = chars_of(t);
    let n = tv.len();
    let mut out = String::new();
    let mut i: usize = 0;
    let ghost av = template_args(args@);
    assert(t@.skip(0) =~= t@);
    assert(Seq::<char>::empty() + fill(t@, av) =~= fill(t@, av));
    while i < n
        invariant
            n == tv@.len(),
            tv@ == t@,
            i <= n,
            av == template_args(args@),
            fill(t@, av) == out@ + fill(t@.skip(i as int), av),
        decreases n - i,
    {
        let ghost rest = t@.skip(i as int);
        let c = tv[i];
        if i + 1 < n && c == '{' && tv[i + 1] == '{' {
            proof {
                lemma_fill_double(rest, av);
                assert(rest.skip(2) =~= t@.skip(i + 2));
            }
            push_char(&mut out, '{');
            i = i + 2;
        } else if i + 1 < n && c == '}' && tv[i + 1] == '}' {
            proof {
                lemma_fill_double(rest, av);
                assert(rest.skip(2) =~= t@.skip(i + 2));
            }
            push_char(&mut out, '}');
            i = i + 2;
        } else if c == '{' {
            let j = find_close(&tv, i + 1);
            if j < n {
                let name = chars_between(&tv, i + 1, j);
                proof {
                    lemma_fill_placeholder(rest, j - i, av);
                    assert(rest.subrange(1, j - i) =~= name@);
                    assert(rest.skip(j - i + 1) =~= t@.skip(j + 1));
                }
                let v = lookup_arg(args, &name);
                out.append(v);
                i = j + 1;
            } else {
                proof {
                    lemma_fill_open(rest, av);
                    assert(rest.skip(1) =~= t@.skip(i + 1));
                }
                push_char(&mut out, c);
                i = i + 1;
            }
        } else {
            proof {
                lemma_fill_plain(rest, av);
                assert(rest.skip(1) =~= t@.skip(i + 1));
            }
            push_char(&mut out, c);
            i = i + 1;
        }
    }
    proof {
        lemma_fill_empty(av);
        assert(t@.skip(n as int) =~= Seq::<char>::empty());
        assert(out@ + Seq::<char>::empty() =~= out@);
    }
    out
}

/// Whether two texts are equal.
pub fn same_text(a: &str, b: &str) -> (r: bool)
    ensures
        r == (a@ == b@),
{
    let av = chars_of(a);
    let bv = chars_of(b);
    if av.len() != bv.len() {
        return false;
    }
    let r = matches_at(&av, 0, &bv);
    assert(av@.subrange(0, bv@.len() as int) =~= av@);
    r
}

} // verus!
