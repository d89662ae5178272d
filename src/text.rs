//! Small text helpers: decimal rendering of integers and character-level string building.
use vstd::prelude::*;
use vstd::string::StrSliceExecFns;

verus! {

/// The decimal digit for a value below ten.
pub open spec fn digit_char(d: nat) -> char {
    if d == 0 { '0' }
    else if d == 1 { '1' }
    else if d == 2 { '2' }
    else if d == 3 { '3' }
    else if d == 4 { '4' }
    else if d == 5 { '5' }
    else if d == 6 { '6' }
    else if d == 7 { '7' }
    else if d == 8 { '8' }
    else { '9' }
}

/// The shortest decimal representation of a natural number.
pub open spec fn decimal(n: nat) -> Seq<char>
    decreases n,
{
    if n < 10 {
        seq![digit_char(n)]
    } else {
        decimal(n / 10).push(digit_char(n % 10))
    }
}

/// The decimal representation of an integer, with a leading `-` when it is negative.
pub open spec fn signed_decimal(n: int) -> Seq<char> {
    if n < 0 {
        seq!['-'] + decimal((-n) as nat)
    } else {
        decimal(n as nat)
    }
}

/// Relies on `String::push`: appends one character.
#[verifier::external_body]
pub(crate) fn push_char(s: &mut String, c: char)
    ensures
        final(s)@ == old(s)@.push(c),
{
    s.push(c);
}

fn digit(d: u64) -> (c: char)
    requires
        d < 10,
    ensures
        c == digit_char(d as nat),
{
    match d {
        0 => '0',
        1 => '1',
        2 => '2',
        3 => '3',
        4 => '4',
        5 => '5',
        6 => '6',
        7 => '7',
        8 => '8',
        _ => '9',
    }
}

/// Appends the decimal representation of `n` to `out`.
pub fn push_decimal(out: &mut String, n: u64)
    ensures
        final(out)@ == old(out)@ + decimal(n as nat),
    decreases n,
{
    if n < 10 {
        push_char(out, digit(n));
        assert(decimal(n as nat) == seq![digit_char(n as nat)]);
        assert(final(out)@ =~= old(out)@ + decimal(n as nat));
    } else {
        push_decimal(out, n / 10);
        push_char(out, digit(n % 10));
        assert(final(out)@ =~= old(out)@ + decimal(n as nat));
    }
}

/// The decimal representation of `n`, with a leading `-` when it is negative.
pub fn signed_decimal_string(n: i64) -> (r: String)
    ensures
        r@ == signed_decimal(n as int),
{
    let mut s = String::new();
    if n < 0 {
        push_char(&mut s, '-');
        let m: u64 = if n == i64::MIN {
            9223372036854775808u64
        } else {
            (-n) as u64
        };
        push_decimal(&mut s, m);
        assert(s@ =~= signed_decimal(n as int));
    } else {
        push_decimal(&mut s, n as u64);
        assert(s@ =~= signed_decimal(n as int));
    }
    s
}

/// The characters of `s`.
pub fn chars_of(s: &str) -> (r: Vec<char>)
    ensures
        r@ == s@,
{
    let n = s.unicode_len();
    let mut out: Vec<char> = Vec::new();
    let mut i: usize = 0;
    while i < n
        invariant
            n == s@.len(),
            i <= n,
            out@ == s@.take(i as int),
        decreases n - i,
    {
        out.push(s.get_char(i));
        i += 1;
        assert(out@ =~= s@.take(i as int));
    }
    assert(s@.take(n as int) =~= s@);
    out
}

/// The pieces of `s` between newlines: one more than the newlines it holds.
pub open spec fn newline_pieces(s: Seq<char>) -> Seq<Seq<char>>
    decreases s.len(),
{
    if s.len() == 0 {
        seq![Seq::<char>::empty()]
    } else if s.last() == '\n' {
        newline_pieces(s.drop_last()).push(Seq::<char>::empty())
    } else {
        let p = newline_pieces(s.drop_last());
        p.update(p.len() - 1, p.last().push(s.last()))
    }
}

/// `line` without one trailing carriage return.
pub open spec fn strip_cr(line: Seq<char>) -> Seq<char> {
    if line.len() > 0 && line.last() == '\r' {
        line.drop_last()
    } else {
        line
    }
}

/// The lines of `s` as `str::lines` gives them: split at each `\n`, with no empty line after a
/// final newline, and one trailing `\r` removed from each line.
pub open spec fn lines_of(s: Seq<char>) -> Seq<Seq<char>> {
    let p = newline_pieces(s);
    let kept = if p.last().len() == 0 {
        p.drop_last()
    } else {
        p
    };
    kept.map_values(|l: Seq<char>| strip_cr(l))
}

/// `n` spaces.
pub open spec fn spaces(n: nat) -> Seq<char> {
    Seq::new(n, |i: int| ' ')
}

/// The lines joined by newlines, each line but the first indented by `indent` spaces.
pub open spec fn indented(lines: Seq<Seq<char>>, indent: nat) -> Seq<char>
    decreases lines.len(),
{
    if lines.len() == 0 {
        Seq::empty()
    } else if lines.len() == 1 {
        lines[0]
    } else {
        indented(lines.drop_last(), indent) + seq!['\n'] + spaces(indent) + lines.last()
    }
}

proof fn lemma_pieces_nonempty(s: Seq<char>)
    ensures
        newline_pieces(s).len() >= 1,
    decreases s.len(),
{
    if s.len() > 0 {
        lemma_pieces_nonempty(s.drop_last());
    }
}

/// Indents every line of `msg` but the first by `indent` spaces.
pub fn indent_msg(msg: &str, indent: usize) -> (r: String)
    ensures
        r@ == indented(lines_of(msg@), indent as nat),
{
    let cs = chars_of(msg);
    let mut pieces: Vec<Vec<char>> = Vec::new();
    let mut current: Vec<char> = Vec::new();
    let mut i: usize = 0;
    proof {
        assert(cs@.take(0) =~= Seq::<char>::empty());
    }
    while i < cs.len()
        invariant
            i <= cs.len(),
            pieces@.map_values(|v: Vec<char>| v@).push(current@) == newline_pieces(
                cs@.take(i as int),
            ),
        decreases cs.len() - i,
    {
        let ghost before = pieces@.map_values(|v: Vec<char>| v@).push(current@);
        assert(cs@.take(i + 1).drop_last() =~= cs@.take(i as int));
        assert(cs@.take(i + 1).last() == cs@[i as int]);
        if cs[i] == '\n' {
            let line = current;
            pieces.push(line);
            current = Vec::new();
            assert(pieces@.map_values(|v: Vec<char>| v@).push(current@) =~= before.push(
                Seq::<char>::empty(),
            ));
        } else {
            current.push(cs[i]);
            assert(pieces@.map_values(|v: Vec<char>| v@).push(current@) =~= before.update(
                before.len() - 1,
                before.last().push(cs@[i as int]),
            ));
        }
        i += 1;
    }
    assert(cs@.take(i as int) =~= msg@);
    if current.len() > 0 {
        pieces.push(current);
    }
    let ghost kept = pieces@.map_values(|v: Vec<char>| v@);
    proof {
        lemma_pieces_nonempty(msg@);
    }
    let mut out = String::new();
    let mut k: usize = 0;
    while k < pieces.len()
        invariant
            k <= pieces.len(),
            kept == pieces@.map_values(|v: Vec<char>| v@),
            out@ == indented(kept.take(k as int).map_values(|l: Seq<char>| strip_cr(l)), indent as nat),
        decreases pieces.len() - k,
    {
        let ghost prev = kept.take(k as int).map_values(|l: Seq<char>| strip_cr(l));
        let ghost next = kept.take(k + 1).map_values(|l: Seq<char>| strip_cr(l));
        assert(next.drop_last() =~= prev);
        if k > 0 {
            push_char(&mut out, '\n');
            let mut j: usize = 0;
            while j < indent
                invariant
                    j <= indent,
                    out@ == indented(prev, indent as nat) + seq!['\n'] + spaces(j as nat),
                decreases indent - j,
            {
                push_char(&mut out, ' ');
                j += 1;
                assert(out@ =~= indented(prev, indent as nat) + seq!['\n'] + spaces(j as nat));
            }
        }
        let line = &pieces[k];
        let mut n = line.len();
        if n > 0 && line[n - 1] == '\r' {
            n -= 1;
        }
        let ghost stripped = strip_cr(line@);
        assert(stripped =~= line@.take(n as int));
        let ghost start = out@;
        let mut j: usize = 0;
        while j < n
            invariant
                j <= n <= line.len(),
                out@ == start + line@.take(j as int),
            decreases n - j,
        {
            push_char(&mut out, line[j]);
            j += 1;
            assert(out@ =~= start + line@.take(j as int));
        }
        assert(next.last() == stripped);
        assert(out@ =~= indented(next, indent as nat));
        k += 1;
    }
    assert(kept.take(k as int) =~= kept);
    proof {
        let p = newline_pieces(msg@);
        if p.last().len() == 0 {
            assert(kept =~= p.drop_last());
        } else {
            assert(kept =~= p);
        }
    }
    out
}

} // verus!
