//! Text helpers shared by the catalogue, the report and the test selection:
//! comparing strings, writing numbers in decimal, splitting at commas.

use vstd::prelude::*;

verus! {

/// The character that stands for the digit `d`.
pub open spec fn digit_char(d: int) -> char
    recommends
        0 <= d < 10,
{
    if d == 0 {
        '0'
    } else if d == 1 {
        '1'
    } else if d == 2 {
        '2'
    } else if d == 3 {
        '3'
    } else if d == 4 {
        '4'
    } else if d == 5 {
        '5'
    } else if d == 6 {
        '6'
    } else if d == 7 {
        '7'
    } else if d == 8 {
        '8'
    } else {
        '9'
    }
}

/// The decimal numeral of `n`: no sign, no leading zero, `"0"` for zero.
pub open spec fn decimal(n: nat) -> Seq<char>
    decreases n,
{
    if n < 10 {
        seq![digit_char(n as int)]
    } else {
        decimal(n / 10).push(digit_char((n % 10) as int))
    }
}

/// The decimal numeral of an integer, with a leading `-` below zero.
pub open spec fn signed_decimal(n: int) -> Seq<char> {
    if n < 0 {
        seq!['-'] + decimal((-n) as nat)
    } else {
        decimal(n as nat)
    }
}

/// The pieces of `s` between occurrences of `sep`, in order. There is always
/// at least one piece; two separators in a row, or one at either end, give
/// an empty piece.
pub open spec fn split(s: Seq<char>, sep: char) -> Seq<Seq<char>>
    decreases s.len(),
{
    if s.len() == 0 {
        seq![Seq::<char>::empty()]
    } else {
        let before = split(s.drop_last(), sep);
        if s.last() == sep {
            before.push(Seq::<char>::empty())
        } else {
            before.drop_last().push(before.last().push(s.last()))
        }
    }
}

/// The pieces put together again, with `sep` between them.
pub open spec fn join(pieces: Seq<Seq<char>>, sep: char) -> Seq<char>
    decreases pieces.len(),
{
    if pieces.len() == 0 {
        Seq::<char>::empty()
    } else if pieces.len() == 1 {
        pieces[0]
    } else {
        join(pieces.drop_last(), sep).push(sep) + pieces.last()
    }
}

/// What makes `split` the split: there is at least one piece, no piece
/// holds the separator, and the pieces joined by the separator are the
/// string that was split.
pub proof fn lemma_split_pieces(s: Seq<char>, sep: char)
    ensures
        split(s, sep).len() >= 1,
        forall|i: int| 0 <= i < split(s, sep).len() ==> !(#[trigger] split(s, sep)[i]).contains(sep),
        join(split(s, sep), sep) == s,
    decreases s.len(),
{
    let pieces = split(s, sep);
    if s.len() == 0 {
        assert(join(pieces, sep) =~= s);
    } else {
        let before = split(s.drop_last(), sep);
        lemma_split_pieces(s.drop_last(), sep);
        if s.last() == sep {
            assert(pieces.drop_last() =~= before);
            assert(join(pieces, sep) =~= join(before, sep).push(sep) + Seq::<char>::empty());
            assert(s =~= s.drop_last().push(sep));
            assert(join(pieces, sep) =~= s);
        } else {
            let grown = before.last().push(s.last());
            assert(pieces.last() == grown);
            assert(pieces.len() == before.len());
            assert forall|i: int| 0 <= i < pieces.len() implies !(#[trigger] pieces[i]).contains(
                sep,
            ) by {
                if i < pieces.len() - 1 {
                    assert(pieces[i] == before[i]);
                } else {
                    assert(!before.last().contains(sep));
                    if grown.contains(sep) {
                        let k = choose|k: int| 0 <= k < grown.len() && grown[k] == sep;
                        if k < before.last().len() {
                            assert(before.last()[k] == sep);
                        }
                    }
                }
            }
            if before.len() == 1 {
                assert(join(before, sep) == before[0]);
                assert(join(pieces, sep) == grown);
                assert(grown =~= s);
            } else {
                assert(pieces.drop_last() =~= before.drop_last());
                assert(join(pieces, sep) =~= join(before, sep).push(s.last()));
                assert(s =~= s.drop_last().push(s.last()));
            }
        }
    }
}

/// The views of a vector of strings, in order.
pub open spec fn texts(v: Seq<String>) -> Seq<Seq<char>> {
    Seq::new(v.len(), |i: int| v[i]@)
}

/// Whether two strings hold the same characters.
pub fn same_text(a: &str, b: &str) -> (r: bool)
    ensures
        r == (a@ == b@),
{
    String::from_str(a) == String::from_str(b)
}

/// Appends the digit `d` to `out`.
fn push_digit(out: &mut String, d: u8)
    requires
        d < 10,
    ensures
        final(out)@ == old(out)@.push(digit_char(d as int)),
{
    proof {
        reveal_strlit("0");
        reveal_strlit("1");
        reveal_strlit("2");
        reveal_strlit("3");
        reveal_strlit("4");
        reveal_strlit("5");
        reveal_strlit("6");
        reveal_strlit("7");
        reveal_strlit("8");
        reveal_strlit("9");
    }
    let ghost before = out@;
    if d == 0 {
        out.append("0");
        assert(out@ =~= before.push('0'));
    } else if d == 1 {
        out.append("1");
        assert(out@ =~= before.push('1'));
    } else if d == 2 {
        out.append("2");
        assert(out@ =~= before.push('2'));
    } else if d == 3 {
        out.append("3");
        assert(out@ =~= before.push('3'));
    } else if d == 4 {
        out.append("4");
        assert(out@ =~= before.push('4'));
    } else if d == 5 {
        out.append("5");
        assert(out@ =~= before.push('5'));
    } else if d == 6 {
        out.append("6");
        assert(out@ =~= before.push('6'));
    } else if d == 7 {
        out.append("7");
        assert(out@ =~= before.push('7'));
    } else if d == 8 {
        out.append("8");
        assert(out@ =~= before.push('8'));
    } else {
        out.append("9");
        assert(out@ =~= before.push('9'));
    }
}

/// Appends the decimal numeral of `n` to `out`.
pub fn push_decimal(out: &mut String, n: u128)
    ensures
        final(out)@ == old(out)@ + decimal(n as nat),
    decreases n,
{
    let ghost before = out@;
    if n >= 10 {
        push_decimal(out, n / 10);
    }
    let d: u8 = (n % 10) as u8;
    push_digit(out, d);
    assert(out@ =~= before + decimal(n as nat));
}

/// The decimal numeral of `n` as a string.
pub fn decimal_string(n: u128) -> (s: String)
    ensures
        s@ == decimal(n as nat),
{
    let mut s = String::new();
    push_decimal(&mut s, n);
    assert(s@ =~= decimal(n as nat));
    s
}

/// Appends the decimal numeral of `n`, with its sign, to `out`.
pub fn push_signed_decimal(out: &mut String, n: i128)
    ensures
        final(out)@ == old(out)@ + signed_decimal(n as int),
{
    let ghost before = out@;
    if n < 0 {
        proof {
            reveal_strlit("-");
        }
        out.append("-");
        assert(out@ =~= before + seq!['-']);
        let magnitude: u128 = (-(n + 1)) as u128 + 1;
        push_decimal(out, magnitude);
        assert(out@ =~= before + signed_decimal(n as int));
    } else {
        push_decimal(out, n as u128);
    }
}

/// Splits `s` at every comma.
pub fn split_commas(s: &str) -> (pieces: Vec<String>)
    ensures
        texts(pieces@) == split(s@, ','),
{
    let n: usize = s.unicode_len();
    let mut pieces: Vec<String> = Vec::new();
    let mut start: usize = 0;
    let mut i: usize = 0;
    assert(s@.take(0) =~= Seq::<char>::empty());
    while i < n
        invariant
            n == s@.len(),
            start <= i <= n,
            texts(pieces@) == split(s@.take(i as int), ',').drop_last(),
            split(s@.take(i as int), ',').last() == s@.subrange(start as int, i as int),
            split(s@.take(i as int), ',').len() >= 1,
        decreases n - i,
    {
        let c = s.get_char(i);
        let ghost prefix = s@.take(i as int);
        let ghost longer = s@.take(i + 1);
        assert(longer.drop_last() =~= prefix);
        assert(longer.last() == c);
        if c == ',' {
            let piece = String::from_str(s.substring_char(start, i));
            proof {
                let done = split(prefix, ',');
                assert(split(longer, ',') == done.push(Seq::<char>::empty()));
                assert(done =~= done.drop_last().push(done.last()));
                assert(texts(pieces@.push(piece)) =~= done);
                assert(done.push(Seq::<char>::empty()).drop_last() =~= done);
                assert(s@.subrange(i + 1, i + 1) =~= Seq::<char>::empty());
            }
            pieces.push(piece);
            start = i + 1;
        } else {
            proof {
                let done = split(prefix, ',');
                let grown = done.drop_last().push(done.last().push(c));
                assert(split(longer, ',') == grown);
                assert(grown.drop_last() =~= done.drop_last());
                assert(s@.subrange(start as int, i + 1) =~= done.last().push(c));
            }
        }
        i = i + 1;
    }
    let piece = String::from_str(s.substring_char(start, n));
    proof {
        assert(s@.take(n as int) =~= s@);
        let done = split(s@, ',');
        assert(done =~= done.drop_last().push(done.last()));
        assert(texts(pieces@.push(piece)) =~= done);
    }
    pieces.push(piece);
    pieces
}

} // verus!
