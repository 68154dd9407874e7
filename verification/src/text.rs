//! Texts as sequences of characters: decimal numbers, padding, and cutting
//! at a separator.

use vstd::prelude::*;

verus! {

/// `String::push` of the standard library: appends one character to the end
/// of the string and leaves the characters before it as they were.
pub assume_specification[ String::push ](text: &mut String, ch: char)
    ensures
        final(text)@ == old(text)@.push(ch),
;

/// The character of a decimal digit.
pub open spec fn digit(d: nat) -> char
    recommends
        d < 10,
{
    if d == 0 {
        '0'
    } else if d == 1 {
        '1'
    } else if d == 2 {
        '2'
    } else if d == 3 {
        '3'
    } else if d == 4 {
        '4'
    } else if d == 5 {
        '5'
    } else if d == 6 {
        '6'
    } else if d == 7 {
        '7'
    } else if d == 8 {
        '8'
    } else {
        '9'
    }
}

/// The decimal numeral of `n`: no sign, no leading zero but for 0 itself.
pub open spec fn decimal(n: nat) -> Seq<char>
    decreases n,
{
    if n < 10 {
        seq![digit(n)]
    } else {
        decimal(n / 10).push(digit(n % 10))
    }
}

/// The number that a sequence of decimal digits stands for.
pub open spec fn value(digits: Seq<char>) -> nat
    decreases digits.len(),
{
    if digits.len() == 0 {
        0
    } else {
        10 * value(digits.drop_last()) + (digits.last() as nat - '0' as nat) as nat
    }
}

/// A decimal numeral consists of digits, has no leading zero unless it is
/// `"0"`, and stands for the number it was made from.
pub proof fn lemma_decimal_reads_back(n: nat)
    ensures
        decimal(n).len() >= 1,
        forall|i: int| 0 <= i < decimal(n).len() ==> '0' <= #[trigger] decimal(n)[i] <= '9',
        decimal(n)[0] == '0' <==> n == 0,
        value(decimal(n)) == n,
    decreases n,
{
    if n < 10 {
        assert(decimal(n).drop_last() =~= Seq::<char>::empty());
        assert(value(decimal(n).drop_last()) == 0);
    } else {
        lemma_decimal_reads_back(n / 10);
        assert(decimal(n).drop_last() =~= decimal(n / 10));
    }
}

/// The character of a decimal digit.
fn digit_char(d: u8) -> (c: char)
    requires
        d < 10,
    ensures
        c == digit(d as nat),
{
    if d == 0 {
        '0'
    } else if d == 1 {
        '1'
    } else if d == 2 {
        '2'
    } else if d == 3 {
        '3'
    } else if d == 4 {
        '4'
    } else if d == 5 {
        '5'
    } else if d == 6 {
        '6'
    } else if d == 7 {
        '7'
    } else if d == 8 {
        '8'
    } else {
        '9'
    }
}

/// Writes `n` as a decimal numeral.
pub fn decimal_string(n: u128) -> (text: String)
    ensures
        text@ == decimal(n as nat),
    decreases n,
{
    if n < 10 {
        let mut text = String::new();
        text.push(digit_char(n as u8));
        assert(text@ =~= decimal(n as nat));
        text
    } else {
        let mut text = decimal_string(n / 10);
        text.push(digit_char((n % 10) as u8));
        text
    }
}

/// `text` after as many spaces as bring it to `width` characters; `text`
/// itself if it has that many already.
pub open spec fn padded(text: Seq<char>, width: nat) -> Seq<char> {
    if text.len() < width {
        Seq::new((width - text.len()) as nat, |i: int| ' ') + text
    } else {
        text
    }
}

/// Pads `text` on the left with spaces to `width` characters. A text that
/// is as long or longer is returned as it is.
pub fn pad_left(text: &str, width: usize) -> (out: String)
    ensures
        out@ == padded(text@, width as nat),
{
    let len: usize = text.unicode_len();
    let mut out = String::new();
    let mut n: usize = len;
    while n < width
        invariant
            len == text@.len(),
            len <= n,
            n <= width || n == len,
            out@ == Seq::new((n - len) as nat, |i: int| ' '),
        decreases width - n,
    {
        out.push(' ');
        n += 1;
        assert(out@ =~= Seq::new((n - len) as nat, |i: int| ' '));
    }
    out.append(text);
    assert(out@ =~= padded(text@, width as nat));
    out
}

/// The texts of a sequence of strings.
pub open spec fn texts(strings: Seq<String>) -> Seq<Seq<char>> {
    strings.map_values(|s: String| s@)
}

/// The pieces of `text` between the occurrences of `separator`: one more
/// piece than there are separators, the empty pieces included.
pub open spec fn split(text: Seq<char>, separator: char) -> Seq<Seq<char>>
    decreases text.len(),
{
    if text.len() == 0 {
        seq![Seq::empty()]
    } else {
        let front = split(text.drop_last(), separator);
        if text.last() == separator {
            front.push(Seq::empty())
        } else {
            front.drop_last().push(front.last().push(text.last()))
        }
    }
}

/// The pieces in a row with `separator` between each two of them.
pub open spec fn join(pieces: Seq<Seq<char>>, separator: char) -> Seq<char>
    decreases pieces.len(),
{
    if pieces.len() == 0 {
        Seq::empty()
    } else if pieces.len() == 1 {
        pieces[0]
    } else {
        join(pieces.drop_last(), separator).push(separator) + pieces.last()
    }
}

/// Splitting loses nothing: there is at least one piece, no piece holds
/// the separator, and the pieces joined by the separator are the text.
pub proof fn lemma_split_joins_back(text: Seq<char>, separator: char)
    ensures
        split(text, separator).len() >= 1,
        forall|i: int, j: int|
            0 <= i < split(text, separator).len() && 0 <= j < split(text, separator)[i].len()
                ==> #[trigger] split(text, separator)[i][j] != separator,
        join(split(text, separator), separator) == text,
    decreases text.len(),
{
    if text.len() > 0 {
        let front = split(text.drop_last(), separator);
        let pieces = split(text, separator);
        lemma_split_joins_back(text.drop_last(), separator);
        if text.last() == separator {
            assert(pieces.drop_last() =~= front);
            assert(join(pieces, separator) =~= text.drop_last().push(separator));
        } else {
            let grown = front.last().push(text.last());
            assert(pieces.last() == grown);
            assert(pieces.drop_last() =~= front.drop_last());
            if front.len() == 1 {
                assert(join(front, separator) == front[0]);
                assert(join(pieces, separator) =~= text.drop_last().push(text.last()));
            } else {
                assert(join(pieces, separator) =~= join(front, separator).push(text.last()));
            }
        }
        assert(text.drop_last().push(text.last()) =~= text);
    }
}

/// Text without the separator, put after a text, makes its last piece
/// longer and leaves the other pieces as they are.
pub proof fn lemma_split_append(text: Seq<char>, more: Seq<char>, separator: char)
    requires
        forall|j: int| 0 <= j < more.len() ==> more[j] != separator,
    ensures
        split(text, separator).len() >= 1,
        split(text + more, separator) == split(text, separator).drop_last().push(
            split(text, separator).last() + more,
        ),
    decreases more.len(),
{
    let pieces = split(text, separator);
    lemma_split_joins_back(text, separator);
    if more.len() == 0 {
        assert(text + more =~= text);
        assert(pieces.last() + more =~= pieces.last());
        assert(pieces.drop_last().push(pieces.last()) =~= pieces);
    } else {
        let shorter = more.drop_last();
        lemma_split_append(text, shorter, separator);
        let front = split(text + shorter, separator);
        assert((text + more).drop_last() =~= text + shorter);
        assert((text + more).last() == more.last());
        assert(front.drop_last() =~= pieces.drop_last());
        assert(front.last().push(more.last()) =~= pieces.last() + more);
    }
}

/// The characters of `text`, one by one.
pub fn chars_of(text: &str) -> (chars: Vec<char>)
    ensures
        chars@ == text@,
{
    let mut chars: Vec<char> = Vec::new();
    for c in it: text.chars()
        invariant
            it.seq() == text@,
            chars@ == text@.take(it.index() as int),
    {
        chars.push(c);
        assert(chars@ =~= text@.take(it.index() + 1));
    }
    assert(chars@ =~= text@);
    chars
}

/// Cuts `text` at every occurrence of `separator`.
pub fn split_at(text: &str, separator: char) -> (pieces: Vec<String>)
    ensures
        texts(pieces@) == split(text@, separator),
{
    let mut pieces: Vec<String> = Vec::new();
    let mut current = String::new();
    for c in it: text.chars()
        invariant
            it.seq() == text@,
            texts(pieces@).push(current@) == split(text@.take(it.index() as int), separator),
    {
        let ghost seen = text@.take(it.index() as int);
        let ghost next = text@.take(it.index() + 1);
        let ghost front = texts(pieces@).push(current@);
        proof {
            assert(next.drop_last() =~= seen);
            assert(next.last() == c);
        }
        if c == separator {
            pieces.push(current);
            current = String::new();
            assert(texts(pieces@).push(current@) =~= front.push(Seq::empty()));
        } else {
            current.push(c);
            assert(texts(pieces@).push(current@) =~= front.drop_last().push(
                front.last().push(c),
            ));
        }
    }
    assert(text@.take(text@.len() as int) =~= text@);
    let ghost front = texts(pieces@).push(current@);
    pieces.push(current);
    assert(texts(pieces@) =~= front);
    pieces
}

/// Joins the pieces from index `from` up to, not including, index `to`.
fn join_range(pieces: &Vec<String>, from: usize, to: usize, separator: char) -> (joined: String)
    requires
        from <= to <= pieces.len(),
    ensures
        joined@ == join(texts(pieces@).subrange(from as int, to as int), separator),
{
    let mut joined = String::new();
    if from == to {
        assert(texts(pieces@).subrange(from as int, from as int) =~= Seq::empty());
        return joined;
    }
    joined.append(pieces[from].as_str());
    let mut k: usize = from + 1;
    assert(texts(pieces@).subrange(from as int, k as int) =~= seq![pieces[from as int]@]);
    assert(joined@ =~= pieces[from as int]@);
    while k < to
        invariant
            from < k <= to <= pieces.len(),
            joined@ == join(texts(pieces@).subrange(from as int, k as int), separator),
        decreases to - k,
    {
        proof {
            let next = texts(pieces@).subrange(from as int, k + 1);
            assert(next.drop_last() =~= texts(pieces@).subrange(from as int, k as int));
            assert(next.last() == pieces[k as int]@);
        }
        joined.push(separator);
        joined.append(pieces[k].as_str());
        k += 1;
    }
    joined
}

/// The first `n` pieces, or all of them if there are fewer.
pub open spec fn first(pieces: Seq<Seq<char>>, n: nat) -> Seq<Seq<char>> {
    if n < pieces.len() {
        pieces.take(n as int)
    } else {
        pieces
    }
}

/// The pieces after the first `n`; none if there are no more than `n`.
pub open spec fn after(pieces: Seq<Seq<char>>, n: nat) -> Seq<Seq<char>> {
    if n < pieces.len() {
        pieces.skip(n as int)
    } else {
        Seq::empty()
    }
}

/// Joins the first `n` pieces, or all of them if there are fewer, with
/// `separator` between each two.
pub fn join_first(pieces: &Vec<String>, n: usize, separator: char) -> (joined: String)
    ensures
        joined@ == join(first(texts(pieces@), n as nat), separator),
{
    let to: usize = if n < pieces.len() {
        n
    } else {
        pieces.len()
    };
    assert(texts(pieces@).subrange(0, to as int) =~= first(texts(pieces@), n as nat));
    join_range(pieces, 0, to, separator)
}

/// Joins the pieces after the first `n` with `separator` between each two.
/// Where there are no more than `n` pieces, the result is empty.
pub fn join_after(pieces: &Vec<String>, n: usize, separator: char) -> (joined: String)
    ensures
        joined@ == join(after(texts(pieces@), n as nat), separator),
{
    let from: usize = if n < pieces.len() {
        n
    } else {
        pieces.len()
    };
    assert(texts(pieces@).subrange(from as int, pieces.len() as int) =~= after(
        texts(pieces@),
        n as nat,
    ));
    join_range(pieces, from, pieces.len(), separator)
}

} // verus!
