//! Text helpers over the characters of a string: substring search, prefix
//! test, equality, splitting at a separator, replacement, and the decimal
//! notation of an integer.

use vstd::prelude::*;

verus! {

/// `needle` stands in `hay` at position `at`.
pub open spec fn occurs_at(hay: Seq<char>, needle: Seq<char>, at: int) -> bool {
    &&& 0 <= at
    &&& at + needle.len() <= hay.len()
    &&& hay.subrange(at, at + needle.len()) == needle
}

/// `needle` stands somewhere in `hay`. The empty text stands in every text.
pub open spec fn has_substring(hay: Seq<char>, needle: Seq<char>) -> bool {
    exists|at: int| occurs_at(hay, needle, at)
}

/// The characters of each string of a list.
pub open spec fn texts(strings: Seq<String>) -> Seq<Seq<char>> {
    Seq::new(strings.len(), |i: int| strings[i]@)
}

/// The characters of a list with one more string are those of the list
/// with those of the string after them.
pub proof fn lemma_texts_push(strings: Seq<String>, last: String)
    ensures
        texts(strings.push(last)) == texts(strings).push(last@),
{
    assert(texts(strings.push(last)) =~= texts(strings).push(last@));
}

/// The characters of a string, in order.
pub fn chars_of(s: &str) -> (chars: Vec<char>)
    ensures
        chars@ == s@,
{
    let mut chars: Vec<char> = Vec::new();
    for c in it: s.chars()
        invariant
            it.seq() == s@,
            chars@ == s@.take(it.index()),
    {
        chars.push(c);
        assert(s@.take(it.index() + 1) =~= s@.take(it.index()).push(c));
    }
    assert(s@.take(s@.len() as int) =~= s@);
    chars
}

/// Whether `needle` stands in `hay` at position `at`.
pub fn chars_occur_at(hay: &Vec<char>, needle: &Vec<char>, at: usize) -> (found: bool)
    ensures
        found == occurs_at(hay@, needle@, at as int),
{
    if needle.len() > hay.len() || at > hay.len() - needle.len() {
        return false;
    }
    let mut k: usize = 0;
    while k < needle.len()
        invariant
            k <= needle.len(),
            at + needle.len() <= hay.len(),
            forall|j: int| 0 <= j < k ==> hay@[at + j] == needle@[j],
        decreases needle.len() - k,
    {
        if hay[at + k] != needle[k] {
            assert(hay@.subrange(at as int, at + needle.len())[k as int] != needle@[k as int]);
            return false;
        }
        k += 1;
    }
    assert(hay@.subrange(at as int, at + needle.len()) =~= needle@);
    true
}

/// Whether `needle` stands somewhere in `hay`.
pub fn chars_contain(hay: &Vec<char>, needle: &Vec<char>) -> (found: bool)
    ensures
        found == has_substring(hay@, needle@),
{
    if needle.len() > hay.len() {
        return false;
    }
    let last: usize = hay.len() - needle.len();
    let mut at: usize = 0;
    loop
        invariant
            at <= last,
            last == hay.len() - needle.len(),
            forall|i: int| 0 <= i < at ==> !occurs_at(hay@, needle@, i),
        decreases last - at,
    {
        if chars_occur_at(hay, needle, at) {
            return true;
        }
        if at == last {
            return false;
        }
        at += 1;
    }
}

/// Whether `needle` stands somewhere in `hay`.
pub fn contains(hay: &str, needle: &str) -> (found: bool)
    ensures
        found == has_substring(hay@, needle@),
{
    let hay_chars = chars_of(hay);
    let needle_chars = chars_of(needle);
    chars_contain(&hay_chars, &needle_chars)
}

/// Whether `text` begins with `prefix`.
pub fn starts_with(text: &str, prefix: &str) -> (found: bool)
    ensures
        found == occurs_at(text@, prefix@, 0),
{
    let text_chars = chars_of(text);
    let prefix_chars = chars_of(prefix);
    chars_occur_at(&text_chars, &prefix_chars, 0)
}

/// Whether two strings hold the same characters.
pub fn same_text(left: &str, right: &str) -> (same: bool)
    ensures
        same == (left@ == right@),
{
    let left_chars = chars_of(left);
    let right_chars = chars_of(right);
    if left_chars.len() != right_chars.len() {
        return false;
    }
    let found = chars_occur_at(&left_chars, &right_chars, 0);
    assert(left@.subrange(0, left@.len() as int) =~= left@);
    found
}

/// The position of the first `sep` in `s`, or the length of `s` if there is none.
pub open spec fn first_index_of(s: Seq<char>, sep: char) -> int
    decreases s.len(),
{
    if s.len() == 0 || s[0] == sep {
        0
    } else {
        1 + first_index_of(s.drop_first(), sep)
    }
}

/// The pieces of `s` between its separators, in order. There is one piece
/// more than there are separators, so a text without separator is its own
/// single piece, and a piece may be empty.
pub open spec fn split(s: Seq<char>, sep: char) -> Seq<Seq<char>>
    decreases s.len(),
{
    let at = first_index_of(s, sep);
    if 0 <= at < s.len() {
        seq![s.take(at)] + split(s.skip(at + 1), sep)
    } else {
        seq![s]
    }
}

/// The pieces of `text` that a list of ranges marks, each range from its
/// first position up to, but without, its second.
pub open spec fn pieces(text: Seq<char>, ranges: Seq<(usize, usize)>) -> Seq<Seq<char>> {
    Seq::new(ranges.len(), |i: int| text.subrange(ranges[i].0 as int, ranges[i].1 as int))
}

/// The first separator is where a separator stands with none before it; a
/// text without separator has it at its end.
pub proof fn lemma_first_index_of_is_at(s: Seq<char>, sep: char, at: int)
    requires
        0 <= at <= s.len(),
        forall|j: int| 0 <= j < at ==> s[j] != sep,
        at < s.len() ==> s[at] == sep,
    ensures
        first_index_of(s, sep) == at,
    decreases at,
{
    if at > 0 {
        lemma_first_index_of_is_at(s.drop_first(), sep, at - 1);
    }
}

/// Where the first separator stands, a separator stands unless the text has
/// none, and none stands before it.
pub proof fn lemma_first_index_of_is_first(s: Seq<char>, sep: char)
    ensures
        0 <= first_index_of(s, sep) <= s.len(),
        first_index_of(s, sep) < s.len() ==> s[first_index_of(s, sep)] == sep,
        forall|j: int| 0 <= j < first_index_of(s, sep) ==> s[j] != sep,
    decreases s.len(),
{
    if s.len() > 0 && s[0] != sep {
        let rest = s.drop_first();
        lemma_first_index_of_is_first(rest, sep);
        assert forall|j: int| 0 <= j < first_index_of(s, sep) implies s[j] != sep by {
            if j > 0 {
                assert(s[j] == rest[j - 1]);
            }
        }
    }
}

/// The pieces with the separator between each two of them.
pub open spec fn joined(pieces: Seq<Seq<char>>, sep: char) -> Seq<char>
    decreases pieces.len(),
{
    if pieces.len() == 0 {
        Seq::empty()
    } else if pieces.len() == 1 {
        pieces[0]
    } else {
        pieces[0] + seq![sep] + joined(pieces.skip(1), sep)
    }
}

/// Splitting loses nothing and leaves no separator behind: there is at least
/// one piece, no piece holds the separator, and the pieces joined by the
/// separator are the text again.
pub proof fn lemma_split_is_exact(s: Seq<char>, sep: char)
    ensures
        split(s, sep).len() >= 1,
        joined(split(s, sep), sep) == s,
        forall|i: int, j: int|
            0 <= i < split(s, sep).len() && 0 <= j < split(s, sep)[i].len() ==> split(
                s,
                sep,
            )[i][j] != sep,
    decreases s.len(),
{
    lemma_first_index_of_is_first(s, sep);
    let at = first_index_of(s, sep);
    if at < s.len() {
        let rest = s.skip(at + 1);
        lemma_split_is_exact(rest, sep);
        let all = split(s, sep);
        assert(all.skip(1) =~= split(rest, sep));
        assert(all[0] == s.take(at));
        assert(joined(all, sep) =~= s);
        assert forall|i: int, j: int| 0 <= i < all.len() && 0 <= j < all[i].len() implies all[i][j]
            != sep by {
            if i > 0 {
                assert(all[i] == split(rest, sep)[i - 1]);
            }
        }
    }
}

/// The ranges of the pieces of `text[start..end]` between its separators.
pub fn split_ranges(text: &Vec<char>, start: usize, end: usize, sep: char) -> (ranges: Vec<
    (usize, usize),
>)
    requires
        start <= end <= text.len(),
    ensures
        pieces(text@, ranges@) == split(text@.subrange(start as int, end as int), sep),
        forall|i: int|
            0 <= i < ranges.len() ==> start <= (#[trigger] ranges[i]).0 <= ranges[i].1 <= end,
{
    let mut ranges: Vec<(usize, usize)> = Vec::new();
    let mut piece_start: usize = start;
    let mut i: usize = start;
    while i < end
        invariant
            start <= piece_start <= i <= end <= text.len(),
            forall|j: int| piece_start <= j < i ==> text@[j] != sep,
            split(text@.subrange(start as int, end as int), sep) == pieces(text@, ranges@) + split(
                text@.subrange(piece_start as int, end as int),
                sep,
            ),
            forall|k: int|
                0 <= k < ranges.len() ==> start <= (#[trigger] ranges[k]).0 <= ranges[k].1 <= end,
        decreases end - i,
    {
        if text[i] == sep {
            proof {
                let rest = text@.subrange(piece_start as int, end as int);
                lemma_first_index_of_is_at(rest, sep, i - piece_start);
                assert(rest.take(i - piece_start) =~= text@.subrange(piece_start as int, i as int));
                assert(rest.skip(i - piece_start + 1) =~= text@.subrange(i + 1, end as int));
                assert(pieces(text@, ranges@.push((piece_start, i))) =~= pieces(text@, ranges@)
                    + seq![text@.subrange(piece_start as int, i as int)]);
            }
            ranges.push((piece_start, i));
            piece_start = i + 1;
        }
        i += 1;
    }
    proof {
        let rest = text@.subrange(piece_start as int, end as int);
        lemma_first_index_of_is_at(rest, sep, end - piece_start);
        assert(pieces(text@, ranges@.push((piece_start, end))) =~= pieces(text@, ranges@)
            + seq![rest]);
    }
    ranges.push((piece_start, end));
    ranges
}

/// A copy of `text[start..end]`.
pub fn copy_range(text: &Vec<char>, start: usize, end: usize) -> (copy: Vec<char>)
    requires
        start <= end <= text.len(),
    ensures
        copy@ == text@.subrange(start as int, end as int),
{
    let mut copy: Vec<char> = Vec::new();
    let mut i: usize = start;
    while i < end
        invariant
            start <= i <= end <= text.len(),
            copy@ == text@.subrange(start as int, i as int),
        decreases end - i,
    {
        copy.push(text[i]);
        assert(copy@ =~= text@.subrange(start as int, i + 1));
        i += 1;
    }
    copy
}

/// The character of a decimal digit.
pub open spec fn digit_char(digit: int) -> char {
    if digit == 0 {
        '0'
    } else if digit == 1 {
        '1'
    } else if digit == 2 {
        '2'
    } else if digit == 3 {
        '3'
    } else if digit == 4 {
        '4'
    } else if digit == 5 {
        '5'
    } else if digit == 6 {
        '6'
    } else if digit == 7 {
        '7'
    } else if digit == 8 {
        '8'
    } else {
        '9'
    }
}

/// The decimal digits of a natural number, most significant first, without
/// leading zeros.
pub open spec fn decimal_digits(n: nat) -> Seq<char>
    decreases n,
{
    if n < 10 {
        seq![digit_char(n as int)]
    } else {
        decimal_digits(n / 10).push(digit_char((n % 10) as int))
    }
}

/// The decimal notation of an integer: its digits, after a minus sign if it is
/// negative.
pub open spec fn decimal(n: int) -> Seq<char> {
    if n < 0 {
        seq!['-'] + decimal_digits((-n) as nat)
    } else {
        decimal_digits(n as nat)
    }
}

/// The digit that a character stands for; zero for every other character.
pub open spec fn digit_value(c: char) -> int {
    if c == '1' {
        1
    } else if c == '2' {
        2
    } else if c == '3' {
        3
    } else if c == '4' {
        4
    } else if c == '5' {
        5
    } else if c == '6' {
        6
    } else if c == '7' {
        7
    } else if c == '8' {
        8
    } else if c == '9' {
        9
    } else {
        0
    }
}

/// The number that a sequence of decimal digits stands for.
pub open spec fn decimal_value(digits: Seq<char>) -> int
    decreases digits.len(),
{
    if digits.len() == 0 {
        0
    } else {
        10 * decimal_value(digits.drop_last()) + digit_value(digits.last())
    }
}

/// The decimal digits of a number are digits, stand for the number, and begin
/// with a zero only where the number is zero.
pub proof fn lemma_decimal_digits_are_exact(n: nat)
    ensures
        decimal_digits(n).len() >= 1,
        forall|i: int|
            0 <= i < decimal_digits(n).len() ==> (#[trigger] decimal_digits(n)[i]) == digit_char(
                digit_value(decimal_digits(n)[i]),
            ),
        decimal_value(decimal_digits(n)) == n,
        decimal_digits(n)[0] == '0' <==> n == 0,
    decreases n,
{
    if n < 10 {
        let digits = decimal_digits(n);
        assert(digits.drop_last() =~= Seq::<char>::empty());
        assert(decimal_value(digits.drop_last()) == 0);
    } else {
        lemma_decimal_digits_are_exact(n / 10);
        let digits = decimal_digits(n);
        assert(digits.drop_last() =~= decimal_digits(n / 10));
    }
}

/// The characters of digits that are held least significant first.
pub open spec fn digits_backwards(digits: Seq<u8>) -> Seq<char> {
    Seq::new(digits.len(), |i: int| digit_char(digits[digits.len() - 1 - i] as int))
}

/// The one-character string of a decimal digit.
fn digit_str(digit: u8) -> (s: &'static str)
    requires
        digit < 10,
    ensures
        s@ == seq![digit_char(digit as int)],
{
    proof {
        reveal_strlit("0");
        reveal_strlit("1");
        reveal_strlit("2");
        reveal_strlit("3");
        reveal_strlit("4");
        reveal_strlit("5");
        reveal_strlit("6");
        reveal_strlit("7");
        reveal_strlit("8");
        reveal_strlit("9");
    }
    let s = if digit == 0 {
        "0"
    } else if digit == 1 {
        "1"
    } else if digit == 2 {
        "2"
    } else if digit == 3 {
        "3"
    } else if digit == 4 {
        "4"
    } else if digit == 5 {
        "5"
    } else if digit == 6 {
        "6"
    } else if digit == 7 {
        "7"
    } else if digit == 8 {
        "8"
    } else {
        "9"
    };
    assert(s@ =~= seq![digit_char(digit as int)]);
    s
}

/// The decimal digits of a number.
pub fn digits_string(n: u64) -> (text: String)
    ensures
        text@ == decimal_digits(n as nat),
{
    let mut digits: Vec<u8> = Vec::new();
    let mut rest: u64 = n;
    while rest >= 10
        invariant
            decimal_digits(n as nat) == decimal_digits(rest as nat) + digits_backwards(digits@),
            forall|i: int| 0 <= i < digits.len() ==> digits[i] < 10,
        decreases rest,
    {
        let ghost before = digits@;
        digits.push((rest % 10) as u8);
        assert(digits_backwards(digits@) =~= seq![digit_char((rest % 10) as int)]
            + digits_backwards(before));
        assert(decimal_digits(rest as nat) =~= decimal_digits((rest / 10) as nat) + seq![
            digit_char((rest % 10) as int),
        ]);
        rest = rest / 10;
    }
    let ghost before = digits@;
    digits.push(rest as u8);
    assert(digits_backwards(digits@) =~= decimal_digits(rest as nat) + digits_backwards(before));

    let mut text = String::new();
    let mut i: usize = digits.len();
    while i > 0
        invariant
            i <= digits.len(),
            forall|i: int| 0 <= i < digits.len() ==> digits[i] < 10,
            text@ == digits_backwards(digits@).take(digits.len() - i),
        decreases i,
    {
        i -= 1;
        text.append(digit_str(digits[i]));
        assert(text@ =~= digits_backwards(digits@).take(digits.len() - i));
    }
    assert(digits_backwards(digits@).take(digits.len() as int) =~= digits_backwards(digits@));
    text
}

/// The decimal notation of an integer.
pub fn decimal_string(n: i64) -> (text: String)
    ensures
        text@ == decimal(n as int),
{
    if n < 0 {
        let magnitude: u64 = (-(n + 1)) as u64 + 1;
        proof {
            reveal_strlit("-");
        }
        let mut text = String::new();
        text.append("-");
        text.append(digits_string(magnitude).as_str());
        assert(text@ =~= decimal(n as int));
        text
    } else {
        digits_string(n as u64)
    }
}

/// `to` before, between and after the characters of `s`.
pub open spec fn interleaved(s: Seq<char>, to: Seq<char>) -> Seq<char>
    decreases s.len(),
{
    if s.len() == 0 {
        to
    } else {
        to + seq![s[0]] + interleaved(s.skip(1), to)
    }
}

/// `s` with every occurrence of `from` replaced by `to`. The occurrences are
/// found from the left and do not overlap. The empty text occurs before,
/// between and after the characters of `s`.
pub open spec fn replaced(s: Seq<char>, from: Seq<char>, to: Seq<char>) -> Seq<char>
    decreases s.len(),
{
    if from.len() == 0 {
        interleaved(s, to)
    } else if s.len() < from.len() {
        s
    } else if occurs_at(s, from, 0) {
        to + replaced(s.skip(from.len() as int), from, to)
    } else {
        seq![s[0]] + replaced(s.skip(1), from, to)
    }
}

/// `text` with every occurrence of `from` replaced by `to`.
pub fn replace(text: &str, from: &str, to: &str) -> (out: String)
    ensures
        out@ == replaced(text@, from@, to@),
{
    let chars = chars_of(text);
    let pattern = chars_of(from);
    let mut out = String::new();
    if pattern.len() == 0 {
        out.append(to);
        let ghost mut done: Seq<char> = Seq::empty();
        let mut i: usize = 0;
        proof {
            assert(text@.skip(0) =~= text@);
            assert(out@ =~= done + to@);
            assert(interleaved(text@, to@) =~= done + interleaved(text@.skip(0), to@));
        }
        while i < chars.len()
            invariant
                i <= chars.len(),
                chars@ == text@,
                out@ == done + to@,
                interleaved(text@, to@) == done + interleaved(text@.skip(i as int), to@),
            decreases chars.len() - i,
        {
            proof {
                assert(text@.skip(i as int).skip(1) =~= text@.skip(i + 1));
                assert(text@.subrange(i as int, i + 1) =~= seq![text@[i as int]]);
                done = done + to@ + seq![text@[i as int]];
            }
            out.append(text.substring_char(i, i + 1));
            out.append(to);
            assert(out@ =~= done + to@);
            assert(interleaved(text@, to@) =~= done + interleaved(text@.skip(i + 1), to@));
            i += 1;
        }
        return out;
    }
    let mut run_start: usize = 0;
    let mut i: usize = 0;
    if pattern.len() <= chars.len() {
        let last: usize = chars.len() - pattern.len();
        proof {
            assert(text@.skip(0) =~= text@);
            assert(replaced(text@, from@, to@) =~= out@ + text@.subrange(0, 0) + replaced(
                text@.skip(0),
                from@,
                to@,
            ));
        }
        while i <= last
            invariant
                run_start <= i <= chars.len(),
                last == chars.len() - pattern.len(),
                pattern.len() > 0,
                chars@ == text@,
                pattern@ == from@,
                replaced(text@, from@, to@) == out@ + text@.subrange(run_start as int, i as int)
                    + replaced(text@.skip(i as int), from@, to@),
            decreases chars.len() - i,
        {
            let ghost rest = text@.skip(i as int);
            proof {
                assert(rest.subrange(0, from@.len() as int) =~= text@.subrange(
                    i as int,
                    i + from@.len(),
                ));
            }
            if chars_occur_at(&chars, &pattern, i) {
                proof {
                    assert(rest.skip(from@.len() as int) =~= text@.skip(i + from@.len()));
                }
                out.append(text.substring_char(run_start, i));
                out.append(to);
                i += pattern.len();
                run_start = i;
                assert(text@.subrange(run_start as int, i as int) =~= Seq::<char>::empty());
                assert(replaced(text@, from@, to@) =~= out@ + text@.subrange(
                    run_start as int,
                    i as int,
                ) + replaced(text@.skip(i as int), from@, to@));
            } else {
                proof {
                    assert(rest.skip(1) =~= text@.skip(i + 1));
                    assert(text@.subrange(run_start as int, i + 1) =~= text@.subrange(
                        run_start as int,
                        i as int,
                    ) + seq![rest[0]]);
                }
                i += 1;
                assert(replaced(text@, from@, to@) =~= out@ + text@.subrange(
                    run_start as int,
                    i as int,
                ) + replaced(text@.skip(i as int), from@, to@));
            }
        }
    }
    proof {
        assert(text@.subrange(run_start as int, i as int) + text@.skip(i as int) =~= text@.subrange(
            run_start as int,
            text@.len() as int,
        ));
    }
    out.append(text.substring_char(run_start, chars.len()));
    assert(out@ =~= replaced(text@, from@, to@));
    out
}

} // verus!
