use vstd::prelude::*;

verus! {

/// Calls `String::push`, which appends the character `c` at the end of `text`.
#[verifier::external_body]
pub(crate) fn push_char(text: &mut String, c: char)
    ensures
        final(text)@ == old(text)@.push(c),
{
    text.push(c);
}

/// The character that stands for a decimal digit.
pub open spec fn digit_char(digit: nat) -> char {
    if digit == 0 {
        '0'
    } else if digit == 1 {
        '1'
    } else if digit == 2 {
        '2'
    } else if digit == 3 {
        '3'
    } else if digit == 4 {
        '4'
    } else if digit == 5 {
        '5'
    } else if digit == 6 {
        '6'
    } else if digit == 7 {
        '7'
    } else if digit == 8 {
        '8'
    } else {
        '9'
    }
}

/// A number written in decimal, without leading zeros.
pub open spec fn decimal(n: nat) -> Seq<char>
    decreases n,
{
    if n < 10 {
        seq![digit_char(n)]
    } else {
        decimal(n / 10).push(digit_char(n % 10))
    }
}

/// A number written in decimal and filled up with zeros on the left to at
/// least `width` characters.
pub open spec fn zero_padded(n: nat, width: nat) -> Seq<char> {
    if decimal(n).len() >= width {
        decimal(n)
    } else {
        Seq::new((width - decimal(n).len()) as nat, |i: int| '0') + decimal(n)
    }
}

/// How many digits a number has in decimal.
pub open spec fn decimal_width(n: nat) -> nat
    decreases n,
{
    if n < 10 {
        1
    } else {
        decimal_width(n / 10) + 1
    }
}

/// A number has as many decimal digits as its decimal text has characters.
pub proof fn lemma_decimal_len(n: nat)
    ensures
        decimal(n).len() == decimal_width(n),
    decreases n,
{
    if n >= 10 {
        lemma_decimal_len(n / 10);
    }
}

/// A 64-bit number has at most twenty decimal digits.
pub proof fn lemma_decimal_width_bound(n: nat)
    requires
        n <= u64::MAX,
    ensures
        1 <= decimal_width(n) <= 20,
{
    reveal_with_fuel(decimal_width, 21);
}

fn digit(d: u64) -> (c: char)
    requires
        d < 10,
    ensures
        c == digit_char(d as nat),
{
    if d == 0 {
        '0'
    } else if d == 1 {
        '1'
    } else if d == 2 {
        '2'
    } else if d == 3 {
        '3'
    } else if d == 4 {
        '4'
    } else if d == 5 {
        '5'
    } else if d == 6 {
        '6'
    } else if d == 7 {
        '7'
    } else if d == 8 {
        '8'
    } else {
        '9'
    }
}

/// Appends `n` in decimal to `text`.
pub fn push_decimal(text: &mut String, n: u64)
    ensures
        final(text)@ == old(text)@ + decimal(n as nat),
    decreases n,
{
    if n >= 10 {
        push_decimal(text, n / 10);
    }
    push_char(text, digit(n % 10));
    assert(text@ =~= old(text)@ + decimal(n as nat));
}

/// How many decimal digits `n` has.
pub fn count_digits(n: u64) -> (width: usize)
    ensures
        width == decimal_width(n as nat),
        1 <= width <= 20,
{
    let mut rest: u64 = n;
    let mut width: usize = 1;
    proof {
        lemma_decimal_width_bound(n as nat);
    }
    while rest >= 10
        invariant
            1 <= width,
            width + decimal_width(rest as nat) == 1 + decimal_width(n as nat),
            decimal_width(n as nat) <= 20,
        decreases rest,
    {
        rest = rest / 10;
        width = width + 1;
    }
    width
}

/// Appends `n` in decimal to `text`, filled up with zeros on the left to at
/// least `width` characters.
pub fn push_zero_padded(text: &mut String, n: u64, width: usize)
    ensures
        final(text)@ == old(text)@ + zero_padded(n as nat, width as nat),
{
    let digits = count_digits(n);
    proof {
        lemma_decimal_len(n as nat);
    }
    let mut filled: usize = digits;
    while filled < width
        invariant
            digits <= filled,
            filled == digits || filled <= width,
            text@ == old(text)@ + Seq::new((filled - digits) as nat, |i: int| '0'),
        decreases width - filled,
    {
        push_char(text, '0');
        filled = filled + 1;
        assert(text@ =~= old(text)@ + Seq::new((filled - digits) as nat, |i: int| '0'));
    }
    let ghost before = text@;
    push_decimal(text, n);
    proof {
        if digits >= width {
            assert(filled == digits);
            assert(Seq::new((filled - digits) as nat, |i: int| '0') =~= Seq::<char>::empty());
            assert(before =~= old(text)@);
        } else {
            assert(text@ =~= old(text)@ + zero_padded(n as nat, width as nat));
        }
    }
}

/// The text of `n` in decimal.
pub fn decimal_string(n: u64) -> (text: String)
    ensures
        text@ == decimal(n as nat),
{
    let mut text = String::new();
    push_decimal(&mut text, n);
    assert(text@ =~= decimal(n as nat));
    text
}

/// Copies a text.
pub fn copy_str(text: &str) -> (copy: String)
    ensures
        copy@ == text@,
{
    String::from_str(text)
}

/// Appends `tail` to `text`.
pub fn push_text(text: &mut String, tail: &str)
    ensures
        final(text)@ == old(text)@ + tail@,
{
    text.append(tail);
}

/// Whether `needle` stands in `text` at the character index `at`.
pub open spec fn occurs_at(text: Seq<char>, needle: Seq<char>, at: int) -> bool {
    0 <= at && at + needle.len() <= text.len() && text.subrange(at, at + needle.len()) == needle
}

/// Whether `needle` stands somewhere in `text`.
pub open spec fn contains_text(text: Seq<char>, needle: Seq<char>) -> bool {
    exists|at: int| occurs_at(text, needle, at)
}

/// The characters of a text.
pub fn chars_of(text: &str) -> (chars: Vec<char>)
    ensures
        chars@ == text@,
{
    let mut chars: Vec<char> = Vec::new();
    for c in it: text.chars()
        invariant
            it.seq() == text@,
            chars@ == text@.take(it.index()),
    {
        chars.push(c);
        assert(text@.take(it.index() + 1) =~= text@.take(it.index()).push(c));
    }
    assert(text@.take(text@.len() as int) =~= text@);
    chars
}

/// The text that characters make up.
pub fn string_of(chars: &Vec<char>) -> (text: String)
    ensures
        text@ == chars@,
{
    let mut text = String::new();
    let mut i: usize = 0;
    while i < chars.len()
        invariant
            i <= chars.len(),
            text@ == chars@.take(i as int),
        decreases chars.len() - i,
    {
        push_char(&mut text, chars[i]);
        assert(chars@.take(i + 1) =~= chars@.take(i as int).push(chars@[i as int]));
        i = i + 1;
    }
    assert(chars@.take(chars.len() as int) =~= chars@);
    text
}

/// Whether `needle` stands in `text` at the index `at`.
pub fn matches_at(text: &Vec<char>, needle: &Vec<char>, at: usize) -> (found: bool)
    ensures
        found == occurs_at(text@, needle@, at as int),
{
    if needle.len() > text.len() || at > text.len() - needle.len() {
        return false;
    }
    let mut k: usize = 0;
    while k < needle.len()
        invariant
            k <= needle.len(),
            at + needle.len() <= text.len(),
            text@.subrange(at as int, at + k) == needle@.take(k as int),
        decreases needle.len() - k,
    {
        if text[at + k] != needle[k] {
            assert(text@.subrange(at as int, at + needle.len())[k as int] != needle@[k as int]);
            return false;
        }
        proof {
            assert(text@.subrange(at as int, at + k + 1) =~= text@.subrange(at as int, at + k).push(
                text@[at + k],
            ));
            assert(needle@.take(k + 1) =~= needle@.take(k as int).push(needle@[k as int]));
        }
        k = k + 1;
    }
    assert(needle@.take(needle.len() as int) =~= needle@);
    true
}

/// The first index at or behind `from` at which `needle` stands in `text`.
pub fn find_from(text: &Vec<char>, needle: &Vec<char>, from: usize) -> (found: Option<usize>)
    ensures
        match found {
            Some(at) => from <= at && occurs_at(text@, needle@, at as int) && forall|k: int|
                from <= k < at ==> !occurs_at(text@, needle@, k),
            None => forall|k: int| from <= k ==> !occurs_at(text@, needle@, k),
        },
{
    let mut at: usize = from;
    while at <= text.len()
        invariant
            from <= at,
            forall|k: int| from <= k < at ==> !occurs_at(text@, needle@, k),
        decreases text.len() + 1 - at,
    {
        if matches_at(text, needle, at) {
            return Some(at);
        }
        if at == text.len() {
            return None;
        }
        at = at + 1;
    }
    None
}

/// Whether `needle` stands somewhere in `text`.
pub fn contains(text: &str, needle: &str) -> (found: bool)
    ensures
        found == contains_text(text@, needle@),
{
    let text = chars_of(text);
    let needle = chars_of(needle);
    find_from(&text, &needle, 0).is_some()
}

/// The text with every occurrence of `from` replaced by `to`. Occurrences
/// are taken from the left and do not overlap. An empty `from` occurs
/// nowhere.
pub open spec fn replaced(text: Seq<char>, from: Seq<char>, to: Seq<char>) -> Seq<char>
    decreases text.len(),
{
    if from.len() == 0 || text.len() < from.len() {
        text
    } else if occurs_at(text, from, 0) {
        to + replaced(text.skip(from.len() as int), from, to)
    } else {
        seq![text[0]] + replaced(text.skip(1), from, to)
    }
}

/// Replaces every occurrence of `from` in `text` by `to`.
pub fn replace(text: &Vec<char>, from: &Vec<char>, to: &Vec<char>) -> (result: Vec<char>)
    ensures
        result@ == replaced(text@, from@, to@),
{
    let mut result: Vec<char> = Vec::new();
    let mut i: usize = 0;
    proof {
        assert(text@.skip(0) =~= text@);
    }
    if from.len() == 0 {
        while i < text.len()
            invariant
                i <= text.len(),
                result@ == text@.take(i as int),
            decreases text.len() - i,
        {
            result.push(text[i]);
            assert(text@.take(i + 1) =~= text@.take(i as int).push(text@[i as int]));
            i = i + 1;
        }
        assert(text@.take(text.len() as int) =~= text@);
        return result;
    }
    while i < text.len()
        invariant
            i <= text.len(),
            from.len() > 0,
            result@ + replaced(text@.skip(i as int), from@, to@) == replaced(text@, from@, to@),
        decreases text.len() - i,
    {
        let ghost rest = text@.skip(i as int);
        let ghost before = result@;
        if matches_at(text, from, i) {
            proof {
                assert(rest.subrange(0, from.len() as int) =~= text@.subrange(
                    i as int,
                    i + from.len(),
                ));
                assert(occurs_at(rest, from@, 0));
                assert(rest.skip(from.len() as int) =~= text@.skip(i + from.len()));
            }
            let mut k: usize = 0;
            while k < to.len()
                invariant
                    k <= to.len(),
                    result@ == before + to@.take(k as int),
                decreases to.len() - k,
            {
                result.push(to[k]);
                assert(to@.take(k + 1) =~= to@.take(k as int).push(to@[k as int]));
                assert(result@ =~= before + to@.take(k + 1));
                k = k + 1;
            }
            proof {
                assert(to@.take(to.len() as int) =~= to@);
                assert(result@ + replaced(text@.skip(i + from.len()), from@, to@) =~= before + (to@
                    + replaced(rest.skip(from.len() as int), from@, to@)));
            }
            i = i + from.len();
        } else {
            proof {
                if rest.len() >= from.len() {
                    assert(rest.subrange(0, from.len() as int) =~= text@.subrange(
                        i as int,
                        i + from.len(),
                    ));
                    assert(!occurs_at(rest, from@, 0));
                    assert(rest.skip(1) =~= text@.skip(i + 1));
                    assert(replaced(rest, from@, to@) == seq![rest[0]] + replaced(
                        rest.skip(1),
                        from@,
                        to@,
                    ));
                } else {
                    lemma_replaced_short(rest, from@, to@);
                    assert(rest.skip(1) =~= text@.skip(i + 1));
                    lemma_replaced_short(rest.skip(1), from@, to@);
                    assert(rest =~= seq![rest[0]] + rest.skip(1));
                }
            }
            result.push(text[i]);
            proof {
                assert(result@ + replaced(text@.skip(i + 1), from@, to@) =~= before + (seq![rest[0]]
                    + replaced(rest.skip(1), from@, to@)));
            }
            i = i + 1;
        }
    }
    proof {
        assert(text@.skip(text.len() as int).len() == 0);
        lemma_replaced_short(text@.skip(text.len() as int), from@, to@);
        assert(result@ + text@.skip(text.len() as int) =~= result@);
    }
    result
}

/// A text that is shorter than what is to be replaced stays as it is.
pub proof fn lemma_replaced_short(text: Seq<char>, from: Seq<char>, to: Seq<char>)
    requires
        text.len() < from.len(),
    ensures
        replaced(text, from, to) == text,
{
}

/// State of a left-to-right scan that cuts `text` at every `sep`: the pieces
/// that a separator has closed, and the piece that is still open.
pub open spec fn scan_pieces(text: Seq<char>, sep: char) -> (Seq<Seq<char>>, Seq<char>)
    decreases text.len(),
{
    if text.len() == 0 {
        (Seq::empty(), Seq::empty())
    } else {
        let (closed, open) = scan_pieces(text.drop_last(), sep);
        if text.last() == sep {
            (closed.push(open), Seq::empty())
        } else {
            (closed, open.push(text.last()))
        }
    }
}

/// The pieces of `text` between its separators; there is always at least
/// one.
pub open spec fn split_pieces(text: Seq<char>, sep: char) -> Seq<Seq<char>> {
    scan_pieces(text, sep).0.push(scan_pieces(text, sep).1)
}

/// The texts, in the model.
pub open spec fn views_of(texts: Seq<String>) -> Seq<Seq<char>> {
    texts.map_values(|text: String| text@)
}

/// Cuts a text at every `sep`.
pub fn split(text: &str, sep: char) -> (pieces: Vec<String>)
    ensures
        views_of(pieces@) == split_pieces(text@, sep),
{
    let mut pieces: Vec<String> = Vec::new();
    let mut open = String::new();
    assert(views_of(pieces@) =~= Seq::<Seq<char>>::empty());
    for c in it: text.chars()
        invariant
            it.seq() == text@,
            scan_pieces(text@.take(it.index()), sep) == (views_of(pieces@), open@),
    {
        proof {
            assert(text@.take(it.index() + 1).drop_last() =~= text@.take(it.index()));
        }
        if c == sep {
            let ghost before = views_of(pieces@);
            pieces.push(open);
            assert(views_of(pieces@) =~= before.push(open@));
            open = String::new();
        } else {
            push_char(&mut open, c);
        }
    }
    proof {
        assert(text@.take(text@.len() as int) =~= text@);
    }
    let ghost before = views_of(pieces@);
    pieces.push(open);
    assert(views_of(pieces@) =~= before.push(open@));
    pieces
}

/// How many characters at the start of a text are `c`.
pub open spec fn leading(text: Seq<char>, c: char) -> nat
    decreases text.len(),
{
    if text.len() > 0 && text[0] == c {
        1 + leading(text.skip(1), c)
    } else {
        0
    }
}

/// How many characters at the end of a text are `c`.
pub open spec fn trailing(text: Seq<char>, c: char) -> nat
    decreases text.len(),
{
    if text.len() > 0 && text.last() == c {
        1 + trailing(text.drop_last(), c)
    } else {
        0
    }
}

/// A text without the characters `c` at its start and at its end.
pub open spec fn trimmed(text: Seq<char>, c: char) -> Seq<char> {
    let rest = text.skip(leading(text, c) as int);
    rest.take(rest.len() - trailing(rest, c))
}

/// Takes the characters `c` away from the start and the end of a text.
pub fn trim_matches(text: &str, c: char) -> (result: String)
    ensures
        result@ == trimmed(text@, c),
{
    let chars = chars_of(text);
    let mut start: usize = 0;
    proof {
        assert(chars@.skip(0) =~= chars@);
    }
    while start < chars.len() && chars[start] == c
        invariant
            start <= chars.len(),
            leading(chars@, c) == start + leading(chars@.skip(start as int), c),
        decreases chars.len() - start,
    {
        proof {
            assert(chars@.skip(start as int).skip(1) =~= chars@.skip(start + 1));
        }
        start = start + 1;
    }
    let ghost rest = chars@.skip(start as int);
    let mut end: usize = chars.len();
    proof {
        assert(rest.take(rest.len() as int) =~= rest);
    }
    while end > start && chars[end - 1] == c
        invariant
            start <= end <= chars.len(),
            rest == chars@.skip(start as int),
            trailing(rest, c) == (chars.len() - end) + trailing(rest.take(end - start), c),
        decreases end,
    {
        proof {
            assert(rest.take(end - start).drop_last() =~= rest.take(end - start - 1));
            assert(rest.take(end - start).last() == chars@[end - 1]);
        }
        end = end - 1;
    }
    proof {
        assert(leading(rest, c) == 0);
        let kept = rest.take(end - start);
        assert(trailing(kept, c) == 0) by {
            if kept.len() > 0 {
                assert(kept.last() == chars@[end - 1]);
            }
        }
    }
    let mut result = String::new();
    let mut i: usize = start;
    while i < end
        invariant
            start <= i <= end <= chars.len(),
            result@ == chars@.subrange(start as int, i as int),
        decreases end - i,
    {
        push_char(&mut result, chars[i]);
        assert(chars@.subrange(start as int, i + 1) =~= chars@.subrange(start as int, i as int).push(
            chars@[i as int],
        ));
        i = i + 1;
    }
    proof {
        assert(chars@.subrange(start as int, end as int) =~= rest.take(end - start));
    }
    result
}

} // verus!
