//! Splitting command output into lines and words, and reading numbers from it.

use vstd::prelude::*;

verus! {

/// The characters with the Unicode property `White_Space`.
pub open spec fn is_blank(c: char) -> bool {
    ||| '\u{9}' <= c <= '\u{d}'
    ||| c == ' '
    ||| c == '\u{85}'
    ||| c == '\u{a0}'
    ||| c == '\u{1680}'
    ||| '\u{2000}' <= c <= '\u{200a}'
    ||| c == '\u{2028}'
    ||| c == '\u{2029}'
    ||| c == '\u{202f}'
    ||| c == '\u{205f}'
    ||| c == '\u{3000}'
}

/// Whether `c` is white space.
pub fn blank(c: char) -> (result: bool)
    ensures
        result == is_blank(c),
{
    ('\u{9}' <= c && c <= '\u{d}') || c == ' ' || c == '\u{85}' || c == '\u{a0}' || c
        == '\u{1680}' || ('\u{2000}' <= c && c <= '\u{200a}') || c == '\u{2028}' || c
        == '\u{2029}' || c == '\u{202f}' || c == '\u{205f}' || c == '\u{3000}'
}

/// The length of the run of non-blank characters that `s` starts with.
pub open spec fn word_len(s: Seq<char>) -> nat
    decreases s.len(),
{
    if s.len() == 0 || is_blank(s[0]) {
        0
    } else {
        1 + word_len(s.skip(1))
    }
}

/// The maximal runs of non-blank characters in `s`, in order.
pub open spec fn word_seq(s: Seq<char>) -> Seq<Seq<char>>
    decreases s.len(),
    via word_seq_decreases
{
    if s.len() == 0 {
        seq![]
    } else if is_blank(s[0]) {
        word_seq(s.skip(1))
    } else {
        seq![s.take(word_len(s) as int)] + word_seq(s.skip(word_len(s) as int))
    }
}

#[via_fn]
proof fn word_seq_decreases(s: Seq<char>) {
    lemma_word_len(s);
}

/// A word is at most as long as the text it is taken from.
proof fn lemma_word_len(s: Seq<char>)
    ensures
        word_len(s) <= s.len(),
        s.len() > 0 && !is_blank(s[0]) ==> word_len(s) > 0,
    decreases s.len(),
{
    if s.len() > 0 && !is_blank(s[0]) {
        lemma_word_len(s.skip(1));
    }
}

/// A word is not empty, and no character of it is blank.
pub proof fn law_words(s: Seq<char>, i: int)
    requires
        0 <= i < word_seq(s).len(),
    ensures
        word_seq(s)[i].len() > 0,
        forall|j: int| 0 <= j < word_seq(s)[i].len() ==> !is_blank(#[trigger] word_seq(s)[i][j]),
    decreases s.len(),
{
    lemma_word_len(s);
    if is_blank(s[0]) {
        law_words(s.skip(1), i);
    } else if i == 0 {
        lemma_word_not_blank(s);
        assert(word_seq(s)[0] == s.take(word_len(s) as int));
    } else {
        let rest = s.skip(word_len(s) as int);
        assert(word_seq(s)[i] == word_seq(rest)[i - 1]);
        law_words(rest, i - 1);
    }
}

/// The characters before the end of the first word are not blank.
proof fn lemma_word_not_blank(s: Seq<char>)
    ensures
        forall|j: int| 0 <= j < word_len(s) ==> !is_blank(#[trigger] s[j]),
    decreases s.len(),
{
    lemma_word_len(s);
    if s.len() > 0 && !is_blank(s[0]) {
        let rest = s.skip(1);
        lemma_word_not_blank(rest);
        assert forall|j: int| 0 <= j < word_len(s) implies !is_blank(#[trigger] s[j]) by {
            if j > 0 {
                assert(s[j] == rest[j - 1]);
            }
        }
    }
}

/// The characters of `text`.
fn char_vec(text: &str) -> (result: Vec<char>)
    ensures
        result@ == text@,
{
    let mut result: Vec<char> = Vec::new();
    for c in iter: text.chars()
        invariant
            iter.seq() == text@,
            result@ == text@.take(iter.index() as int),
    {
        result.push(c);
    }
    result
}

/// The words of `text`: its maximal runs of non-blank characters, in order.
pub fn words(text: &str) -> (result: Vec<String>)
    ensures
        result.deep_view() == word_seq(text@),
{
    let chars = char_vec(text);
    let mut result: Vec<String> = Vec::new();
    let mut start: usize = 0;
    assert(chars@.skip(0) == chars@);
    assert(result.deep_view() + word_seq(chars@) == word_seq(chars@));
    while start < chars.len()
        invariant
            chars@ == text@,
            start <= chars.len(),
            result.deep_view() + word_seq(text@.skip(start as int)) == word_seq(text@),
        decreases chars.len() - start,
    {
        let ghost rest = text@.skip(start as int);
        if blank(chars[start]) {
            assert(rest.skip(1) == text@.skip(start + 1));
            start = start + 1;
        } else {
            let end = word_end(&chars, start);
            let word = text.substring_char(start, end);
            proof {
                let n = word_len(rest) as int;
                lemma_word_len(rest);
                assert(rest.take(n) == text@.subrange(start as int, end as int));
                assert(rest.skip(n) == text@.skip(end as int));
            }
            let ghost before = result.deep_view();
            result.push(word.to_owned());
            assert(result.deep_view() == before.push(word@));
            assert(before + (seq![word@] + word_seq(text@.skip(end as int))) == before.push(word@)
                + word_seq(text@.skip(end as int)));
            start = end;
        }
    }
    assert(text@.skip(start as int) == Seq::<char>::empty());
    assert(result.deep_view() + Seq::<Seq<char>>::empty() == result.deep_view());
    result
}

/// The end of the word that begins at `start`.
fn word_end(chars: &Vec<char>, start: usize) -> (end: usize)
    requires
        start <= chars.len(),
    ensures
        start <= end <= chars.len(),
        end - start == word_len(chars@.skip(start as int)),
{
    let mut end: usize = start;
    while end < chars.len() && !blank(chars[end])
        invariant
            start <= end <= chars.len(),
            word_len(chars@.skip(start as int)) == end - start + word_len(chars@.skip(end as int)),
        decreases chars.len() - end,
    {
        assert(chars@.skip(end as int).skip(1) == chars@.skip(end + 1));
        end = end + 1;
    }
    end
}

/// `line` without the carriage return that it may end with.
pub open spec fn without_return(line: Seq<char>) -> Seq<char> {
    if line.len() > 0 && line.last() == '\r' {
        line.drop_last()
    } else {
        line
    }
}

/// The lines of `s`. A line ends with a line feed, or with a carriage return and a line feed;
/// neither belongs to the line, and the last line need not be ended.
pub open spec fn line_seq(s: Seq<char>) -> Seq<Seq<char>>
    decreases s.len(),
    via line_seq_decreases
{
    if s.len() == 0 {
        seq![]
    } else if !s.contains('\n') {
        seq![s]
    } else {
        let n = s.index_of_first('\n')->0;
        seq![without_return(s.take(n))] + line_seq(s.skip(n + 1))
    }
}

#[via_fn]
proof fn line_seq_decreases(s: Seq<char>) {
    s.index_of_first_ensures('\n');
}

/// The lines of `text`, without what ends them.
pub fn lines(text: &str) -> (result: Vec<String>)
    ensures
        result.deep_view() == line_seq(text@),
{
    let chars = char_vec(text);
    let mut result: Vec<String> = Vec::new();
    let mut start: usize = 0;
    assert(chars@.skip(0) == chars@);
    assert(result.deep_view() + line_seq(chars@) == line_seq(chars@));
    while start < chars.len()
        invariant
            chars@ == text@,
            start <= chars.len(),
            result.deep_view() + line_seq(text@.skip(start as int)) == line_seq(text@),
        decreases chars.len() - start,
    {
        let ghost rest = text@.skip(start as int);
        let end = line_end(&chars, start);
        let stop: usize = if end < chars.len() && start < end && chars[end - 1] == '\r' {
            end - 1
        } else {
            end
        };
        let line = text.substring_char(start, stop);
        let next: usize = if end < chars.len() {
            end + 1
        } else {
            end
        };
        proof {
            if end < chars.len() {
                let n = end - start;
                rest.index_of_first_ensures('\n');
                assert(rest[n] == '\n');
                assert(rest.contains('\n'));
                assert(rest.index_of_first('\n')->0 == n);
                assert(without_return(rest.take(n)) == line@);
                assert(rest.skip(n + 1) == text@.skip(next as int));
            } else {
                assert(!rest.contains('\n'));
                assert(rest == line@);
                assert(text@.skip(next as int) == Seq::<char>::empty());
            }
            assert(line_seq(rest) == seq![line@] + line_seq(text@.skip(next as int)));
        }
        let ghost before = result.deep_view();
        result.push(line.to_owned());
        assert(result.deep_view() == before.push(line@));
        assert(before + (seq![line@] + line_seq(text@.skip(next as int))) == before.push(line@)
            + line_seq(text@.skip(next as int)));
        start = next;
    }
    assert(text@.skip(start as int) == Seq::<char>::empty());
    assert(result.deep_view() + Seq::<Seq<char>>::empty() == result.deep_view());
    result
}

/// The position of the first line feed at or after `start`, or the end of `chars`.
fn line_end(chars: &Vec<char>, start: usize) -> (end: usize)
    requires
        start <= chars.len(),
    ensures
        start <= end <= chars.len(),
        forall|i: int| start <= i < end ==> chars@[i] != '\n',
        end < chars.len() ==> chars@[end as int] == '\n',
{
    let mut end: usize = start;
    while end < chars.len() && chars[end] != '\n'
        invariant
            start <= end <= chars.len(),
            forall|i: int| start <= i < end ==> chars@[i] != '\n',
        decreases chars.len() - end,
    {
        end = end + 1;
    }
    end
}

/// Whether `c` is one of the ten decimal digits.
pub open spec fn is_digit(c: char) -> bool {
    '0' <= c <= '9'
}

/// The number that the decimal digits in `s` write.
pub open spec fn decimal(s: Seq<char>) -> nat
    decreases s.len(),
{
    if s.len() == 0 {
        0
    } else {
        decimal(s.drop_last()) * 10 + (s.last() as nat - '0' as nat) as nat
    }
}

/// `s` without the plus sign that it may start with.
pub open spec fn unsigned(s: Seq<char>) -> Seq<char> {
    if s.len() > 0 && s[0] == '+' {
        s.skip(1)
    } else {
        s
    }
}

/// The number that `s` writes as decimal digits, of which there is at least one, after an
/// optional plus sign; nothing if `s` is of another form or the number exceeds 65535.
pub open spec fn u16_of(s: Seq<char>) -> Option<u16> {
    let digits = unsigned(s);
    if digits.len() > 0 && (forall|i: int| 0 <= i < digits.len() ==> is_digit(#[trigger] digits[i]))
        && decimal(digits) <= 65535 {
        Some(decimal(digits) as u16)
    } else {
        None
    }
}

/// More digits write no smaller number.
proof fn lemma_decimal_grows(s: Seq<char>, n: int)
    requires
        0 <= n <= s.len(),
    ensures
        decimal(s.take(n)) <= decimal(s),
    decreases s.len(),
{
    if n == s.len() {
        assert(s.take(n) == s);
    } else {
        lemma_decimal_grows(s.drop_last(), n);
        assert(s.drop_last().take(n) == s.take(n));
    }
}

/// Reads a number between 0 and 65535 that `text` writes in decimal.
pub fn parse_u16(text: &str) -> (result: Option<u16>)
    ensures
        result == u16_of(text@),
{
    let chars = char_vec(text);
    let first: usize = if chars.len() > 0 && chars[0] == '+' {
        1
    } else {
        0
    };
    let ghost digits = unsigned(text@);
    assert(digits == text@.skip(first as int));
    if first == chars.len() {
        return None;
    }
    let mut value: u32 = 0;
    let mut i: usize = first;
    assert(digits.take(0) == Seq::<char>::empty());
    while i < chars.len()
        invariant
            chars@ == text@,
            first <= i <= chars.len(),
            digits == text@.skip(first as int),
            digits == unsigned(text@),
            forall|j: int| 0 <= j < i - first ==> is_digit(#[trigger] digits[j]),
            value == decimal(digits.take(i - first)),
            value <= 65535,
        decreases chars.len() - i,
    {
        let c = chars[i];
        assert(digits[i - first] == c);
        if c < '0' || '9' < c {
            return None;
        }
        assert(digits.take(i + 1 - first).drop_last() == digits.take(i - first));
        value = value * 10 + (c as u32 - '0' as u32);
        if value > 65535 {
            proof {
                lemma_decimal_grows(digits, i + 1 - first);
            }
            return None;
        }
        i = i + 1;
    }
    assert(digits.take(i - first) == digits);
    Some(value as u16)
}

/// The decimal digit for `n`.
pub open spec fn digit(n: nat) -> char
    recommends
        n < 10,
{
    (n + '0' as nat) as char
}

/// The decimal digits that write `n`.
pub open spec fn digits_of(n: nat) -> Seq<char>
    decreases n,
{
    if n < 10 {
        seq![digit(n)]
    } else {
        digits_of(n / 10).push(digit(n % 10))
    }
}

/// Writes `n` in decimal.
pub fn decimal_text(n: u16) -> (result: String)
    ensures
        result@ == digits_of(n as nat),
    decreases n,
{
    let last: usize = (n % 10) as usize;
    let digits = "0123456789";
    proof {
        reveal_strlit("0123456789");
        assert(digits@.len() == 10);
        assert(digits@[last as int] == digit((n % 10) as nat));
    }
    let text = digits.substring_char(last, last + 1);
    assert(text@ == seq![digit((n % 10) as nat)]);
    if n < 10 {
        text.to_owned()
    } else {
        let mut result = decimal_text(n / 10);
        result.append(text);
        assert(result@ == digits_of(n as nat));
        result
    }
}

/// A number that is written in decimal reads as the number.
pub proof fn law_decimal_text(n: u16)
    ensures
        u16_of(digits_of(n as nat)) == Some(n),
{
    lemma_digits(n as nat);
}

/// The digits of a number are digits, and write the number.
proof fn lemma_digits(n: nat)
    ensures
        digits_of(n).len() > 0,
        forall|i: int| 0 <= i < digits_of(n).len() ==> is_digit(#[trigger] digits_of(n)[i]),
        decimal(digits_of(n)) == n,
    decreases n,
{
    if n < 10 {
        assert(seq![digit(n)].drop_last() == Seq::<char>::empty());
        assert(decimal(seq![digit(n)].drop_last()) == 0);
    } else {
        lemma_digits(n / 10);
        assert(digits_of(n).drop_last() == digits_of(n / 10));
    }
}

/// Whether two texts hold the same characters.
pub fn same(a: &str, b: &str) -> (result: bool)
    ensures
        result == (a@ == b@),
{
    a.to_owned() == b.to_owned()
}

/// The white space is the 25 characters that Unicode counts as such, and no other.
pub proof fn law_blank(c: char)
    ensures
        is_blank(c) <==> seq![
            0x9int, 0xa, 0xb, 0xc, 0xd, 0x20, 0x85, 0xa0, 0x1680, 0x2000, 0x2001, 0x2002, 0x2003,
            0x2004, 0x2005, 0x2006, 0x2007, 0x2008, 0x2009, 0x200a, 0x2028, 0x2029, 0x202f, 0x205f,
            0x3000,
        ].contains(c as int),
{
    let all = seq![
        0x9int, 0xa, 0xb, 0xc, 0xd, 0x20, 0x85, 0xa0, 0x1680, 0x2000, 0x2001, 0x2002, 0x2003,
        0x2004, 0x2005, 0x2006, 0x2007, 0x2008, 0x2009, 0x200a, 0x2028, 0x2029, 0x202f, 0x205f,
        0x3000,
    ];
    if is_blank(c) {
        let i: int = if c as int <= 0xd {
            c as int - 0x9
        } else if c as int == 0x20 {
            5
        } else if c as int == 0x85 {
            6
        } else if c as int == 0xa0 {
            7
        } else if c as int == 0x1680 {
            8
        } else if c as int <= 0x200a {
            c as int - 0x2000 + 9
        } else if c as int == 0x2028 {
            20
        } else if c as int == 0x2029 {
            21
        } else if c as int == 0x202f {
            22
        } else if c as int == 0x205f {
            23
        } else {
            24
        };
        assert(all[i] == c as int);
    }
}

/// White space separates words: the words of a text are those before a blank and those after it.
pub proof fn law_words_split(a: Seq<char>, c: char, b: Seq<char>)
    requires
        is_blank(c),
    ensures
        word_seq(a.push(c) + b) == word_seq(a) + word_seq(b),
    decreases a.len(),
{
    let s = a.push(c) + b;
    if a.len() == 0 {
        assert(s.skip(1) == b);
        assert(word_seq(a) + word_seq(b) == word_seq(b));
    } else if is_blank(a[0]) {
        law_words_split(a.skip(1), c, b);
        assert(s.skip(1) == a.skip(1).push(c) + b);
    } else {
        let n = word_len(a) as int;
        lemma_word_len(a);
        lemma_word_len_split(a, c, b);
        law_words_split(a.skip(n), c, b);
        assert(s.take(n) == a.take(n));
        assert(s.skip(n) == a.skip(n).push(c) + b);
        assert(seq![a.take(n)] + (word_seq(a.skip(n)) + word_seq(b)) == (seq![a.take(n)]
            + word_seq(a.skip(n))) + word_seq(b));
    }
}

/// A word ends at the first blank.
proof fn lemma_word_len_split(a: Seq<char>, c: char, b: Seq<char>)
    requires
        is_blank(c),
    ensures
        word_len(a.push(c) + b) == word_len(a),
    decreases a.len(),
{
    if a.len() > 0 && !is_blank(a[0]) {
        lemma_word_len_split(a.skip(1), c, b);
        assert((a.push(c) + b).skip(1) == a.skip(1).push(c) + b);
    }
}

/// A text without white space is one word, unless it is empty.
pub proof fn law_one_word(w: Seq<char>)
    requires
        forall|i: int| 0 <= i < w.len() ==> !is_blank(#[trigger] w[i]),
    ensures
        w.len() > 0 ==> word_seq(w) == seq![w],
        w.len() == 0 ==> word_seq(w).len() == 0,
{
    lemma_all_word(w);
    if w.len() > 0 {
        assert(w.take(w.len() as int) == w);
        assert(w.skip(w.len() as int) == Seq::<char>::empty());
        assert(word_seq(w.skip(w.len() as int)).len() == 0);
        assert(word_seq(w) == seq![w]);
    }
}

/// A text without white space is a word as long as itself.
proof fn lemma_all_word(w: Seq<char>)
    requires
        forall|i: int| 0 <= i < w.len() ==> !is_blank(#[trigger] w[i]),
    ensures
        word_len(w) == w.len(),
    decreases w.len(),
{
    if w.len() > 0 {
        let rest = w.skip(1);
        assert forall|i: int| 0 <= i < rest.len() implies !is_blank(#[trigger] rest[i]) by {
            assert(rest[i] == w[i + 1]);
        }
        lemma_all_word(rest);
        assert(!is_blank(w[0]));
    }
}

/// A line feed ends a line, and a carriage return before it goes with it.
pub proof fn law_lines_split(a: Seq<char>, b: Seq<char>)
    requires
        !a.contains('\n'),
    ensures
        a.len() == 0 || a.last() != '\r' ==> line_seq(a.push('\n') + b) == seq![a] + line_seq(b),
        line_seq(a.push('\r').push('\n') + b) == seq![a] + line_seq(b),
{
    lemma_first_line(a, b);
    let returned = a.push('\r');
    assert forall|i: int| 0 <= i < returned.len() implies returned[i] != '\n' by {
        if i < a.len() {
            assert(a.contains(a[i]));
        }
    }
    lemma_first_line(returned, b);
    assert(returned.drop_last() == a);
}

/// The first line of a text is what comes before the first line feed.
proof fn lemma_first_line(a: Seq<char>, b: Seq<char>)
    requires
        !a.contains('\n'),
    ensures
        line_seq(a.push('\n') + b) == seq![without_return(a)] + line_seq(b),
{
    let s = a.push('\n') + b;
    let n = a.len() as int;
    assert(s[n] == '\n');
    assert(s.contains('\n'));
    s.index_of_first_ensures('\n');
    let first = s.index_of_first('\n')->0;
    if first < n {
        assert(a[first] == '\n');
        assert(a.contains('\n'));
    }
    assert(first == n);
    assert(s.take(n) == a);
    assert(s.skip(n + 1) == b);
}

/// A text without line feeds is one line, unless it is empty.
pub proof fn law_one_line(a: Seq<char>)
    requires
        !a.contains('\n'),
    ensures
        a.len() > 0 ==> line_seq(a) == seq![a],
        a.len() == 0 ==> line_seq(a).len() == 0,
{
}

/// A single decimal digit reads as its value, and no other single character as a number.
pub proof fn law_number_single(c: char)
    ensures
        forall|d: int| 0 <= d < 10 && c == #[trigger] "0123456789"@[d] ==> u16_of(seq![c]) == Some(
            d as u16,
        ),
        !"0123456789"@.contains(c) ==> u16_of(seq![c]) is None,
        u16_of(seq![]) is None,
{
    reveal_strlit("0123456789");
    let s = seq![c];
    assert(s.drop_last() == Seq::<char>::empty());
    assert(decimal(s.drop_last()) == 0);
    assert(unsigned(s) == if c == '+' {
        Seq::<char>::empty()
    } else {
        s
    });
    if c != '+' && !is_digit(c) {
        assert(!is_digit(unsigned(s)[0]));
    }
    if is_digit(c) {
        assert("0123456789"@[c as int - '0' as int] == c);
        assert(u16_of(s) == Some((c as int - '0' as int) as u16));
    }
}

/// One more digit multiplies a number by ten and adds the digit, as long as the number does not
/// exceed 65535; what is no number does not become one.
pub proof fn law_number_grows(s: Seq<char>, c: char)
    requires
        s.len() > 0,
        s[0] != '+',
    ensures
        u16_of(s) is None ==> u16_of(s.push(c)) is None,
        !"0123456789"@.contains(c) ==> u16_of(s.push(c)) is None,
        forall|d: int|
            0 <= d < 10 && c == #[trigger] "0123456789"@[d] && u16_of(s) is Some ==> u16_of(
                s.push(c),
            ) == if u16_of(s)->0 * 10 + d <= 65535 {
                Some((u16_of(s)->0 * 10 + d) as u16)
            } else {
                None
            },
{
    reveal_strlit("0123456789");
    let t = s.push(c);
    assert(unsigned(s) == s);
    assert(unsigned(t) == t);
    assert(t.drop_last() == s);
    assert(decimal(t) == decimal(s) * 10 + (c as nat - '0' as nat) as nat);
    if is_digit(c) {
        assert("0123456789"@[c as int - '0' as int] == c);
        if forall|i: int| 0 <= i < s.len() ==> is_digit(#[trigger] s[i]) {
            assert forall|i: int| 0 <= i < t.len() implies is_digit(#[trigger] t[i]) by {
                if i < s.len() {
                    assert(is_digit(s[i]));
                }
            }
        } else {
            let i = choose|i: int| 0 <= i < s.len() && !is_digit(#[trigger] s[i]);
            assert(!is_digit(t[i]));
        }
    } else {
        assert(!is_digit(t[s.len() as int]));
    }
}

/// A number may be written with one plus sign.
pub proof fn law_number_sign(s: Seq<char>)
    ensures
        s.len() == 0 || s[0] != '+' ==> u16_of(seq!['+'] + s) == u16_of(s),
        s.len() > 0 && s[0] == '+' ==> u16_of(seq!['+'] + s) is None,
{
    let t = seq!['+'] + s;
    assert(t.skip(1) == s);
    assert(unsigned(t) == s);
    if s.len() > 0 && s[0] == '+' {
        assert(!is_digit(s[0]));
    }
}

/// Numbers are written in decimal: a number below ten is its digit, and a greater one is written
/// with its last digit after the digits of its tenth.
pub proof fn law_digits(n: nat, d: int)
    requires
        0 <= d < 10,
    ensures
        digits_of(d as nat) == seq!["0123456789"@[d]],
        n > 0 ==> digits_of((n * 10 + d) as nat) == digits_of(n).push("0123456789"@[d]),
{
    reveal_strlit("0123456789");
    assert("0123456789"@[d] == digit(d as nat));
    let m = (n * 10 + d) as nat;
    assert(m / 10 == n && m % 10 == d);
}

/// A number that exceeds 65535 does not read as a number.
pub proof fn law_number_bound(n: nat)
    ensures
        n <= 65535 ==> u16_of(digits_of(n)) == Some(n as u16),
        n > 65535 ==> u16_of(digits_of(n)) is None,
{
    lemma_digits(n);
    let s = digits_of(n);
    assert(is_digit(s[0]));
    assert(unsigned(s) == s);
}

} // verus!
