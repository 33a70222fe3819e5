//! Text helpers: concatenation, comparison, decimal rendering, trimming and
//! joining, each stated over the sequence of characters that a string holds.
use vstd::arithmetic::div_mod::lemma_div_denominator;
use vstd::arithmetic::power::{lemma_pow_positive, pow};
use vstd::prelude::*;
use vstd::string::*;

verus! {

/// `a` followed by `b`.
pub fn concat_text(a: &str, b: &str) -> (r: String)
    ensures
        r@ == a@ + b@,
{
    let mut out = a.to_owned();
    out.append(b);
    out
}

/// Whether two strings hold the same characters.
pub fn same_text(a: &str, b: &str) -> (r: bool)
    ensures
        r == (a@ == b@),
{
    a.to_owned() == b.to_owned()
}

/// The character of a decimal digit.
pub open spec fn digit_char(d: int) -> char {
    (('0' as int) + d) as char
}

/// The decimal rendering of `n`, without leading zeros.
pub open spec fn decimal_text(n: nat) -> Seq<char>
    decreases n,
{
    if n < 10 {
        seq![digit_char(n as int)]
    } else {
        decimal_text(n / 10).push(digit_char((n % 10) as int))
    }
}

fn digit_str(d: u64) -> (r: &'static str)
    requires
        d < 10,
    ensures
        r@ == seq![digit_char(d as int)],
{
    proof {
        reveal_strlit("0");
        reveal_strlit("1");
        reveal_strlit("2");
        reveal_strlit("3");
        reveal_strlit("4");
        reveal_strlit("5");
        reveal_strlit("6");
        reveal_strlit("7");
        reveal_strlit("8");
        reveal_strlit("9");
    }
    if d == 0 {
        "0"
    } else if d == 1 {
        "1"
    } else if d == 2 {
        "2"
    } else if d == 3 {
        "3"
    } else if d == 4 {
        "4"
    } else if d == 5 {
        "5"
    } else if d == 6 {
        "6"
    } else if d == 7 {
        "7"
    } else if d == 8 {
        "8"
    } else {
        "9"
    }
}

/// Renders `n` in decimal.
pub fn decimal(n: u64) -> (r: String)
    ensures
        r@ == decimal_text(n as nat),
    decreases n,
{
    if n < 10 {
        digit_str(n).to_owned()
    } else {
        let mut out = decimal(n / 10);
        out.append(digit_str(n % 10));
        assert(out@ =~= decimal_text(n as nat));
        out
    }
}

/// The characters that count as white space: those with the Unicode property
/// of that name.
pub open spec fn is_white(c: char) -> bool {
    let u = c as int;
    ||| 0x9 <= u <= 0xd
    ||| u == 0x20
    ||| u == 0x85
    ||| u == 0xa0
    ||| u == 0x1680
    ||| 0x2000 <= u <= 0x200a
    ||| u == 0x2028
    ||| u == 0x2029
    ||| u == 0x202f
    ||| u == 0x205f
    ||| u == 0x3000
}

/// A text without the white space before it.
pub open spec fn trimmed_front(s: Seq<char>) -> Seq<char>
    decreases s.len(),
{
    if s.len() > 0 && is_white(s.first()) {
        trimmed_front(s.drop_first())
    } else {
        s
    }
}

/// A text without the white space after it.
pub open spec fn trimmed_back(s: Seq<char>) -> Seq<char>
    decreases s.len(),
{
    if s.len() > 0 && is_white(s.last()) {
        trimmed_back(s.drop_last())
    } else {
        s
    }
}

/// A text without the white space around it.
pub open spec fn trimmed(s: Seq<char>) -> Seq<char> {
    trimmed_back(trimmed_front(s))
}

/// `str::trim`. The contract claims what its documentation says: leading and
/// trailing white space is removed, and nothing else.
#[verifier::external_body]
pub(crate) fn trim(s: &str) -> (r: String)
    ensures
        r@ == trimmed(s@),
{
    s.trim().to_string()
}

/// What is left of a text after trimming has no white space at either end, so
/// trimming again changes nothing.
pub proof fn law_trimming_is_final(s: Seq<char>)
    ensures
        trimmed(s).len() > 0 ==> !is_white(trimmed(s).first()) && !is_white(trimmed(s).last()),
        trimmed(trimmed(s)) == trimmed(s),
{
    lemma_trimmed_front(s);
    lemma_trimmed_back(trimmed_front(s));
    let t = trimmed(s);
    if t.len() > 0 {
        assert(t.first() == trimmed_front(s).first());
    }
}

proof fn lemma_trimmed_front(s: Seq<char>)
    ensures
        trimmed_front(s).len() > 0 ==> !is_white(trimmed_front(s).first()),
    decreases s.len(),
{
    if s.len() > 0 && is_white(s.first()) {
        lemma_trimmed_front(s.drop_first());
    }
}

proof fn lemma_trimmed_back(s: Seq<char>)
    ensures
        trimmed_back(s).len() <= s.len(),
        trimmed_back(s) == s.take(trimmed_back(s).len() as int),
        trimmed_back(s).len() > 0 ==> !is_white(trimmed_back(s).last()),
    decreases s.len(),
{
    if s.len() > 0 && is_white(s.last()) {
        lemma_trimmed_back(s.drop_last());
        assert(trimmed_back(s) =~= s.take(trimmed_back(s).len() as int));
    } else {
        assert(s.take(s.len() as int) =~= s);
    }
}

/// Whether a character is a decimal digit.
pub open spec fn is_digit(c: char) -> bool {
    '0' <= c <= '9'
}

/// The number that a row of digits stands for.
pub open spec fn digits_value(s: Seq<char>) -> nat
    decreases s.len(),
{
    if s.len() == 0 {
        0
    } else {
        10 * digits_value(s.drop_last()) + (s.last() as int - '0' as int) as nat
    }
}

/// The 64-bit number that a text stands for: an optional plus sign and then
/// digits only, at least one, of a number that fits.
pub open spec fn parsed_u64(s: Seq<char>) -> Option<u64> {
    let digits = if s.len() > 0 && s.first() == '+' {
        s.drop_first()
    } else {
        s
    };
    if digits.len() > 0 && (forall|i: int| 0 <= i < digits.len() ==> is_digit(#[trigger] digits[i]))
        && digits_value(digits) <= u64::MAX {
        Some(digits_value(digits) as u64)
    } else {
        None
    }
}

/// `str::parse` for `u64`. The contract claims what its documentation says of
/// which texts are accepted.
#[verifier::external_body]
pub(crate) fn parse_u64(s: &str) -> (r: Option<u64>)
    ensures
        r == parsed_u64(s@),
{
    s.parse().ok()
}

/// A number that was rendered in decimal is read back.
pub proof fn law_decimal_is_read_back(n: u64)
    ensures
        parsed_u64(decimal_text(n as nat)) == Some(n),
{
    lemma_decimal_digits(n as nat);
    let t = decimal_text(n as nat);
    assert(is_digit(t[0]));
}

proof fn lemma_decimal_digits(n: nat)
    ensures
        decimal_text(n).len() > 0,
        forall|i: int| 0 <= i < decimal_text(n).len() ==> is_digit(#[trigger] decimal_text(n)[i]),
        digits_value(decimal_text(n)) == n,
    decreases n,
{
    let t = decimal_text(n);
    if n < 10 {
        assert(t.drop_last() =~= Seq::<char>::empty());
        assert(digits_value(t.drop_last()) == 0);
        assert(t.last() as int == '0' as int + n);
    } else {
        lemma_decimal_digits(n / 10);
        assert(t.last() as int == '0' as int + n % 10);
        assert(t.drop_last() =~= decimal_text(n / 10));
        assert forall|i: int| 0 <= i < t.len() implies is_digit(#[trigger] t[i]) by {
            if i < t.len() - 1 {
                assert(t[i] == decimal_text(n / 10)[i]);
            }
        }
    }
}

/// The texts of strings.
pub open spec fn texts(lines: Seq<String>) -> Seq<Seq<char>> {
    lines.map_values(|line: String| line@)
}

/// Lines laid out with a line break between each two.
pub open spec fn lines_text(lines: Seq<Seq<char>>) -> Seq<char>
    decreases lines.len(),
{
    if lines.len() == 0 {
        Seq::empty()
    } else if lines.len() == 1 {
        lines[0]
    } else {
        lines_text(lines.drop_last()) + "\n"@ + lines.last()
    }
}

/// Lines joined by line breaks.
pub fn join_lines(lines: &Vec<String>) -> (r: String)
    ensures
        r@ == lines_text(texts(lines@)),
{
    let mut out = String::new();
    let n: usize = lines.len();
    let ghost all = texts(lines@);
    for i in 0..n
        invariant
            n == lines@.len(),
            all == texts(lines@),
            out@ == lines_text(all.take(i as int)),
    {
        assert(all.take(i + 1).drop_last() =~= all.take(i as int));
        assert(all.take(i + 1).last() == lines@[i as int]@);
        if i > 0 {
            out.append("\n");
        }
        out.append(lines[i].as_str());
        assert(out@ =~= lines_text(all.take(i + 1)));
    }
    assert(all.take(n as int) =~= all);
    out
}

/// The text of lines holds every line: it is as long as all of them with one
/// line break for each gap, a first line is the whole text, and a further line
/// adds a line break and itself, however many there are.
pub proof fn law_text_grows_by_each_line(lines: Seq<Seq<char>>, line: Seq<char>)
    ensures
        lines.len() == 0 ==> lines_text(lines) == Seq::<char>::empty(),
        lines.len() == 0 ==> lines_text(lines.push(line)) == line,
        lines.len() > 0 ==> lines_text(lines.push(line)) == lines_text(lines) + seq!['\n'] + line,
        lines_text(lines).len() == lines.flatten().len() + (if lines.len() == 0 {
            0
        } else {
            lines.len() - 1
        }),
    decreases lines.len(),
{
    reveal_strlit("\n");
    assert("\n"@ =~= seq!['\n']);
    assert(lines.push(line).drop_last() =~= lines);
    if lines.len() > 0 {
        law_text_grows_by_each_line(lines.drop_last(), lines.last());
        assert(lines.drop_last().push(lines.last()) =~= lines);
        lines.drop_last().lemma_flatten_push(lines.last());
        if lines.len() == 1 {
            assert(lines.drop_last().flatten() =~= Seq::<char>::empty());
        }
    } else {
        assert(lines.flatten() =~= Seq::<char>::empty());
    }
}

/// Every line stands in the text, in its place: behind all lines before it and
/// one line break for each of these.
pub proof fn law_every_line_is_in_its_place(lines: Seq<Seq<char>>, k: int)
    requires
        0 <= k < lines.len(),
    ensures
        ({
            let from = lines.take(k).flatten().len() + k;
            &&& from + lines[k].len() <= lines_text(lines).len()
            &&& lines_text(lines).subrange(from as int, from + lines[k].len()) == lines[k]
            &&& k > 0 ==> lines_text(lines)[from - 1] == '\n'
        }),
    decreases lines.len(),
{
    let before = lines.drop_last();
    let n = before.len() as int;
    law_text_grows_by_each_line(before, lines.last());
    assert(before.push(lines.last()) =~= lines);
    let text = lines_text(lines);
    if k < n {
        law_every_line_is_in_its_place(before, k);
        let from = before.take(k).flatten().len() + k;
        assert(before.take(k) =~= lines.take(k));
        assert(text.subrange(from, from + lines[k].len()) =~= lines_text(before).subrange(
            from,
            from + lines[k].len(),
        ));
    } else {
        assert(lines.take(k) =~= before);
        let from = before.flatten().len() + k;
        if n == 0 {
            assert(before.flatten() =~= Seq::<char>::empty());
        }
        assert(text.subrange(from, from + lines[k].len()) =~= lines[k]);
    }
}

/// The texts of strings are those of each string, in order.
pub proof fn law_texts_are_of_each(lines: Seq<String>)
    ensures
        texts(lines).len() == lines.len(),
        forall|i: int| 0 <= i < lines.len() ==> #[trigger] texts(lines)[i] == lines[i]@,
{
}

/// The decimal rendering is positional: its digits, from the last, are those of
/// the number, and it has no more of them than it needs.
pub proof fn law_decimal_is_positional(n: nat)
    ensures
        ({
            let t = decimal_text(n);
            &&& t.len() > 0
            &&& n < pow(10, t.len())
            &&& t.len() > 1 ==> n >= pow(10, (t.len() - 1) as nat)
            &&& forall|i: int|
                0 <= i < t.len() ==> (#[trigger] t[i]) as int == '0' as int + (n as int / pow(
                    10,
                    (t.len() - 1 - i) as nat,
                )) % 10
        }),
    decreases n,
{
    reveal(pow);
    let t = decimal_text(n);
    if n < 10 {
        assert(pow(10, 0) == 1);
        assert(pow(10, 1) == 10 * pow(10, 0));
        assert(t.len() == 1);
    } else {
        law_decimal_is_positional(n / 10);
        let s = decimal_text(n / 10);
        let last = (s.len() - 1) as nat;
        assert(t.len() == s.len() + 1);
        assert(pow(10, t.len()) == 10 * pow(10, s.len()));
        assert(pow(10, s.len()) == 10 * pow(10, last));
        assert(pow(10, 0) == 1);
        assert forall|i: int| 0 <= i < t.len() implies (#[trigger] t[i]) as int == '0' as int + (
        n as int / pow(10, (t.len() - 1 - i) as nat)) % 10 by {
            let e = (t.len() - 1 - i) as nat;
            if i < s.len() {
                let d = (e - 1) as nat;
                assert(t[i] == s[i]);
                lemma_pow_positive(10, d);
                lemma_div_denominator(n as int, 10, pow(10, d));
                assert(pow(10, e) == 10 * pow(10, d));
                assert((s.len() - 1 - i) as nat == d);
            } else {
                assert(t[i] as int == '0' as int + n % 10);
            }
        }
    }
}

/// Trimming takes away white space at the two ends and nothing else: what is left
/// is a stretch of the text with white space only before it and behind it.
pub proof fn law_trimming_takes_only_white_space(s: Seq<char>) -> (cut: (int, int))
    ensures
        0 <= cut.0 <= cut.1 <= s.len(),
        trimmed(s) == s.subrange(cut.0, cut.1),
        forall|i: int| 0 <= i < cut.0 ==> is_white(#[trigger] s[i]),
        forall|i: int| cut.1 <= i < s.len() ==> is_white(#[trigger] s[i]),
{
    let a = lemma_front_cut(s);
    let front = trimmed_front(s);
    let b = lemma_back_cut(front);
    assert(trimmed(s) =~= s.subrange(a, a + b));
    assert forall|i: int| a + b <= i < s.len() implies is_white(#[trigger] s[i]) by {
        assert(s[i] == front[i - a]);
    }
    (a, a + b)
}

proof fn lemma_front_cut(s: Seq<char>) -> (a: int)
    ensures
        0 <= a <= s.len(),
        trimmed_front(s) == s.skip(a),
        forall|i: int| 0 <= i < a ==> is_white(#[trigger] s[i]),
    decreases s.len(),
{
    if s.len() > 0 && is_white(s.first()) {
        let a = lemma_front_cut(s.drop_first());
        assert(s.drop_first().skip(a) =~= s.skip(a + 1));
        assert forall|i: int| 0 <= i < a + 1 implies is_white(#[trigger] s[i]) by {
            if i > 0 {
                assert(s[i] == s.drop_first()[i - 1]);
            }
        }
        a + 1
    } else {
        assert(s.skip(0) =~= s);
        0
    }
}

proof fn lemma_back_cut(s: Seq<char>) -> (b: int)
    ensures
        0 <= b <= s.len(),
        trimmed_back(s) == s.take(b),
        forall|i: int| b <= i < s.len() ==> is_white(#[trigger] s[i]),
    decreases s.len(),
{
    if s.len() > 0 && is_white(s.last()) {
        let b = lemma_back_cut(s.drop_last());
        assert(s.drop_last().take(b) =~= s.take(b));
        assert forall|i: int| b <= i < s.len() implies is_white(#[trigger] s[i]) by {
            if i < s.len() - 1 {
                assert(s[i] == s.drop_last()[i]);
            }
        }
        b
    } else {
        assert(s.take(s.len() as int) =~= s);
        s.len() as int
    }
}

/// Joining keeps every line, however many there are: the joined text is as long as
/// all lines with one line break for each gap, and has each line in its place.
pub proof fn law_joining_keeps_every_line(lines: &Vec<String>, joined: String, k: int)
    requires
        call_ensures(join_lines, (lines,), joined),
        0 <= k < lines@.len(),
    ensures
        ({
            let all = Seq::new(lines@.len(), |i: int| lines@[i]@);
            let from = all.take(k).flatten().len() + k;
            &&& joined@.len() == all.flatten().len() + lines@.len() - 1
            &&& joined@.subrange(from as int, from + lines@[k]@.len()) == lines@[k]@
            &&& k > 0 ==> joined@[from - 1] == '\n'
        }),
{
    let all = Seq::new(lines@.len(), |i: int| lines@[i]@);
    assert(texts(lines@) =~= all);
    law_text_grows_by_each_line(all, Seq::empty());
    law_every_line_is_in_its_place(all, k);
}

} // verus!
