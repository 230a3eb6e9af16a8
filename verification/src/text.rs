use vstd::prelude::*;

verus! {

/// Whether `c` has the Unicode property `White_Space`: the controls from tab
/// to carriage return, the space, the next-line control, the no-break space,
/// the ogham space mark, the spaces from en quad to hair space, the line and
/// the paragraph separator, the narrow no-break space, the medium
/// mathematical space and the ideographic space.
pub open spec fn char_is_whitespace(c: char) -> bool {
    ||| ('\u{9}' <= c && c <= '\u{d}')
    ||| c == ' '
    ||| c == '\u{85}'
    ||| c == '\u{a0}'
    ||| c == '\u{1680}'
    ||| ('\u{2000}' <= c && c <= '\u{200a}')
    ||| c == '\u{2028}'
    ||| c == '\u{2029}'
    ||| c == '\u{202f}'
    ||| c == '\u{205f}'
    ||| c == '\u{3000}'
}

/// The lower-case form of a text under the Unicode case mapping. The mapping
/// is a table of the Unicode character database (with one rule that depends
/// on the position of a sigma); the library takes it as given.
pub uninterp spec fn lowercase(s: Seq<char>) -> Seq<char>;

/// How many characters at the start of `s` are whitespace.
pub open spec fn leading_spaces(s: Seq<char>) -> nat
    decreases s.len(),
{
    if s.len() > 0 && char_is_whitespace(s[0]) {
        1 + leading_spaces(s.drop_first())
    } else {
        0
    }
}

/// How many characters at the end of `s` are whitespace.
pub open spec fn trailing_spaces(s: Seq<char>) -> nat
    decreases s.len(),
{
    if s.len() > 0 && char_is_whitespace(s.last()) {
        1 + trailing_spaces(s.drop_last())
    } else {
        0
    }
}

/// `s` without its leading and trailing whitespace.
pub open spec fn trimmed(s: Seq<char>) -> Seq<char> {
    if leading_spaces(s) >= s.len() {
        Seq::empty()
    } else {
        s.subrange(leading_spaces(s) as int, s.len() - trailing_spaces(s))
    }
}

/// A text is blank when nothing is left of it after trimming.
pub open spec fn is_blank(s: Seq<char>) -> bool {
    trimmed(s).len() == 0
}

/// The leading whitespace of a text is whitespace throughout, and what
/// follows it, if anything does, is not.
pub proof fn lemma_leading_spaces(s: Seq<char>)
    ensures
        leading_spaces(s) <= s.len(),
        forall|i: int| 0 <= i < leading_spaces(s) ==> char_is_whitespace(#[trigger] s[i]),
        leading_spaces(s) < s.len() ==> !char_is_whitespace(s[leading_spaces(s) as int]),
    decreases s.len(),
{
    if s.len() > 0 && char_is_whitespace(s[0]) {
        let rest = s.drop_first();
        lemma_leading_spaces(rest);
        assert forall|i: int| 0 <= i < leading_spaces(s) implies char_is_whitespace(
            #[trigger] s[i],
        ) by {
            if i > 0 {
                assert(s[i] == rest[i - 1]);
            }
        }
        if leading_spaces(s) < s.len() {
            assert(s[leading_spaces(s) as int] == rest[leading_spaces(rest) as int]);
        }
    }
}

/// The trailing whitespace of a text ends after its last character that is
/// no whitespace.
pub proof fn lemma_trailing_spaces(s: Seq<char>, i: int)
    requires
        0 <= i < s.len(),
        !char_is_whitespace(s[i]),
    ensures
        trailing_spaces(s) <= s.len() - 1 - i,
    decreases s.len(),
{
    if char_is_whitespace(s.last()) {
        lemma_trailing_spaces(s.drop_last(), i);
    }
}

/// A text is blank exactly when every character of it is whitespace; the
/// empty text among them.
pub proof fn lemma_blank_means_all_whitespace(s: Seq<char>)
    ensures
        is_blank(s) <==> forall|i: int| 0 <= i < s.len() ==> char_is_whitespace(#[trigger] s[i]),
{
    lemma_leading_spaces(s);
    let lead = leading_spaces(s) as int;
    if lead < s.len() {
        lemma_trailing_spaces(s, lead);
        assert(trimmed(s).len() == s.len() - trailing_spaces(s) - lead);
    }
}

/// For each character of `s`, whether it is whitespace.
pub open spec fn spaces(s: Seq<char>) -> Seq<bool> {
    s.map_values(|c: char| char_is_whitespace(c))
}

/// Whether the character at place `i` is marked as a separator.
pub open spec fn is_separator(marks: Seq<bool>, i: int) -> bool {
    0 <= i < marks.len() && marks[i]
}

/// The words of `s`, in order of appearance, where `marks` tells for each
/// place whether the character there separates words: a word is a run of
/// characters that are no separators, as long as it can be.
pub open spec fn words_by(s: Seq<char>, marks: Seq<bool>) -> Seq<Seq<char>>
    decreases s.len(),
{
    if s.len() == 0 {
        Seq::empty()
    } else if is_separator(marks, s.len() - 1) {
        words_by(s.drop_last(), marks)
    } else if s.len() >= 2 && !is_separator(marks, s.len() - 2) {
        let before = words_by(s.drop_last(), marks);
        before.drop_last().push(before.last().push(s.last()))
    } else {
        words_by(s.drop_last(), marks).push(seq![s.last()])
    }
}

/// The whitespace-separated words of `s`, in order of appearance.
pub open spec fn words(s: Seq<char>) -> Seq<Seq<char>> {
    words_by(s, spaces(s))
}

/// The decimal digits of `s`, in order, with every other character left out.
pub open spec fn digits(s: Seq<char>) -> Seq<char> {
    s.filter(|c: char| is_digit(c))
}

/// `c` is one of the ten ASCII digits.
pub open spec fn is_digit(c: char) -> bool {
    '0' <= c && c <= '9'
}

/// Appends one character to a string: `String::push` of the standard library,
/// which leaves the characters already present untouched and adds `c` after
/// them.
#[verifier::external_body]
pub(crate) fn push_char(s: &mut String, c: char)
    ensures
        final(s)@ == old(s)@.push(c),
{
    s.push(c);
}

/// `char::is_whitespace` of the standard library: true exactly for the
/// characters with the Unicode property `White_Space`, which
/// [`char_is_whitespace`] lists.
#[verifier::external_body]
pub(crate) fn is_space(c: char) -> (r: bool)
    ensures
        r == char_is_whitespace(c),
{
    c.is_whitespace()
}

/// `str::to_lowercase` of the standard library: the text under the Unicode
/// lower-case mapping, the same for every process and locale.
#[verifier::external_body]
pub(crate) fn to_lower(s: &str) -> (r: String)
    ensures
        r@ == lowercase(s@),
{
    s.to_lowercase()
}

/// `str::trim` of the standard library: the slice that is left when the
/// leading and the trailing characters with the property `White_Space` are
/// removed.
#[verifier::external_body]
pub(crate) fn trim(s: &str) -> (r: &str)
    ensures
        r@ == trimmed(s@),
{
    s.trim()
}

/// The characters of `s`, in order.
pub fn chars_of(s: &str) -> (out: Vec<char>)
    ensures
        out@ == s@,
{
    let mut out: Vec<char> = Vec::new();
    for c in it: s.chars()
        invariant
            it.seq() == s@,
            out@ == s@.take(it.index()),
    {
        out.push(c);
    }
    out
}

/// The string made of the characters of `v`, in order.
pub fn string_of(v: &Vec<char>) -> (out: String)
    ensures
        out@ == v@,
{
    let mut out = String::new();
    let mut i: usize = 0;
    while i < v.len()
        invariant
            i <= v.len(),
            out@ == v@.take(i as int),
        decreases v.len() - i,
    {
        push_char(&mut out, v[i]);
        i += 1;
    }
    out
}

/// Whether `c` is an ASCII digit.
pub fn is_ascii_digit(c: char) -> (r: bool)
    ensures
        r == is_digit(c),
{
    '0' <= c && c <= '9'
}

/// The ASCII digits of `s`, in order.
pub fn digits_of(s: &str) -> (out: Vec<char>)
    ensures
        out@ == digits(s@),
{
    let mut out: Vec<char> = Vec::new();
    for c in it: s.chars()
        invariant
            it.seq() == s@,
            out@ == digits(s@.take(it.index())),
    {
        proof {
            let k = it.index();
            assert(s@.take(k + 1) == s@.take(k).push(c));
            lemma_digits_push(s@.take(k), c);
        }
        if is_ascii_digit(c) {
            out.push(c);
        }
    }
    proof {
        assert(s@.take(s@.len() as int) == s@);
    }
    out
}

/// Filtering for digits goes character by character.
pub proof fn lemma_digits_push(s: Seq<char>, c: char)
    ensures
        digits(s.push(c)) == if is_digit(c) {
            digits(s).push(c)
        } else {
            digits(s)
        },
{
    reveal(Seq::filter);
    assert(s.push(c).drop_last() == s);
}

/// The decimal digit for a number below ten.
pub open spec fn digit_char(d: nat) -> char {
    if d == 0 {
        '0'
    } else if d == 1 {
        '1'
    } else if d == 2 {
        '2'
    } else if d == 3 {
        '3'
    } else if d == 4 {
        '4'
    } else if d == 5 {
        '5'
    } else if d == 6 {
        '6'
    } else if d == 7 {
        '7'
    } else if d == 8 {
        '8'
    } else {
        '9'
    }
}

/// A number written in decimal, without leading zeros.
pub open spec fn decimal(n: nat) -> Seq<char>
    decreases n,
{
    if n < 10 {
        seq![digit_char(n)]
    } else {
        decimal(n / 10).push(digit_char(n % 10))
    }
}

/// The digit for `d`.
fn digit_of(d: usize) -> (c: char)
    requires
        d < 10,
    ensures
        c == digit_char(d as nat),
{
    if d == 0 {
        '0'
    } else if d == 1 {
        '1'
    } else if d == 2 {
        '2'
    } else if d == 3 {
        '3'
    } else if d == 4 {
        '4'
    } else if d == 5 {
        '5'
    } else if d == 6 {
        '6'
    } else if d == 7 {
        '7'
    } else if d == 8 {
        '8'
    } else {
        '9'
    }
}

/// Writes `n` in decimal after what `out` already holds.
pub fn append_decimal(out: &mut String, n: usize)
    ensures
        final(out)@ == old(out)@ + decimal(n as nat),
    decreases n,
{
    if n >= 10 {
        append_decimal(out, n / 10);
    }
    push_char(out, digit_of(n % 10));
    proof {
        assert(out@ =~= old(out)@ + decimal(n as nat));
    }
}

/// A number written in decimal with at least `width` digits, zeros in front
/// where it has fewer.
pub open spec fn padded(n: nat, width: nat) -> Seq<char>
    decreases width,
{
    if width == 0 {
        if n == 0 {
            Seq::empty()
        } else {
            decimal(n)
        }
    } else {
        padded(n / 10, (width - 1) as nat).push(digit_char(n % 10))
    }
}

/// Writes `n` with at least `width` digits after what `out` already holds.
pub fn append_padded(out: &mut String, n: usize, width: usize)
    ensures
        final(out)@ == old(out)@ + padded(n as nat, width as nat),
    decreases width,
{
    if width == 0 {
        if n != 0 {
            append_decimal(out, n);
        } else {
            proof {
                assert(out@ + Seq::<char>::empty() == out@);
            }
        }
    } else {
        append_padded(out, n / 10, width - 1);
        push_char(out, digit_of(n % 10));
        proof {
            assert(out@ =~= old(out)@ + padded(n as nat, width as nat));
        }
    }
}

/// Whether two lists of characters are equal.
pub fn same_chars(a: &Vec<char>, b: &Vec<char>) -> (r: bool)
    ensures
        r == (a@ == b@),
{
    if a.len() != b.len() {
        return false;
    }
    let mut i: usize = 0;
    while i < a.len()
        invariant
            i <= a.len(),
            a.len() == b.len(),
            forall|k: int| 0 <= k < i ==> a@[k] == b@[k],
        decreases a.len() - i,
    {
        if a[i] != b[i] {
            return false;
        }
        i += 1;
    }
    assert(a@ =~= b@);
    true
}

/// Whether two texts hold the same characters.
pub fn same_text(a: &str, b: &str) -> (r: bool)
    ensures
        r == (a@ == b@),
{
    same_chars(&chars_of(a), &chars_of(b))
}

} // verus!
