//! Decimal numbers, padding, trimming and searching on text.

use vstd::prelude::*;

verus! {

/// `String::push` appends one character at the end of the string.
pub assume_specification[ std::string::String::push ](s: &mut std::string::String, c: char)
    ensures
        final(s)@ == old(s)@.push(c),
;

/// The character that writes the decimal digit `d`.
pub open spec fn digit(d: int) -> char {
    (48 + d) as char
}

/// `n` written in base ten, without leading zeros.
pub open spec fn decimal_text(n: nat) -> Seq<char>
    decreases n,
{
    if n < 10 {
        seq![digit(n as int)]
    } else {
        decimal_text(n / 10).push(digit((n % 10) as int))
    }
}

/// `i` written in base ten, with a leading minus sign when it is negative.
pub open spec fn signed_text(i: int) -> Seq<char> {
    if i < 0 {
        seq!['-'] + decimal_text((-i) as nat)
    } else {
        decimal_text(i as nat)
    }
}

/// `n` with a leading zero when one digit would do.
pub open spec fn two_digits_text(n: nat) -> Seq<char> {
    if n < 10 {
        seq!['0'] + decimal_text(n)
    } else {
        decimal_text(n)
    }
}

/// A run of `n` blanks.
pub open spec fn blanks(n: int) -> Seq<char> {
    Seq::new(
        if n > 0 {
            n as nat
        } else {
            0
        },
        |i: int| ' ',
    )
}

/// `s`, filled up with blanks on its right to `width` characters.
pub open spec fn left_aligned(s: Seq<char>, width: int) -> Seq<char> {
    s + blanks(width - s.len())
}

/// `s`, filled up with blanks on its left to `width` characters.
pub open spec fn right_aligned(s: Seq<char>, width: int) -> Seq<char> {
    blanks(width - s.len()) + s
}

/// The characters with the Unicode property `White_Space`.
pub open spec fn is_white_space(c: char) -> bool {
    ||| 0x9 <= c as int <= 0xd
    ||| c as int == 0x20
    ||| c as int == 0x85
    ||| c as int == 0xa0
    ||| c as int == 0x1680
    ||| 0x2000 <= c as int <= 0x200a
    ||| c as int == 0x2028
    ||| c as int == 0x2029
    ||| c as int == 0x202f
    ||| c as int == 0x205f
    ||| c as int == 0x3000
}

/// `s` without its leading and trailing white space.
pub open spec fn trimmed(s: Seq<char>) -> Seq<char>
    decreases s.len(),
{
    if s.len() == 0 {
        s
    } else if is_white_space(s.first()) {
        trimmed(s.drop_first())
    } else if is_white_space(s.last()) {
        trimmed(s.drop_last())
    } else {
        s
    }
}

/// `part` occurs in `s` at index `i`.
pub open spec fn occurs_at(s: Seq<char>, part: Seq<char>, i: int) -> bool {
    0 <= i && i + part.len() <= s.len() && s.subrange(i, i + part.len()) == part
}

/// `part` occurs somewhere in `s`.
pub open spec fn occurs_in(s: Seq<char>, part: Seq<char>) -> bool {
    exists|i: int| occurs_at(s, part, i)
}

/// `s` is one line: it ends with a line feed, and holds no other.
pub open spec fn is_line(s: Seq<char>) -> bool {
    s.len() > 0 && s.last() == '\n' && !s.drop_last().contains('\n')
}

/// The characters of `s`, one element each.
pub fn chars_of(s: &str) -> (r: Vec<char>)
    ensures
        r@ == s@,
{
    let mut r: Vec<char> = Vec::new();
    for c in it: s.chars()
        invariant
            it.seq() == s@,
            r@ == s@.take(it.index() as int),
    {
        r.push(c);
    }
    r
}

/// The text made of the elements of `v` from index `from` on.
pub fn text_from(v: &Vec<char>, from: usize) -> (r: String)
    requires
        from <= v@.len(),
    ensures
        r@ == v@.skip(from as int),
{
    let mut r = String::new();
    for i in from..v.len()
        invariant
            from <= i <= v@.len(),
            r@ == v@.subrange(from as int, i as int),
    {
        r.push(v[i]);
    }
    r
}

fn digit_char(d: u64) -> (c: char)
    requires
        d < 10,
    ensures
        c == digit(d as int),
{
    (48u8 + d as u8) as char
}

/// Writes `n` in base ten.
pub fn decimal(n: u64) -> (r: String)
    ensures
        r@ == decimal_text(n as nat),
    decreases n,
{
    if n < 10 {
        let mut r = String::new();
        r.push(digit_char(n));
        r
    } else {
        let mut r = decimal(n / 10);
        r.push(digit_char(n % 10));
        r
    }
}

/// Writes `i` in base ten.
pub fn signed(i: i64) -> (r: String)
    ensures
        r@ == signed_text(i as int),
{
    if i < 0 {
        let mut r = String::new();
        r.push('-');
        r.append(decimal((-(i as i128)) as u64).as_str());
        r
    } else {
        decimal(i as u64)
    }
}

/// Writes `n` in base ten, with at least two digits.
pub fn two_digits(n: u64) -> (r: String)
    ensures
        r@ == two_digits_text(n as nat),
{
    let mut r = String::new();
    if n < 10 {
        r.push('0');
    }
    r.append(decimal(n).as_str());
    r
}

fn push_blanks(out: &mut String, n: usize)
    ensures
        final(out)@ == old(out)@ + blanks(n as int),
{
    for i in 0..n
        invariant
            out@ == old(out)@ + blanks(i as int),
    {
        out.push(' ');
        assert(blanks(i as int).push(' ') =~= blanks(i + 1));
    }
}

/// Fills `s` up on the right, as the format `{:<width}` does.
pub fn align_left(s: &str, width: usize) -> (r: String)
    ensures
        r@ == left_aligned(s@, width as int),
{
    let len = s.unicode_len();
    let mut r = s.to_owned();
    if len < width {
        push_blanks(&mut r, width - len);
    }
    r
}

/// Fills `s` up on the left, as the format `{:>width}` does.
pub fn align_right(s: &str, width: usize) -> (r: String)
    ensures
        r@ == right_aligned(s@, width as int),
{
    let len = s.unicode_len();
    let mut r = String::new();
    if len < width {
        push_blanks(&mut r, width - len);
    }
    r.append(s);
    r
}

/// `str::trim` drops the leading and the trailing characters that have the Unicode property
/// `White_Space`, and no others.
#[verifier::external_body]
pub(crate) fn trim(s: &str) -> (r: &str)
    ensures
        r@ == trimmed(s@),
{
    s.trim()
}

/// A text that is filled up is as wide as asked, or as it was where it was wider. It is there
/// whole, at the left or at the right end, and all the rest is blank.
pub proof fn filled_text_is_there_whole(s: Seq<char>, width: int)
    ensures
        ({
            let l = left_aligned(s, width);
            let r = right_aligned(s, width);
            &&& l.len() == r.len() == if s.len() >= width {
                s.len() as int
            } else {
                width
            }
            &&& l.take(s.len() as int) == s
            &&& r.skip(r.len() - s.len()) == s
            &&& forall|i: int| s.len() <= i < l.len() ==> l[i] == ' '
            &&& forall|i: int| 0 <= i < r.len() - s.len() ==> r[i] == ' '
        }),
{
    let l = left_aligned(s, width);
    let r = right_aligned(s, width);
    assert(l.take(s.len() as int) =~= s);
    assert(r.skip(r.len() - s.len()) =~= s);
}

/// All of `s` before index `i` and from index `j` on is white space.
pub open spec fn is_blank_around(s: Seq<char>, i: int, j: int) -> bool {
    &&& 0 <= i <= j <= s.len()
    &&& forall|k: int| 0 <= k < i ==> is_white_space(#[trigger] s[k])
    &&& forall|k: int| j <= k < s.len() ==> is_white_space(#[trigger] s[k])
}

proof fn blank_before(s: Seq<char>, i: int, j: int)
    requires
        s.len() > 0,
        is_white_space(s[0]),
        is_blank_around(s.drop_first(), i, j),
    ensures
        is_blank_around(s, i + 1, j + 1),
        s.subrange(i + 1, j + 1) == s.drop_first().subrange(i, j),
{
    let t = s.drop_first();
    assert forall|k: int| 0 <= k < i + 1 implies is_white_space(#[trigger] s[k]) by {
        if k > 0 {
            assert(is_white_space(t[k - 1]));
        }
    }
    assert forall|k: int| j + 1 <= k < s.len() implies is_white_space(#[trigger] s[k]) by {
        assert(is_white_space(t[k - 1]));
    }
    assert(s.subrange(i + 1, j + 1) =~= t.subrange(i, j));
}

proof fn blank_after(s: Seq<char>, i: int, j: int)
    requires
        s.len() > 0,
        is_white_space(s.last()),
        is_blank_around(s.drop_last(), i, j),
    ensures
        is_blank_around(s, i, j),
        s.subrange(i, j) == s.drop_last().subrange(i, j),
{
    let t = s.drop_last();
    assert forall|k: int| 0 <= k < i implies is_white_space(#[trigger] s[k]) by {
        assert(is_white_space(t[k]));
    }
    assert forall|k: int| j <= k < s.len() implies is_white_space(#[trigger] s[k]) by {
        if k < t.len() {
            assert(is_white_space(t[k]));
        }
    }
    assert(s.subrange(i, j) =~= t.subrange(i, j));
}

/// Trimming takes white space off both ends and nothing else: what is left neither begins nor
/// ends with white space, and stands in the text between white space only.
pub proof fn trimmed_is_between_white_space(s: Seq<char>)
    ensures
        trimmed(s).len() > 0 ==> !is_white_space(trimmed(s).first()) && !is_white_space(
            trimmed(s).last(),
        ),
        exists|i: int, j: int|
            #[trigger] is_blank_around(s, i, j) && trimmed(s) == s.subrange(i, j),
    decreases s.len(),
{
    let n = s.len() as int;
    if n == 0 {
        assert(is_blank_around(s, 0, 0));
        assert(s.subrange(0, 0) =~= s);
    } else if is_white_space(s.first()) {
        let t = s.drop_first();
        trimmed_is_between_white_space(t);
        let (i, j) = choose|i: int, j: int|
            #[trigger] is_blank_around(t, i, j) && trimmed(t) == t.subrange(i, j);
        blank_before(s, i, j);
    } else if is_white_space(s.last()) {
        let t = s.drop_last();
        trimmed_is_between_white_space(t);
        let (i, j) = choose|i: int, j: int|
            #[trigger] is_blank_around(t, i, j) && trimmed(t) == t.subrange(i, j);
        blank_after(s, i, j);
    } else {
        assert(is_blank_around(s, 0, n));
        assert(s.subrange(0, n) =~= s);
    }
}

/// Nothing is left of a text exactly when all of it is white space.
pub proof fn only_white_space_is_trimmed_to_nothing(s: Seq<char>)
    ensures
        trimmed(s).len() == 0 <==> forall|i: int| 0 <= i < s.len() ==> is_white_space(#[trigger] s[i]),
    decreases s.len(),
{
    trimmed_is_between_white_space(s);
    let (i, j) = choose|i: int, j: int|
        #[trigger] is_blank_around(s, i, j) && trimmed(s) == s.subrange(i, j);
    if trimmed(s).len() > 0 {
        assert(s[i] == trimmed(s).first());
    } else {
        assert(i == j);
    }
}

/// It does not matter from which end white space is taken off first.
pub proof fn trimming_the_end_first(s: Seq<char>)
    requires
        s.len() > 0,
        is_white_space(s.last()),
    ensures
        trimmed(s) == trimmed(s.drop_last()),
    decreases s.len(),
{
    if is_white_space(s.first()) {
        if s.len() == 1 {
            assert(s.drop_first() =~= s.drop_last());
        } else {
            trimming_the_end_first(s.drop_first());
            assert(s.drop_first().drop_last() =~= s.drop_last().drop_first());
        }
    }
}

/// A text occurs in whatever is made of it and of something before and after it, and in nothing
/// else.
pub proof fn part_occurs_between_the_rest(
    before: Seq<char>,
    part: Seq<char>,
    after: Seq<char>,
    s: Seq<char>,
)
    ensures
        occurs_in(before + part + after, part),
        occurs_in(s, part) ==> exists|a: Seq<char>, b: Seq<char>| s == #[trigger] (a + part + b),
{
    let t = before + part + after;
    let i = before.len() as int;
    assert(t.subrange(i, i + part.len()) =~= part);
    assert(occurs_at(t, part, i));
    if occurs_in(s, part) {
        let k = choose|k: int| occurs_at(s, part, k);
        assert(s =~= s.take(k) + part + s.skip(k + part.len()));
    }
}

/// Tells whether `part` occurs somewhere in `s`.
pub fn contains(s: &str, part: &str) -> (r: bool)
    ensures
        r == occurs_in(s@, part@),
{
    let text = chars_of(s);
    let wanted = chars_of(part);
    let n: usize = text.len();
    let m: usize = wanted.len();
    let mut i: usize = 0;
    while m <= n - i
        invariant
            text@ == s@,
            wanted@ == part@,
            n == text@.len(),
            m == wanted@.len(),
            i <= n,
            forall|k: int| 0 <= k < i ==> !occurs_at(s@, part@, k),
        decreases n - i,
    {
        let mut j: usize = 0;
        while j < m && text[i + j] == wanted[j]
            invariant
                n == text@.len(),
                m == wanted@.len(),
                i + m <= n,
                j <= m,
                forall|k: int| 0 <= k < j ==> text@[i + k] == wanted@[k],
            decreases m - j,
        {
            j = j + 1;
        }
        if j == m {
            assert(s@.subrange(i as int, i + part@.len()) =~= part@);
            assert(occurs_at(s@, part@, i as int));
            return true;
        }
        assert(s@.subrange(i as int, i + part@.len())[j as int] == text@[i + j]);
        i = i + 1;
    }
    false
}

} // verus!
