//! Character-level helpers over strings.

use vstd::prelude::*;

verus! {

/// The characters of `s`, in order.
pub fn chars_of(s: &str) -> (r: Vec<char>)
    ensures
        r@ == s@,
{
    let mut out: Vec<char> = Vec::new();
    for c in it: s.chars()
        invariant
            out@ == it.seq().take(it.index@),
    {
        out.push(c);
    }
    out
}

/// The text of a decimal digit.
pub open spec fn digit_text(d: int) -> Seq<char> {
    if d == 0 {
        "0"@
    } else if d == 1 {
        "1"@
    } else if d == 2 {
        "2"@
    } else if d == 3 {
        "3"@
    } else if d == 4 {
        "4"@
    } else if d == 5 {
        "5"@
    } else if d == 6 {
        "6"@
    } else if d == 7 {
        "7"@
    } else if d == 8 {
        "8"@
    } else {
        "9"@
    }
}

/// The decimal notation of `n`.
pub open spec fn decimal_text(n: nat) -> Seq<char>
    decreases n,
{
    if n < 10 {
        digit_text(n as int)
    } else {
        decimal_text(n / 10) + digit_text((n % 10) as int)
    }
}

fn digit_str(d: usize) -> (r: &'static str)
    requires
        d < 10,
    ensures
        r@ == digit_text(d as int),
{
    if d == 0 {
        "0"
    } else if d == 1 {
        "1"
    } else if d == 2 {
        "2"
    } else if d == 3 {
        "3"
    } else if d == 4 {
        "4"
    } else if d == 5 {
        "5"
    } else if d == 6 {
        "6"
    } else if d == 7 {
        "7"
    } else if d == 8 {
        "8"
    } else {
        "9"
    }
}

/// Writes `n` in decimal notation.
pub fn decimal(n: usize) -> (r: String)
    ensures
        r@ == decimal_text(n as nat),
    decreases n,
{
    if n < 10 {
        String::from_str(digit_str(n))
    } else {
        let mut s = decimal(n / 10);
        s.append(digit_str(n % 10));
        s
    }
}

/// Whether two strings hold the same characters.
pub fn same_text(a: &str, b: &str) -> (r: bool)
    ensures
        r == (a@ == b@),
{
    let x = chars_of(a);
    let y = chars_of(b);
    if x.len() != y.len() {
        return false;
    }
    let mut i: usize = 0;
    while i < x.len()
        invariant
            i <= x.len(),
            x.len() == y.len(),
            x@ == a@,
            y@ == b@,
            forall|j: int| 0 <= j < i ==> x@[j] == y@[j],
        decreases x.len() - i,
    {
        if x[i] != y[i] {
            return false;
        }
        i += 1;
    }
    assert(x@ =~= y@);
    true
}

/// The texts of a sequence of strings.
pub open spec fn texts(v: Seq<String>) -> Seq<Seq<char>> {
    Seq::new(v.len(), |i: int| v[i]@)
}

/// The pieces of `s` between the occurrences of `sep`: one more piece than
/// there are separators, empty pieces included.
pub open spec fn split_spec(s: Seq<char>, sep: char) -> Seq<Seq<char>>
    decreases s.len(),
{
    if s.len() == 0 {
        seq![Seq::empty()]
    } else {
        let init = split_spec(s.drop_last(), sep);
        if s.last() == sep {
            init.push(Seq::empty())
        } else {
            init.drop_last().push(init.last().push(s.last()))
        }
    }
}

/// A split always has at least one piece.
pub proof fn lemma_split_nonempty(s: Seq<char>, sep: char)
    ensures
        split_spec(s, sep).len() >= 1,
    decreases s.len(),
{
    if s.len() > 0 {
        lemma_split_nonempty(s.drop_last(), sep);
    }
}

/// Splits `s` at every `sep`.
pub fn split(s: &str, sep: char) -> (r: Vec<String>)
    ensures
        texts(r@) == split_spec(s@, sep),
{
    let cs = chars_of(s);
    let mut done: Vec<String> = Vec::new();
    let mut start: usize = 0;
    let mut i: usize = 0;
    assert(s@.take(0) =~= Seq::<char>::empty());
    assert(texts(done@).push(s@.subrange(0, 0)) =~= seq![Seq::<char>::empty()]);
    while i < cs.len()
        invariant
            cs@ == s@,
            start <= i <= cs.len(),
            split_spec(s@.take(i as int), sep) == texts(done@).push(
                s@.subrange(start as int, i as int),
            ),
        decreases cs.len() - i,
    {
        let ghost before = s@.take(i as int);
        let ghost now = s@.take(i + 1);
        let ghost init = texts(done@).push(s@.subrange(start as int, i as int));
        assert(now.drop_last() =~= before);
        assert(now.last() == cs@[i as int]);
        if cs[i] == sep {
            let piece = String::from_str(s.substring_char(start, i));
            let ghost old_done = done@;
            done.push(piece);
            assert(texts(done@) =~= texts(old_done).push(s@.subrange(start as int, i as int)));
            start = i + 1;
            assert(s@.subrange(start as int, i + 1) =~= Seq::<char>::empty());
        } else {
            assert(init.drop_last() =~= texts(done@));
            assert(init.last().push(cs@[i as int]) =~= s@.subrange(start as int, i + 1));
        }
        i += 1;
    }
    assert(s@.take(i as int) =~= s@);
    let piece = String::from_str(s.substring_char(start, i));
    let ghost old_done = done@;
    done.push(piece);
    assert(texts(done@) =~= texts(old_done).push(s@.subrange(start as int, i as int)));
    done
}

/// A blank: a space, a tab, a line feed or a carriage return.
pub open spec fn is_blank(c: char) -> bool {
    c == ' ' || c == '\t' || c == '\n' || c == '\r'
}

/// A character that surrounds a path expression: a brace or a blank.
pub open spec fn is_wrapping(c: char) -> bool {
    c == '{' || c == '}' || is_blank(c)
}

/// The first position from `i` on that holds no wrapping character.
pub open spec fn strip_start(s: Seq<char>, i: int) -> int
    decreases s.len() - i,
{
    if 0 <= i < s.len() && is_wrapping(s[i]) {
        strip_start(s, i + 1)
    } else {
        i
    }
}

/// The end of the text that is left of `s[from..j]` once the wrapping
/// characters at its end are taken away.
pub open spec fn strip_end(s: Seq<char>, from: int, j: int) -> int
    decreases j,
{
    if 0 <= from < j <= s.len() && is_wrapping(s[j - 1]) {
        strip_end(s, from, j - 1)
    } else {
        j
    }
}

/// `s` without the braces and blanks at its two ends.
pub open spec fn strip_spec(s: Seq<char>) -> Seq<char> {
    let a = strip_start(s, 0);
    let b = strip_end(s, a, s.len() as int);
    s.subrange(a, b)
}

fn wrapping(c: char) -> (r: bool)
    ensures
        r == is_wrapping(c),
{
    c == '{' || c == '}' || c == ' ' || c == '\t' || c == '\n' || c == '\r'
}

/// Takes the braces and blanks away from both ends of `s`.
pub fn strip(s: &str) -> (r: String)
    ensures
        r@ == strip_spec(s@),
{
    let cs = chars_of(s);
    let mut a: usize = 0;
    while a < cs.len() && wrapping(cs[a])
        invariant
            cs@ == s@,
            a <= cs.len(),
            strip_start(s@, 0) == strip_start(s@, a as int),
        decreases cs.len() - a,
    {
        a += 1;
    }
    let mut b: usize = cs.len();
    while b > a && wrapping(cs[b - 1])
        invariant
            cs@ == s@,
            a <= b <= cs.len(),
            strip_end(s@, a as int, s@.len() as int) == strip_end(s@, a as int, b as int),
        decreases b,
    {
        b -= 1;
    }
    String::from_str(s.substring_char(a, b))
}

} // verus!
