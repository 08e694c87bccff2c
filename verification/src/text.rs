//! Conversions between strings and character vectors, on which the rest of
//! the library scans and builds text.

use vstd::prelude::*;

verus! {

/// `String::push` of std appends one character to the end of the string.
pub assume_specification[ String::push ](s: &mut String, ch: char)
    ensures
        final(s)@ == old(s)@.push(ch),
;

/// The characters of `s`, in order.
pub fn chars_of(s: &str) -> (v: Vec<char>)
    ensures
        v@ == s@,
{
    let mut v: Vec<char> = Vec::new();
    for c in it: s.chars()
        invariant
            it.seq() == s@,
            v@ == s@.subrange(0, it.index() as int),
    {
        v.push(c);
        assert(v@ =~= s@.subrange(0, it.index() + 1));
    }
    assert(v@ =~= s@);
    v
}

/// The string made of the characters `v[from..to]`.
pub fn string_of_range(v: &Vec<char>, from: usize, to: usize) -> (s: String)
    requires
        from <= to <= v.len(),
    ensures
        s@ == v@.subrange(from as int, to as int),
{
    let mut s = String::new();
    let mut i: usize = from;
    while i < to
        invariant
            from <= i <= to <= v.len(),
            s@ == v@.subrange(from as int, i as int),
        decreases to - i,
    {
        s.push(v[i]);
        i += 1;
        assert(s@ =~= v@.subrange(from as int, i as int));
    }
    s
}

/// The string made of the characters of `v`.
pub fn string_of(v: &Vec<char>) -> (s: String)
    ensures
        s@ == v@,
{
    let s = string_of_range(v, 0, v.len());
    assert(v@.subrange(0, v.len() as int) =~= v@);
    s
}

/// The texts of a sequence of strings: each string seen as its characters.
pub open spec fn texts(v: Seq<String>) -> Seq<Seq<char>> {
    v.map_values(|s: String| s@)
}

/// Appending a string appends its text.
pub proof fn lemma_texts_push(v: Seq<String>, s: String)
    ensures
        texts(v.push(s)) == texts(v).push(s@),
{
    assert(texts(v.push(s)) =~= texts(v).push(s@));
}

/// The four characters that separate words on a command line.
pub open spec fn is_blank(c: char) -> bool {
    c == ' ' || c == '\t' || c == '\n' || c == '\r'
}

/// Whether `c` separates words on a command line.
pub fn blank(c: char) -> (b: bool)
    ensures
        b == is_blank(c),
{
    c == ' ' || c == '\t' || c == '\n' || c == '\r'
}

/// Whether a character has Unicode's White_Space property, as
/// `char::is_whitespace` of std reports it.
pub uninterp spec fn white_space(c: char) -> bool;

/// `char::is_whitespace` of std tells whether the character has the
/// White_Space property; the result is a function of the character alone.
pub assume_specification[ char::is_whitespace ](c: char) -> (b: bool)
    ensures
        b == white_space(c),
;

/// The first position at or after `i` that holds no white space.
pub open spec fn trim_start_at(s: Seq<char>, i: int) -> int
    decreases s.len() - i,
{
    if 0 <= i < s.len() && white_space(s[i]) {
        trim_start_at(s, i + 1)
    } else {
        i
    }
}

/// The end of what is left of `s[lo..j]` once its trailing white space is
/// gone.
pub open spec fn trim_end_at(s: Seq<char>, lo: int, j: int) -> int
    decreases j,
{
    if 0 <= lo < j <= s.len() && white_space(s[j - 1]) {
        trim_end_at(s, lo, j - 1)
    } else {
        j
    }
}

/// `s` without its leading and trailing white space.
pub open spec fn trimmed(s: Seq<char>) -> Seq<char> {
    let a = trim_start_at(s, 0);
    let b = trim_end_at(s, a, s.len() as int);
    s.subrange(a, b)
}

/// The start of the trimmed text lies between `i` and the end.
pub proof fn lemma_trim_start_within(s: Seq<char>, i: int)
    requires
        0 <= i <= s.len(),
    ensures
        i <= trim_start_at(s, i) <= s.len(),
    decreases s.len() - i,
{
    if i < s.len() && white_space(s[i]) {
        lemma_trim_start_within(s, i + 1);
    }
}

/// The end of the trimmed text lies between `lo` and `j`.
pub proof fn lemma_trim_end_within(s: Seq<char>, lo: int, j: int)
    requires
        0 <= lo <= j <= s.len(),
    ensures
        lo <= trim_end_at(s, lo, j) <= j,
    decreases j,
{
    if lo < j && white_space(s[j - 1]) {
        lemma_trim_end_within(s, lo, j - 1);
    }
}

/// Trimming leaves a part of the text: every character of what is left is
/// a character of the text.
pub proof fn lemma_trimmed_is_part(s: Seq<char>)
    ensures
        trimmed(s).len() <= s.len(),
        forall|k: int|
            0 <= k < trimmed(s).len() ==> #[trigger] trimmed(s)[k] == s[trim_start_at(s, 0) + k],
        0 <= trim_start_at(s, 0),
        trim_start_at(s, 0) + trimmed(s).len() <= s.len(),
{
    lemma_trim_start_within(s, 0);
    lemma_trim_end_within(s, trim_start_at(s, 0), s.len() as int);
}

/// The bounds of `v` without its leading and trailing white space.
pub fn trim_bounds(v: &Vec<char>) -> (r: (usize, usize))
    ensures
        r.0 == trim_start_at(v@, 0),
        r.1 == trim_end_at(v@, r.0 as int, v.len() as int),
        r.0 <= r.1 <= v.len(),
{
    let mut a: usize = 0;
    while a < v.len() && v[a].is_whitespace()
        invariant
            a <= v.len(),
            trim_start_at(v@, 0) == trim_start_at(v@, a as int),
        decreases v.len() - a,
    {
        a += 1;
    }
    let mut b: usize = v.len();
    while b > a && v[b - 1].is_whitespace()
        invariant
            a <= b <= v.len(),
            trim_end_at(v@, a as int, v.len() as int) == trim_end_at(v@, a as int, b as int),
        decreases b,
    {
        b -= 1;
    }
    (a, b)
}

/// `s` without its leading and trailing white space.
pub fn trim(s: &str) -> (t: String)
    ensures
        t@ == trimmed(s@),
{
    let v = chars_of(s);
    let (a, b) = trim_bounds(&v);
    string_of_range(&v, a, b)
}

/// A copy of the characters `v[from..to]`.
pub fn copy_range(v: &Vec<char>, from: usize, to: usize) -> (r: Vec<char>)
    requires
        from <= to <= v.len(),
    ensures
        r@ == v@.subrange(from as int, to as int),
{
    let mut r: Vec<char> = Vec::new();
    let mut i: usize = from;
    while i < to
        invariant
            from <= i <= to <= v.len(),
            r@ == v@.subrange(from as int, i as int),
        decreases to - i,
    {
        r.push(v[i]);
        i += 1;
        assert(r@ =~= v@.subrange(from as int, i as int));
    }
    r
}

/// A copy of the strings of `v`.
pub fn clone_texts(v: &Vec<String>) -> (r: Vec<String>)
    ensures
        texts(r@) == texts(v@),
{
    let mut r: Vec<String> = Vec::new();
    let mut i: usize = 0;
    assert(texts(r@) =~= texts(v@).subrange(0, 0));
    while i < v.len()
        invariant
            i <= v.len(),
            texts(r@) == texts(v@).subrange(0, i as int),
        decreases v.len() - i,
    {
        let s = v[i].clone();
        proof {
            lemma_texts_push(r@, s);
        }
        r.push(s);
        i += 1;
        assert(texts(r@) =~= texts(v@).subrange(0, i as int));
    }
    assert(texts(v@).subrange(0, v.len() as int) =~= texts(v@));
    r
}

/// The words joined by single spaces.
pub open spec fn join_words(words: Seq<Seq<char>>) -> Seq<char>
    decreases words.len(),
{
    if words.len() == 0 {
        Seq::empty()
    } else if words.len() == 1 {
        words[0]
    } else {
        words[0] + seq![' '] + join_words(words.drop_first())
    }
}

/// Joining one more word adds it after a space, or alone if it is the first.
pub proof fn lemma_join_push(words: Seq<Seq<char>>, w: Seq<char>)
    ensures
        join_words(words.push(w)) == if words.len() == 0 {
            w
        } else {
            join_words(words) + seq![' '] + w
        },
    decreases words.len(),
{
    let all = words.push(w);
    if words.len() > 0 {
        assert(all.drop_first() =~= words.drop_first().push(w));
        lemma_join_push(words.drop_first(), w);
        if words.len() == 1 {
            assert(join_words(all) =~= join_words(words) + seq![' '] + w);
        } else {
            assert(join_words(all) =~= join_words(words) + seq![' '] + w);
        }
    }
}

/// Appends the words of `words`, joined by single spaces, to `out`.
pub fn push_joined(out: &mut String, words: &Vec<String>)
    ensures
        final(out)@ == old(out)@ + join_words(texts(words@)),
{
    let ghost all = texts(words@);
    let mut i: usize = 0;
    assert(all.subrange(0, 0) =~= Seq::<Seq<char>>::empty());
    assert(out@ =~= old(out)@ + join_words(all.subrange(0, 0)));
    while i < words.len()
        invariant
            i <= words.len(),
            all == texts(words@),
            out@ == old(out)@ + join_words(all.subrange(0, i as int)),
        decreases words.len() - i,
    {
        let ghost before = out@;
        if i > 0 {
            out.push(' ');
        }
        push_text(out, words[i].as_str());
        proof {
            lemma_join_push(all.subrange(0, i as int), all[i as int]);
            assert(all.subrange(0, i as int).push(all[i as int]) =~= all.subrange(0, i + 1));
            assert(out@ =~= old(out)@ + join_words(all.subrange(0, i + 1)));
        }
        i += 1;
    }
    assert(all.subrange(0, words.len() as int) =~= all);
}

/// The words joined by `sep`.
pub open spec fn joined(words: Seq<Seq<char>>, sep: Seq<char>) -> Seq<char>
    decreases words.len(),
{
    if words.len() == 0 {
        Seq::empty()
    } else if words.len() == 1 {
        words[0]
    } else {
        joined(words.drop_last(), sep) + sep + words.last()
    }
}

/// Appends the words of `words`, joined by `sep`, to `out`.
pub fn push_joined_by(out: &mut String, words: &Vec<String>, sep: &str)
    ensures
        final(out)@ == old(out)@ + joined(texts(words@), sep@),
{
    let ghost all = texts(words@);
    let mut i: usize = 0;
    assert(all.subrange(0, 0) =~= Seq::<Seq<char>>::empty());
    assert(out@ =~= old(out)@ + joined(all.subrange(0, 0), sep@));
    while i < words.len()
        invariant
            i <= words.len(),
            all == texts(words@),
            out@ == old(out)@ + joined(all.subrange(0, i as int), sep@),
        decreases words.len() - i,
    {
        if i > 0 {
            push_text(out, sep);
        }
        push_text(out, words[i].as_str());
        proof {
            let longer = all.subrange(0, i + 1);
            assert(longer.drop_last() =~= all.subrange(0, i as int));
            assert(longer.last() == words@[i as int]@);
            assert(out@ =~= old(out)@ + joined(longer, sep@));
        }
        i += 1;
    }
    assert(all.subrange(0, words.len() as int) =~= all);
}

/// Appends the characters of `v` to `out`.
pub fn push_chars(out: &mut String, v: &Vec<char>)
    ensures
        final(out)@ == old(out)@ + v@,
{
    let mut i: usize = 0;
    assert(out@ =~= old(out)@ + v@.subrange(0, 0));
    while i < v.len()
        invariant
            i <= v.len(),
            out@ == old(out)@ + v@.subrange(0, i as int),
        decreases v.len() - i,
    {
        out.push(v[i]);
        i += 1;
        assert(out@ =~= old(out)@ + v@.subrange(0, i as int));
    }
    assert(v@.subrange(0, v.len() as int) =~= v@);
}

/// Appends the text of `s` to `out`.
pub fn push_text(out: &mut String, s: &str)
    ensures
        final(out)@ == old(out)@ + s@,
{
    let v = chars_of(s);
    push_chars(out, &v);
}

/// Whether two strings hold the same text.
pub fn same_text(a: &str, b: &str) -> (r: bool)
    ensures
        r == (a@ == b@),
{
    let x = chars_of(a);
    let y = chars_of(b);
    if x.len() != y.len() {
        return false;
    }
    let mut i: usize = 0;
    while i < x.len()
        invariant
            i <= x.len(),
            x.len() == y.len(),
            x@ == a@,
            y@ == b@,
            forall|k: int| 0 <= k < i ==> x@[k] == y@[k],
        decreases x.len() - i,
    {
        if x[i] != y[i] {
            return false;
        }
        i += 1;
    }
    assert(x@ =~= y@);
    true
}

/// The character of a decimal digit.
pub open spec fn digit_char(d: nat) -> char
    recommends
        d < 10,
{
    if d == 0 {
        '0'
    } else if d == 1 {
        '1'
    } else if d == 2 {
        '2'
    } else if d == 3 {
        '3'
    } else if d == 4 {
        '4'
    } else if d == 5 {
        '5'
    } else if d == 6 {
        '6'
    } else if d == 7 {
        '7'
    } else if d == 8 {
        '8'
    } else {
        '9'
    }
}

/// The decimal digits of `n`, without leading zeros.
pub open spec fn decimal(n: nat) -> Seq<char>
    decreases n,
{
    if n < 10 {
        seq![digit_char(n)]
    } else {
        decimal(n / 10).push(digit_char(n % 10))
    }
}

/// `t` with spaces before it up to the given width.
pub open spec fn padded(t: Seq<char>, width: nat) -> Seq<char> {
    if t.len() >= width {
        t
    } else {
        Seq::new((width - t.len()) as nat, |i: int| ' ') + t
    }
}

/// The character of the decimal digit `d`.
pub fn digit_of(d: usize) -> (c: char)
    requires
        d < 10,
    ensures
        c == digit_char(d as nat),
{
    if d == 0 {
        '0'
    } else if d == 1 {
        '1'
    } else if d == 2 {
        '2'
    } else if d == 3 {
        '3'
    } else if d == 4 {
        '4'
    } else if d == 5 {
        '5'
    } else if d == 6 {
        '6'
    } else if d == 7 {
        '7'
    } else if d == 8 {
        '8'
    } else {
        '9'
    }
}

/// The decimal digits of `n`.
pub fn decimal_text(n: usize) -> (v: Vec<char>)
    ensures
        v@ == decimal(n as nat),
    decreases n,
{
    if n < 10 {
        let mut v: Vec<char> = Vec::new();
        v.push(digit_of(n));
        assert(v@ =~= seq![digit_char(n as nat)]);
        v
    } else {
        let mut v = decimal_text(n / 10);
        v.push(digit_of(n % 10));
        v
    }
}

/// Appends `n` in decimal to `out`, after as many spaces as it takes to
/// fill `width` columns.
pub fn push_padded_number(out: &mut String, n: usize, width: usize)
    ensures
        final(out)@ == old(out)@ + padded(decimal(n as nat), width as nat),
{
    let digits = decimal_text(n);
    let ghost start = out@;
    if digits.len() < width {
        let gap: usize = width - digits.len();
        let mut i: usize = 0;
        assert(out@ =~= start + Seq::new(0, |k: int| ' '));
        while i < gap
            invariant
                i <= gap,
                out@ == start + Seq::new(i as nat, |k: int| ' '),
            decreases gap - i,
        {
            out.push(' ');
            i += 1;
            assert(out@ =~= start + Seq::new(i as nat, |k: int| ' '));
        }
        push_chars(out, &digits);
        assert(out@ =~= start + (Seq::new(gap as nat, |k: int| ' ') + digits@));
    } else {
        push_chars(out, &digits);
    }
}

} // verus!
