//! Text as sequences of characters: white space, trimming, splitting into
//! words, prefixes.

use vstd::prelude::*;
use vstd::string::*;

verus! {

/// The characters that Unicode lists as white space.
pub open spec fn is_space(c: char) -> bool {
    let n = c as u32;
    (0x09 <= n <= 0x0D) || n == 0x20 || n == 0x85 || n == 0xA0 || n == 0x1680 || (0x2000 <= n
        <= 0x200A) || n == 0x2028 || n == 0x2029 || n == 0x202F || n == 0x205F || n == 0x3000
}

/// Whether `c` is white space.
pub fn is_whitespace(c: char) -> (b: bool)
    ensures
        b == is_space(c),
{
    let n: u32 = c as u32;
    (0x09 <= n && n <= 0x0D) || n == 0x20 || n == 0x85 || n == 0xA0 || n == 0x1680 || (0x2000 <= n
        && n <= 0x200A) || n == 0x2028 || n == 0x2029 || n == 0x202F || n == 0x205F || n == 0x3000
}

/// Whether trimming removes `c`: any white space, or the blank alone.
pub open spec fn strips(c: char, blanks_only: bool) -> bool {
    if blanks_only {
        c == ' '
    } else {
        is_space(c)
    }
}

/// Whether trimming removes `c`.
pub fn is_stripped(c: char, blanks_only: bool) -> (b: bool)
    ensures
        b == strips(c, blanks_only),
{
    if blanks_only {
        c == ' '
    } else {
        is_whitespace(c)
    }
}

/// How many characters at the front of `s` trimming removes.
pub open spec fn leading(s: Seq<char>, blanks_only: bool) -> nat
    decreases s.len(),
{
    if s.len() > 0 && strips(s[0], blanks_only) {
        1 + leading(s.drop_first(), blanks_only)
    } else {
        0
    }
}

/// How many characters at the back of `s` trimming removes.
pub open spec fn trailing(s: Seq<char>, blanks_only: bool) -> nat
    decreases s.len(),
{
    if s.len() > 0 && strips(s.last(), blanks_only) {
        1 + trailing(s.drop_last(), blanks_only)
    } else {
        0
    }
}

/// `s` without the white space at its front.
pub open spec fn trim_start(s: Seq<char>) -> Seq<char> {
    s.skip(leading(s, false) as int)
}

/// `s` without the white space at its back.
pub open spec fn trim_end(s: Seq<char>) -> Seq<char> {
    s.take(s.len() - trailing(s, false))
}

/// `s` without the white space at either end.
pub open spec fn trim(s: Seq<char>) -> Seq<char> {
    trim_end(trim_start(s))
}

/// `s` without the blanks at either end; other white space stays.
pub open spec fn trim_blanks(s: Seq<char>) -> Seq<char> {
    let t = s.skip(leading(s, true) as int);
    t.take(t.len() - trailing(t, true))
}

/// The characters of a string, one by one.
pub fn chars_of(s: &str) -> (r: Vec<char>)
    ensures
        r@ == s@,
{
    let mut out: Vec<char> = Vec::new();
    for c in it: s.chars()
        invariant
            out@ == it.seq().take(it.index()),
            it.seq() == s@,
    {
        out.push(c);
    }
    out
}

/// `String::push` of the standard library appends the given character to the
/// string: as a sequence of characters, the string after the call is the
/// string before it with `ch` at its end. This is taken on trust.
pub assume_specification[ String::push ](s: &mut String, ch: char)
    ensures
        final(s)@ == old(s)@.push(ch),
;

/// A string made of the given characters.
pub fn string_of(v: &Vec<char>) -> (r: String)
    ensures
        r@ == v@,
{
    let mut out = String::new();
    let mut i: usize = 0;
    while i < v.len()
        invariant
            i <= v.len(),
            out@ == v@.take(i as int),
        decreases v.len() - i,
    {
        out.push(v[i]);
        i += 1;
    }
    out
}

/// The characters of `s` from `lo` up to `hi`.
pub fn slice_of(s: &Vec<char>, lo: usize, hi: usize) -> (r: Vec<char>)
    requires
        lo <= hi <= s.len(),
    ensures
        r@ == s@.subrange(lo as int, hi as int),
{
    let mut out: Vec<char> = Vec::new();
    let mut i: usize = lo;
    while i < hi
        invariant
            lo <= i <= hi <= s.len(),
            out@ == s@.subrange(lo as int, i as int),
        decreases hi - i,
    {
        out.push(s[i]);
        i += 1;
    }
    out
}

/// Appends the characters of `src` to `dst`.
pub fn append_chars(dst: &mut Vec<char>, src: &Vec<char>)
    ensures
        final(dst)@ == old(dst)@ + src@,
{
    let mut i: usize = 0;
    while i < src.len()
        invariant
            i <= src.len(),
            dst@ == old(dst)@ + src@.take(i as int),
        decreases src.len() - i,
    {
        dst.push(src[i]);
        i += 1;
    }
}

/// Appends the characters of a string to `dst`.
pub fn append_str(dst: &mut Vec<char>, src: &str)
    ensures
        final(dst)@ == old(dst)@ + src@,
{
    for c in it: src.chars()
        invariant
            dst@ == old(dst)@ + it.seq().take(it.index()),
            it.seq() == src@,
    {
        dst.push(c);
    }
}

/// Where the part of `s` that trimming keeps begins and ends. `front` and
/// `back` say which ends are trimmed.
fn trim_bounds(s: &Vec<char>, front: bool, back: bool, blanks_only: bool) -> (r: (usize, usize))
    ensures
        r.0 <= r.1 <= s.len(),
        r.0 == if front { leading(s@, blanks_only) } else { 0 },
        s.len() - r.1 == if back { trailing(s@.skip(r.0 as int), blanks_only) } else { 0 },
{
    let n = s.len();
    let mut lo: usize = 0;
    if front {
        assert(s@.skip(0) =~= s@);
        while lo < n && is_stripped(s[lo], blanks_only)
            invariant
                lo <= n == s.len(),
                leading(s@, blanks_only) == lo + leading(s@.skip(lo as int), blanks_only),
            decreases n - lo,
        {
            assert(s@.skip(lo as int).drop_first() =~= s@.skip(lo + 1));
            lo += 1;
        }
    }
    let mut hi: usize = n;
    if back {
        assert(s@.skip(lo as int) =~= s@.subrange(lo as int, hi as int));
        while hi > lo && is_stripped(s[hi - 1], blanks_only)
            invariant
                lo <= hi <= n == s.len(),
                trailing(s@.skip(lo as int), blanks_only) == (n - hi) + trailing(
                    s@.subrange(lo as int, hi as int),
                    blanks_only,
                ),
            decreases hi,
        {
            assert(s@.subrange(lo as int, hi as int).drop_last() =~= s@.subrange(
                lo as int,
                hi - 1,
            ));
            hi -= 1;
        }
    }
    (lo, hi)
}

/// `s` without the white space at either end.
pub fn trimmed(s: &Vec<char>) -> (r: Vec<char>)
    ensures
        r@ == trim(s@),
{
    let (lo, hi) = trim_bounds(s, true, true, false);
    assert(s@.skip(lo as int).take(hi - lo) =~= s@.subrange(lo as int, hi as int));
    slice_of(s, lo, hi)
}

/// `s` without the white space at its front.
pub fn trimmed_start(s: &Vec<char>) -> (r: Vec<char>)
    ensures
        r@ == trim_start(s@),
{
    let (lo, hi) = trim_bounds(s, true, false, false);
    assert(s@.skip(lo as int) =~= s@.subrange(lo as int, hi as int));
    slice_of(s, lo, hi)
}

/// `s` without the white space at its back.
pub fn trimmed_end(s: &Vec<char>) -> (r: Vec<char>)
    ensures
        r@ == trim_end(s@),
{
    let (lo, hi) = trim_bounds(s, false, true, false);
    assert(s@.skip(0) =~= s@);
    assert(s@.take(hi as int) =~= s@.subrange(lo as int, hi as int));
    slice_of(s, lo, hi)
}

/// `s` without the blanks at either end.
pub fn trimmed_blanks(s: &Vec<char>) -> (r: Vec<char>)
    ensures
        r@ == trim_blanks(s@),
{
    let (lo, hi) = trim_bounds(s, true, true, true);
    assert(s@.skip(lo as int).take(hi - lo) =~= s@.subrange(lo as int, hi as int));
    slice_of(s, lo, hi)
}

/// The length of the run of characters other than white space at the front
/// of `s`.
pub open spec fn word_len(s: Seq<char>) -> nat
    decreases s.len(),
{
    if s.len() > 0 && !is_space(s[0]) {
        1 + word_len(s.drop_first())
    } else {
        0
    }
}

/// A word is not longer than the text that it begins.
pub proof fn lemma_word_len_bound(s: Seq<char>)
    ensures
        word_len(s) <= s.len(),
    decreases s.len(),
{
    if s.len() > 0 && !is_space(s[0]) {
        lemma_word_len_bound(s.drop_first());
    }
}

/// The words of `s`: its maximal runs of characters other than white space,
/// from left to right.
pub open spec fn words_of(s: Seq<char>) -> Seq<Seq<char>>
    decreases s.len(),
{
    if s.len() == 0 {
        Seq::empty()
    } else if is_space(s[0]) {
        words_of(s.drop_first())
    } else {
        let n = word_len(s) as int;
        // The run is never longer than the text: see `lemma_word_len_bound`.
        if n <= s.len() {
            seq![s.take(n)] + words_of(s.skip(n))
        } else {
            Seq::empty()
        }
    }
}

/// Trimming the back removes no more than there is.
pub proof fn lemma_trailing_bound(s: Seq<char>, blanks_only: bool)
    ensures
        trailing(s, blanks_only) <= s.len(),
    decreases s.len(),
{
    if s.len() > 0 && strips(s.last(), blanks_only) {
        lemma_trailing_bound(s.drop_last(), blanks_only);
    }
}

/// Where trimming the front leaves anything, it begins with a character that
/// is no white space.
pub proof fn lemma_trim_start_begins(s: Seq<char>)
    ensures
        leading(s, false) <= s.len(),
        trim_start(s).len() > 0 ==> !is_space(trim_start(s)[0]),
    decreases s.len(),
{
    if s.len() > 0 && is_space(s[0]) {
        lemma_trim_start_begins(s.drop_first());
        assert(s.drop_first().skip(leading(s.drop_first(), false) as int) =~= s.skip(
            leading(s, false) as int,
        ));
    }
}

/// A text that is trimmed begins with its first word.
pub proof fn lemma_first_word_begins(s: Seq<char>)
    requires
        words_of(trim(s)).len() > 0,
    ensures
        words_of(trim(s))[0].is_prefix_of(trim(s)),
{
    let text = trim(s);
    lemma_trim_start_begins(s);
    lemma_word_len_bound(text);
    lemma_trailing_bound(trim_start(s), false);
    assert(text.len() > 0);
    assert(text[0] == trim_start(s)[0]);
    assert(text.take(word_len(text) as int) =~= text.subrange(0, word_len(text) as int));
}

/// What a list of texts holds.
pub open spec fn texts_of(v: Seq<Vec<char>>) -> Seq<Seq<char>> {
    Seq::new(v.len(), |i: int| v[i]@)
}

/// The run of characters that `word_len` measures holds no white space.
pub proof fn lemma_word_has_no_space(s: Seq<char>, j: int)
    requires
        0 <= j < word_len(s),
    ensures
        j < s.len(),
        !is_space(s[j]),
    decreases s.len(),
{
    if j > 0 {
        lemma_word_has_no_space(s.drop_first(), j - 1);
    }
}

/// Every word of a text has at least one character, and none of its
/// characters is white space.
pub proof fn lemma_words_are_words(s: Seq<char>, i: int)
    requires
        0 <= i < words_of(s).len(),
    ensures
        words_of(s)[i].len() > 0,
        forall|j: int| 0 <= j < words_of(s)[i].len() ==> !is_space(#[trigger] words_of(s)[i][j]),
    decreases s.len(),
{
    if s.len() == 0 {
    } else if is_space(s[0]) {
        lemma_words_are_words(s.drop_first(), i);
    } else {
        let n = word_len(s) as int;
        lemma_word_len_bound(s);
        if i == 0 {
            assert forall|j: int| 0 <= j < words_of(s)[0].len() implies !is_space(
                #[trigger] words_of(s)[0][j],
            ) by {
                lemma_word_has_no_space(s, j);
            }
        } else {
            lemma_words_are_words(s.skip(n), i - 1);
        }
    }
}

/// Splits a line at white space.
pub fn split_whitespace(s: &Vec<char>) -> (r: Vec<Vec<char>>)
    ensures
        texts_of(r@) == words_of(s@),
{
    let n = s.len();
    let mut out: Vec<Vec<char>> = Vec::new();
    let mut i: usize = 0;
    assert(s@.skip(0) =~= s@);
    assert(texts_of(out@) =~= Seq::<Seq<char>>::empty());
    while i < n
        invariant
            i <= n == s.len(),
            words_of(s@) == texts_of(out@) + words_of(s@.skip(i as int)),
        decreases n - i,
    {
        if is_whitespace(s[i]) {
            assert(s@.skip(i as int).drop_first() =~= s@.skip(i + 1));
            i += 1;
        } else {
            let start = i;
            let ghost rest = s@.skip(start as int);
            while i < n && !is_whitespace(s[i])
                invariant
                    start <= i <= n == s.len(),
                    word_len(rest) == (i - start) + word_len(s@.skip(i as int)),
                    rest == s@.skip(start as int),
                decreases n - i,
            {
                assert(s@.skip(i as int).drop_first() =~= s@.skip(i + 1));
                i += 1;
            }
            let word = slice_of(s, start, i);
            proof {
                assert(word_len(rest) == i - start);
                assert(rest.take(i - start) =~= s@.subrange(start as int, i as int));
                assert(rest.skip(i - start) =~= s@.skip(i as int));
                assert(texts_of(out@).push(word@) + words_of(s@.skip(i as int))
                    =~= texts_of(out@) + (seq![word@] + words_of(s@.skip(i as int))));
            }
            let ghost before = texts_of(out@);
            out.push(word);
            assert(texts_of(out@) =~= before.push(word@));
        }
    }
    assert(texts_of(out@) + Seq::<Seq<char>>::empty() =~= texts_of(out@));
    out
}

/// Whether `text` begins with `prefix`.
pub fn starts_with(text: &Vec<char>, prefix: &Vec<char>) -> (b: bool)
    ensures
        b == prefix@.is_prefix_of(text@),
{
    if prefix.len() > text.len() {
        return false;
    }
    let mut i: usize = 0;
    while i < prefix.len()
        invariant
            i <= prefix.len() <= text.len(),
            prefix@.take(i as int) == text@.take(i as int),
        decreases prefix.len() - i,
    {
        if prefix[i] != text[i] {
            assert(prefix@.is_prefix_of(text@) ==> text@.subrange(0, prefix@.len() as int)[i as int]
                == prefix@[i as int]);
            return false;
        }
        assert(prefix@.take(i + 1) =~= prefix@.take(i as int).push(prefix@[i as int]));
        assert(text@.take(i + 1) =~= text@.take(i as int).push(text@[i as int]));
        i += 1;
    }
    assert(prefix@.take(prefix@.len() as int) =~= prefix@);
    true
}

/// Whether two texts hold the same characters.
pub fn same_text(a: &Vec<char>, b: &Vec<char>) -> (r: bool)
    ensures
        r == (a@ == b@),
{
    let r = a.len() == b.len() && starts_with(a, b);
    proof {
        if r {
            assert(a@.subrange(0, b@.len() as int) =~= a@);
        }
        if a@ == b@ {
            assert(b@ =~= a@.subrange(0, b@.len() as int));
        }
    }
    r
}

/// Whether `text` is the given literal.
pub fn is_literal(text: &Vec<char>, literal: &str) -> (b: bool)
    ensures
        b == (text@ == literal@),
{
    let mut ok = true;
    let mut i: usize = 0;
    for c in it: literal.chars()
        invariant
            it.seq() == literal@,
            ok ==> i == it.index() && i <= text.len() && text@.take(i as int) == literal@.take(
                i as int,
            ),
            !ok ==> text@ != literal@,
    {
        if ok {
            if i < text.len() && text[i] == c {
                assert(text@.take(i + 1) =~= text@.take(i as int).push(text@[i as int]));
                assert(literal@.take(i + 1) =~= literal@.take(i as int).push(literal@[i as int]));
                i += 1;
            } else {
                assert(text@ == literal@ ==> text@[i as int] == literal@[i as int]);
                ok = false;
            }
        }
    }
    proof {
        if ok {
            assert(literal@.take(literal@.len() as int) =~= literal@);
            if i == text.len() {
                assert(text@.take(i as int) =~= text@);
            }
        }
    }
    ok && i == text.len()
}

/// A copy of a text.
pub fn copy_text(s: &Vec<char>) -> (r: Vec<char>)
    ensures
        r@ == s@,
{
    let r = slice_of(s, 0, s.len());
    assert(s@.subrange(0, s@.len() as int) =~= s@);
    r
}

} // verus!
