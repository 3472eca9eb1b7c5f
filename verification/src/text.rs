//! Character-level text handling shared by the parsers: splitting into
//! whitespace-separated words, searching, and the few `std` character and
//! string operations the library relies on.
use vstd::prelude::*;

verus! {

/// Whether `c` has the Unicode `White_Space` property, which `char::is_whitespace`
/// tests: U+0009 to U+000D, U+0020, U+0085, U+00A0, U+1680, U+2000 to U+200A,
/// U+2028, U+2029, U+202F, U+205F and U+3000.
pub open spec fn char_is_whitespace(c: char) -> bool {
    let u = c as u32;
    ||| (0x9 <= u && u <= 0xd)
    ||| u == 0x20
    ||| u == 0x85
    ||| u == 0xa0
    ||| u == 0x1680
    ||| (0x2000 <= u && u <= 0x200a)
    ||| u == 0x2028
    ||| u == 0x2029
    ||| u == 0x202f
    ||| u == 0x205f
    ||| u == 0x3000
}

/// What `char::is_alphanumeric` answers for `c` (Unicode `Alphabetic` or `Numeric`).
pub uninterp spec fn char_is_alphanumeric(c: char) -> bool;

/// What `str::to_lowercase` returns for a string with characters `s`.
pub uninterp spec fn str_to_lowercase(s: Seq<char>) -> Seq<char>;

/// Whether `c` is whitespace, the way `char::is_whitespace` decides it: whether it
/// has the Unicode `White_Space` property.
pub fn is_whitespace(c: char) -> (b: bool)
    ensures
        b == char_is_whitespace(c),
{
    let u = c as u32;
    (0x9 <= u && u <= 0xd) || u == 0x20 || u == 0x85 || u == 0xa0 || u == 0x1680 || (0x2000
        <= u && u <= 0x200a) || u == 0x2028 || u == 0x2029 || u == 0x202f || u == 0x205f || u
        == 0x3000
}

/// An ASCII character.
pub open spec fn is_ascii_char(c: char) -> bool {
    (c as u32) < 128
}

/// A text of ASCII characters only.
pub open spec fn is_ascii_text(s: Seq<char>) -> bool {
    forall|i: int| 0 <= i < s.len() ==> is_ascii_char(#[trigger] s[i])
}

/// An ASCII letter or digit: `A`–`Z`, `a`–`z`, `0`–`9`.
pub open spec fn is_ascii_alphanumeric(c: char) -> bool {
    ('a' <= c && c <= 'z') || ('A' <= c && c <= 'Z') || ('0' <= c && c <= '9')
}

/// `c` with `A`–`Z` mapped to `a`–`z`.
pub open spec fn ascii_lower_char(c: char) -> char {
    if 'A' <= c && c <= 'Z' {
        ((c as u32) + 32) as char
    } else {
        c
    }
}

/// `s` with `A`–`Z` mapped to `a`–`z`.
pub open spec fn ascii_lowercase(s: Seq<char>) -> Seq<char> {
    s.map_values(|c: char| ascii_lower_char(c))
}

/// Calls `char::is_alphanumeric`; its answer is named `char_is_alphanumeric`. On
/// ASCII it answers true exactly for the letters and digits.
#[verifier::external_body]
pub(crate) fn is_alphanumeric(c: char) -> (b: bool)
    ensures
        b == char_is_alphanumeric(c),
        is_ascii_char(c) ==> (b <==> is_ascii_alphanumeric(c)),
{
    c.is_alphanumeric()
}

/// Calls `str::to_lowercase`; the characters of its result are named
/// `str_to_lowercase`. On an ASCII text it maps `A`–`Z` to `a`–`z` and keeps every
/// other character.
#[verifier::external_body]
pub(crate) fn to_lowercase(s: &str) -> (r: String)
    ensures
        r@ == str_to_lowercase(s@),
        is_ascii_text(s@) ==> r@ == ascii_lowercase(s@),
{
    s.to_lowercase()
}

/// Calls `String::push`, which appends one character to the end of the string.
#[verifier::external_body]
pub(crate) fn push_char(s: &mut String, c: char)
    ensures
        final(s)@ == old(s)@.push(c),
{
    s.push(c)
}

/// For each character of `s`, whether it is whitespace.
pub open spec fn blanks_of(s: Seq<char>) -> Seq<bool> {
    s.map_values(|c: char| char_is_whitespace(c))
}

/// The words of `s` when `blank` marks which of its characters separate words:
/// the maximal runs of unmarked characters, in order.
pub open spec fn words_where(s: Seq<char>, blank: Seq<bool>) -> Seq<Seq<char>>
    decreases s.len(),
{
    if s.len() == 0 || blank.len() != s.len() {
        seq![]
    } else {
        let prev = words_where(s.drop_last(), blank.drop_last());
        if blank.last() {
            prev
        } else if s.len() >= 2 && !blank[s.len() - 2] {
            prev.update(prev.len() - 1, prev.last().push(s.last()))
        } else {
            prev.push(seq![s.last()])
        }
    }
}

/// The whitespace-separated words of `s` (what `str::split_whitespace` yields).
pub open spec fn words_of(s: Seq<char>) -> Seq<Seq<char>> {
    words_where(s, blanks_of(s))
}

/// The marks of a text without its last character.
pub proof fn lemma_blanks_drop_last(s: Seq<char>)
    requires
        s.len() > 0,
    ensures
        blanks_of(s).drop_last() == blanks_of(s.drop_last()),
{
    assert(blanks_of(s).drop_last() =~= blanks_of(s.drop_last()));
}

/// A text whose last character is not a separator has at least one word.
pub proof fn lemma_words_nonempty(s: Seq<char>, blank: Seq<bool>)
    requires
        s.len() > 0,
        blank.len() == s.len(),
        !blank.last(),
    ensures
        words_where(s, blank).len() > 0,
    decreases s.len(),
{
    if s.len() >= 2 && !blank[s.len() - 2] {
        lemma_words_nonempty(s.drop_last(), blank.drop_last());
    }
}

/// Every word is non-empty.
pub proof fn lemma_words_shape(s: Seq<char>, blank: Seq<bool>)
    ensures
        forall|k: int|
            0 <= k < words_where(s, blank).len() ==> #[trigger] words_where(s, blank)[k].len() > 0,
    decreases s.len(),
{
    if s.len() > 0 && blank.len() == s.len() {
        lemma_words_shape(s.drop_last(), blank.drop_last());
        if !blank.last() && s.len() >= 2 && !blank[s.len() - 2] {
            lemma_words_nonempty(s.drop_last(), blank.drop_last());
        }
    }
}

/// A separator before a text does not change its words.
pub proof fn lemma_words_leading_blank(c: char, s: Seq<char>, blank: Seq<bool>)
    requires
        blank.len() == s.len(),
    ensures
        words_where(seq![c] + s, seq![true] + blank) == words_where(s, blank),
    decreases s.len(),
{
    let t = seq![c] + s;
    let tb = seq![true] + blank;
    if s.len() == 0 {
        assert(t.drop_last() =~= Seq::<char>::empty());
        assert(tb.drop_last() =~= Seq::<bool>::empty());
        assert(tb.last());
        assert(t.len() == 1 && tb.len() == 1);
        assert(words_where(t.drop_last(), tb.drop_last()) == Seq::<Seq<char>>::empty());
        assert(words_where(t, tb) =~= words_where(s, blank));
    } else {
        assert(t.drop_last() =~= seq![c] + s.drop_last());
        assert(tb.drop_last() =~= seq![true] + blank.drop_last());
        lemma_words_leading_blank(c, s.drop_last(), blank.drop_last());
        assert(t.last() == s.last());
        assert(tb.last() == blank.last());
        if s.len() >= 2 {
            assert(tb[tb.len() - 2] == blank[s.len() - 2]);
        } else {
            assert(tb[tb.len() - 2]);
        }
        assert(words_where(t, tb) == words_where(s, blank));
    }
}

/// Whitespace before a text does not change its words.
pub proof fn lemma_words_leading_whitespace(c: char, s: Seq<char>)
    requires
        char_is_whitespace(c),
    ensures
        words_of(seq![c] + s) == words_of(s),
{
    assert(blanks_of(seq![c] + s) =~= seq![true] + blanks_of(s));
    lemma_words_leading_blank(c, s, blanks_of(s));
}

/// Law: only the Unicode `White_Space` characters separate words. Space, tab,
/// line feed and the other ASCII controls from U+0009 to U+000D do; every other
/// ASCII character (letters, digits, punctuation such as `:`, `-`, `=`, `/`) does
/// not, and neither does any character above U+3000.
pub proof fn law_whitespace_characters(c: char)
    ensures
        (c as u32) < 128 && !(0x9 <= (c as u32) && (c as u32) <= 0xd) && c != ' '
            ==> !char_is_whitespace(c),
        (c as u32) > 0x3000 ==> !char_is_whitespace(c),
        0x9 <= (c as u32) && (c as u32) <= 0xd ==> char_is_whitespace(c),
        c == ' ' ==> char_is_whitespace(c),
{
}

/// Law: a text without a separator is one word, itself.
pub proof fn law_unbroken_text_is_one_word(w: Seq<char>)
    requires
        w.len() > 0,
        forall|i: int| 0 <= i < w.len() ==> !char_is_whitespace(#[trigger] w[i]),
    ensures
        words_of(w) == seq![w],
    decreases w.len(),
{
    lemma_blanks_drop_last(w);
    let b = blanks_of(w);
    assert(!b.last());
    if w.len() == 1 {
        assert(w.drop_last() =~= Seq::<char>::empty());
        assert(b.drop_last() =~= Seq::<bool>::empty());
        assert(words_where(w.drop_last(), b.drop_last()) =~= Seq::<Seq<char>>::empty());
        assert(seq![w.last()] =~= w);
        assert(words_of(w) =~= seq![w]);
    } else {
        let v = w.drop_last();
        assert forall|i: int| 0 <= i < v.len() implies !char_is_whitespace(#[trigger] v[i]) by {
            assert(v[i] == w[i]);
        }
        law_unbroken_text_is_one_word(v);
        assert(!b[w.len() - 2]);
        assert(v.push(w.last()) =~= w);
        assert(words_of(w) =~= seq![w]);
    }
}

/// Law: a text of printable ASCII characters other than space (such as
/// `build:prod` or `8080:80`) is one word, itself.
pub proof fn law_printable_ascii_is_one_word(w: Seq<char>)
    requires
        w.len() > 0,
        forall|i: int| 0 <= i < w.len() ==> '!' <= #[trigger] w[i] && w[i] <= '~',
    ensures
        words_of(w) == seq![w],
{
    assert forall|i: int| 0 <= i < w.len() implies !char_is_whitespace(#[trigger] w[i]) by {
        law_whitespace_characters(w[i]);
    }
    law_unbroken_text_is_one_word(w);
}

/// Law: kept characters are exactly the marked ones, in order: every marked
/// character is kept, and as many characters are kept as are marked.
pub proof fn law_kept_complete(s: Seq<char>, keep: Seq<bool>)
    requires
        keep.len() == s.len(),
    ensures
        forall|i: int| 0 <= i < s.len() && keep[i] ==> kept_where(s, keep).contains(#[trigger] s[i]),
        kept_where(s, keep).len() == keep.filter(|b: bool| b).len(),
    decreases s.len(),
{
    reveal(Seq::filter);
    if s.len() > 0 {
        let s0 = s.drop_last();
        let k0 = keep.drop_last();
        law_kept_complete(s0, k0);
        let prev = kept_where(s0, k0);
        let all = kept_where(s, keep);
        assert forall|i: int| 0 <= i < s.len() && keep[i] implies all.contains(#[trigger] s[i]) by {
            if i < s.len() - 1 {
                assert(s0[i] == s[i] && k0[i] == keep[i]);
                let k = choose|k: int| 0 <= k < prev.len() && prev[k] == s0[i];
                assert(all[k] == prev[k]);
            } else {
                assert(all[all.len() - 1] == s[i]);
            }
        }
    }
}

/// Law: `p` occurs in any text made of something, `p`, and something else; and a
/// text shorter than `p` does not hold it.
pub proof fn law_infix(a: Seq<char>, p: Seq<char>, b: Seq<char>)
    ensures
        has_infix(a + p + b, p),
        a.len() < p.len() ==> !has_infix(a, p),
{
    let s = a + p + b;
    assert(s.subrange(a.len() as int, a.len() as int + p.len()) =~= p);
}

/// Law: a whitespace character between two unbroken texts splits them into two
/// words, the texts themselves.
pub proof fn law_separator_splits(w1: Seq<char>, c: char, w2: Seq<char>)
    requires
        w1.len() > 0,
        w2.len() > 0,
        char_is_whitespace(c),
        forall|i: int| 0 <= i < w1.len() ==> !char_is_whitespace(#[trigger] w1[i]),
        forall|i: int| 0 <= i < w2.len() ==> !char_is_whitespace(#[trigger] w2[i]),
    ensures
        words_of(w1 + seq![c] + w2) == seq![w1, w2],
    decreases w2.len(),
{
    let t = w1 + seq![c] + w2;
    lemma_blanks_drop_last(t);
    let b = blanks_of(t);
    assert(t.last() == w2.last());
    assert(!b.last());
    if w2.len() == 1 {
        law_unbroken_text_is_one_word(w1);
        lemma_words_trailing_whitespace(c, w1);
        assert(t.drop_last() =~= w1.push(c));
        assert(words_of(t.drop_last()) == seq![w1]);
        assert(b[t.len() - 2]);
        assert(seq![t.last()] =~= w2);
        assert(words_of(t) =~= seq![w1, w2]);
    } else {
        let v = w2.drop_last();
        assert forall|i: int| 0 <= i < v.len() implies !char_is_whitespace(#[trigger] v[i]) by {
            assert(v[i] == w2[i]);
        }
        law_separator_splits(w1, c, v);
        assert(t.drop_last() =~= w1 + seq![c] + v);
        assert(!b[t.len() - 2]) by {
            assert(t[t.len() - 2] == w2[w2.len() - 2]);
        }
        assert(v.push(w2.last()) =~= w2);
        assert(words_of(t) =~= seq![w1, w2]);
    }
}

/// Whitespace after a text does not change its words.
pub proof fn lemma_words_trailing_whitespace(c: char, s: Seq<char>)
    requires
        char_is_whitespace(c),
    ensures
        words_of(s.push(c)) == words_of(s),
{
    assert(s.push(c).drop_last() =~= s);
    lemma_blanks_drop_last(s.push(c));
}

/// The characters of `s` that `keep` marks, in order.
pub open spec fn kept_where(s: Seq<char>, keep: Seq<bool>) -> Seq<char>
    decreases s.len(),
{
    if s.len() == 0 || keep.len() != s.len() {
        seq![]
    } else if keep.last() {
        kept_where(s.drop_last(), keep.drop_last()).push(s.last())
    } else {
        kept_where(s.drop_last(), keep.drop_last())
    }
}

/// The words of an ASCII text are ASCII.
pub proof fn lemma_words_ascii(s: Seq<char>, blank: Seq<bool>)
    requires
        is_ascii_text(s),
    ensures
        forall|k: int|
            0 <= k < words_where(s, blank).len() ==> is_ascii_text(#[trigger] words_where(s, blank)[k]),
    decreases s.len(),
{
    if s.len() > 0 && blank.len() == s.len() {
        let prev = words_where(s.drop_last(), blank.drop_last());
        assert(is_ascii_text(s.drop_last())) by {
            assert forall|i: int| 0 <= i < s.drop_last().len() implies is_ascii_char(
                #[trigger] s.drop_last()[i],
            ) by {
                assert(s.drop_last()[i] == s[i]);
            }
        }
        lemma_words_ascii(s.drop_last(), blank.drop_last());
        assert(is_ascii_char(s[s.len() - 1]));
        let w = words_where(s, blank);
        let c = s.last();
        assert forall|k: int| 0 <= k < w.len() implies is_ascii_text(#[trigger] w[k]) by {
            if blank.last() {
                assert(w[k] == prev[k]);
            } else if s.len() >= 2 && !blank[s.len() - 2] {
                lemma_words_nonempty(s.drop_last(), blank.drop_last());
                let old_word = prev.last();
                if k == prev.len() - 1 {
                    assert(is_ascii_text(old_word));
                    assert(w[k] == old_word.push(c));
                    assert forall|j: int| 0 <= j < w[k].len() implies is_ascii_char(
                        #[trigger] w[k][j],
                    ) by {
                        if j < old_word.len() {
                            assert(w[k][j] == old_word[j]);
                        }
                    }
                } else {
                    assert(w[k] == prev[k]);
                }
            } else {
                if k < prev.len() {
                    assert(w[k] == prev[k]);
                } else {
                    assert(w[k] == seq![c]);
                    assert forall|j: int| 0 <= j < w[k].len() implies is_ascii_char(
                        #[trigger] w[k][j],
                    ) by {
                        assert(w[k][j] == c);
                    }
                }
            }
        }
    }
}

/// Every character `kept_where` keeps is a marked one of `s`: one that satisfies
/// `p` when every marked character does.
pub proof fn lemma_kept_satisfy(s: Seq<char>, keep: Seq<bool>, p: spec_fn(char) -> bool)
    requires
        keep.len() == s.len(),
        forall|i: int| 0 <= i < s.len() && keep[i] ==> p(#[trigger] s[i]),
    ensures
        forall|j: int| 0 <= j < kept_where(s, keep).len() ==> p(#[trigger] kept_where(s, keep)[j]),
    decreases s.len(),
{
    if s.len() > 0 {
        let s0 = s.drop_last();
        let k0 = keep.drop_last();
        assert forall|i: int| 0 <= i < s0.len() && k0[i] implies p(#[trigger] s0[i]) by {
            assert(s0[i] == s[i]);
            assert(k0[i] == keep[i]);
        }
        lemma_kept_satisfy(s0, k0, p);
        let prev = kept_where(s0, k0);
        let r = kept_where(s, keep);
        assert forall|j: int| 0 <= j < r.len() implies p(#[trigger] r[j]) by {
            if j < prev.len() {
                assert(r[j] == prev[j]);
            } else {
                assert(p(s[s.len() - 1]));
            }
        }
    }
}

/// Keeps the characters of `s` that `keep` marks.
pub fn keep_marked(s: &Vec<char>, keep: &Vec<bool>) -> (r: Vec<char>)
    requires
        keep@.len() == s@.len(),
    ensures
        r@ == kept_where(s@, keep@),
{
    let mut r: Vec<char> = Vec::new();
    let mut i: usize = 0;
    while i < s.len()
        invariant
            i <= s.len(),
            keep@.len() == s@.len(),
            r@ == kept_where(s@.take(i as int), keep@.take(i as int)),
        decreases s.len() - i,
    {
        assert(s@.take(i + 1).drop_last() =~= s@.take(i as int));
        assert(keep@.take(i + 1).drop_last() =~= keep@.take(i as int));
        assert(s@.take(i + 1).last() == s@[i as int]);
        assert(keep@.take(i + 1).last() == keep@[i as int]);
        if keep[i] {
            r.push(s[i]);
        }
        i = i + 1;
    }
    assert(s@.take(s.len() as int) =~= s@);
    assert(keep@.take(s.len() as int) =~= keep@);
    r
}

/// Marks the whitespace characters of `s`.
pub fn whitespace_marks(s: &Vec<char>) -> (m: Vec<bool>)
    ensures
        m@ == blanks_of(s@),
{
    let mut m: Vec<bool> = Vec::new();
    let mut i: usize = 0;
    while i < s.len()
        invariant
            i <= s.len(),
            m@ == blanks_of(s@.take(i as int)),
        decreases s.len() - i,
    {
        m.push(is_whitespace(s[i]));
        i = i + 1;
        assert(m@ =~= blanks_of(s@.take(i as int)));
    }
    assert(s@.take(s.len() as int) =~= s@);
    m
}

/// The characters of `s`, in order.
pub fn chars_of(s: &str) -> (v: Vec<char>)
    ensures
        v@ == s@,
{
    let n = s.unicode_len();
    let mut v: Vec<char> = Vec::new();
    let mut i: usize = 0;
    while i < n
        invariant
            n == s@.len(),
            i <= n,
            v@ == s@.take(i as int),
        decreases n - i,
    {
        let c = s.get_char(i);
        v.push(c);
        i = i + 1;
        assert(v@ =~= s@.take(i as int));
    }
    assert(s@.take(n as int) =~= s@);
    v
}

/// Appends the characters of `src` to `dst`.
pub fn append_chars(dst: &mut Vec<char>, src: &Vec<char>)
    ensures
        final(dst)@ == old(dst)@ + src@,
{
    let mut i: usize = 0;
    while i < src.len()
        invariant
            i <= src.len(),
            dst@ == old(dst)@ + src@.take(i as int),
        decreases src.len() - i,
    {
        dst.push(src[i]);
        i = i + 1;
        assert(dst@ =~= old(dst)@ + src@.take(i as int));
    }
    assert(src@.take(src.len() as int) =~= src@);
}

/// The position of the last `c` in `s`, or -1 when `s` holds none.
pub open spec fn last_index_of(s: Seq<char>, c: char) -> int
    decreases s.len(),
{
    if s.len() == 0 {
        -1
    } else if s.last() == c {
        s.len() - 1
    } else {
        last_index_of(s.drop_last(), c)
    }
}

/// `last_index_of` is -1 or a position holding `c`, after which `c` does not occur.
pub proof fn lemma_last_index_of(s: Seq<char>, c: char)
    ensures
        -1 <= last_index_of(s, c) < s.len(),
        last_index_of(s, c) >= 0 ==> s[last_index_of(s, c)] == c,
        forall|j: int| last_index_of(s, c) < j < s.len() ==> s[j] != c,
    decreases s.len(),
{
    if s.len() > 0 && s.last() != c {
        lemma_last_index_of(s.drop_last(), c);
        assert forall|j: int| last_index_of(s, c) < j < s.len() implies s[j] != c by {
            if j < s.len() - 1 {
                assert(s[j] == s.drop_last()[j]);
            }
        }
    }
}

/// Finds the last `c` in `s` (what `str::rfind` does for one character, counted in characters).
pub fn find_last(s: &Vec<char>, c: char) -> (r: Option<usize>)
    ensures
        r matches Some(i) ==> i as int == last_index_of(s@, c),
        r is None ==> last_index_of(s@, c) == -1,
{
    let mut i: usize = s.len();
    assert(s@.take(i as int) =~= s@);
    while i > 0
        invariant
            i <= s.len(),
            last_index_of(s@, c) == last_index_of(s@.take(i as int), c),
        decreases i,
    {
        assert(s@.take(i as int).drop_last() =~= s@.take(i - 1));
        if s[i - 1] == c {
            return Some(i - 1);
        }
        i = i - 1;
    }
    None
}

/// The characters `s[from..]`.
pub fn chars_after(s: &Vec<char>, from: usize) -> (r: Vec<char>)
    requires
        from <= s.len(),
    ensures
        r@ == s@.skip(from as int),
{
    let mut r: Vec<char> = Vec::new();
    let mut i: usize = from;
    while i < s.len()
        invariant
            from <= i <= s.len(),
            r@ == s@.subrange(from as int, i as int),
        decreases s.len() - i,
    {
        r.push(s[i]);
        i = i + 1;
        assert(r@ =~= s@.subrange(from as int, i as int));
    }
    assert(s@.skip(from as int) =~= s@.subrange(from as int, s.len() as int));
    r
}

/// Whether `p` occurs in `s` as a contiguous run of characters.
pub open spec fn has_infix(s: Seq<char>, p: Seq<char>) -> bool {
    exists|i: int| 0 <= i && i + p.len() <= s.len() && #[trigger] s.subrange(i, i + p.len()) == p
}

/// Whether `p` occurs in `s` at position `i`.
fn occurs_at(s: &Vec<char>, p: &Vec<char>, i: usize) -> (b: bool)
    requires
        i + p.len() <= s.len(),
    ensures
        b == (s@.subrange(i as int, i + p.len()) == p@),
{
    let mut j: usize = 0;
    while j < p.len()
        invariant
            i + p.len() <= s.len(),
            j <= p.len(),
            forall|k: int| 0 <= k < j ==> s@[i + k] == p@[k],
        decreases p.len() - j,
    {
        if s[i + j] != p[j] {
            assert(s@.subrange(i as int, i + p.len())[j as int] != p@[j as int]);
            return false;
        }
        j = j + 1;
    }
    assert(s@.subrange(i as int, i + p.len()) =~= p@);
    true
}

/// Whether `pattern` occurs in `s` (what `str::contains` answers for a string pattern).
pub fn contains_text(s: &str, pattern: &str) -> (b: bool)
    ensures
        b == has_infix(s@, pattern@),
{
    let cs = chars_of(s);
    let ps = chars_of(pattern);
    if ps.len() == 0 {
        assert(s@.subrange(0int, 0int + pattern@.len()) =~= pattern@);
        return true;
    }
    if ps.len() > cs.len() {
        return false;
    }
    let last = cs.len() - ps.len();
    let mut i: usize = 0;
    while i <= last
        invariant
            last + ps.len() == cs.len(),
            ps.len() > 0,
            cs@ == s@,
            ps@ == pattern@,
            i <= last + 1,
            forall|k: int| 0 <= k < i ==> #[trigger] s@.subrange(k, k + pattern@.len()) != pattern@,
        decreases last + 1 - i,
    {
        if occurs_at(&cs, &ps, i) {
            return true;
        }
        i = i + 1;
    }
    false
}

/// A string holding the characters `v`.
pub fn string_of(v: &Vec<char>) -> (s: String)
    ensures
        s@ == v@,
{
    let mut s = String::new();
    let mut i: usize = 0;
    while i < v.len()
        invariant
            i <= v.len(),
            s@ == v@.take(i as int),
        decreases v.len() - i,
    {
        push_char(&mut s, v[i]);
        i = i + 1;
        assert(s@ =~= v@.take(i as int));
    }
    assert(v@.take(v.len() as int) =~= v@);
    s
}

/// The character sequences of a sequence of strings.
pub open spec fn texts_of(ss: Seq<String>) -> Seq<Seq<char>> {
    ss.map_values(|s: String| s@)
}

/// Strings holding the words `words[from..]`.
pub fn strings_from(words: &Vec<Vec<char>>, from: usize) -> (r: Vec<String>)
    requires
        from <= words.len(),
    ensures
        texts_of(r@) == seqs_of(words@).skip(from as int),
{
    let mut r: Vec<String> = Vec::new();
    let mut i: usize = from;
    while i < words.len()
        invariant
            from <= i <= words.len(),
            texts_of(r@) == seqs_of(words@).subrange(from as int, i as int),
        decreases words.len() - i,
    {
        let ghost prev = texts_of(r@);
        let s = string_of(&words[i]);
        r.push(s);
        assert(texts_of(r@) =~= prev.push(words@[i as int]@));
        assert(seqs_of(words@)[i as int] == words@[i as int]@);
        i = i + 1;
        assert(texts_of(r@) =~= seqs_of(words@).subrange(from as int, i as int));
    }
    assert(seqs_of(words@).skip(from as int) =~= seqs_of(words@).subrange(from as int, words.len() as int));
    r
}

/// The character sequences held by a sequence of character vectors.
pub open spec fn seqs_of(ws: Seq<Vec<char>>) -> Seq<Seq<char>> {
    ws.map_values(|w: Vec<char>| w@)
}

/// Splits `s` into words, `blank` marking which of its characters separate words.
pub fn split_words_where(s: &Vec<char>, blank: &Vec<bool>) -> (words: Vec<Vec<char>>)
    requires
        blank@.len() == s@.len(),
    ensures
        seqs_of(words@) == words_where(s@, blank@),
{
    let mut words: Vec<Vec<char>> = Vec::new();
    let mut cur: Vec<char> = Vec::new();
    let mut in_word = false;
    let mut i: usize = 0;
    while i < s.len()
        invariant
            i <= s.len(),
            blank@.len() == s@.len(),
            in_word <==> (i > 0 && !blank@[i - 1]),
            in_word ==> seqs_of(words@).push(cur@) == words_where(
                s@.take(i as int),
                blank@.take(i as int),
            ),
            !in_word ==> seqs_of(words@) == words_where(s@.take(i as int), blank@.take(i as int)),
        decreases s.len() - i,
    {
        let c = s[i];
        let ghost before = s@.take(i as int);
        let ghost after = s@.take(i + 1);
        let ghost bbefore = blank@.take(i as int);
        let ghost bafter = blank@.take(i + 1);
        assert(after.drop_last() =~= before);
        assert(bafter.drop_last() =~= bbefore);
        assert(after.last() == c);
        assert(bafter.last() == blank@[i as int]);
        if blank[i] {
            if in_word {
                let ghost prev_words = seqs_of(words@);
                let ghost word = cur@;
                let w = cur;
                words.push(w);
                cur = Vec::new();
                assert(seqs_of(words@) =~= prev_words.push(word));
            }
            in_word = false;
        } else {
            if in_word {
                proof {
                    lemma_words_nonempty(before, bbefore);
                    assert(bafter[after.len() - 2] == bbefore.last());
                }
                let ghost prev_words = seqs_of(words@);
                cur.push(c);
                assert(words_where(after, bafter) =~= prev_words.push(cur@));
            } else {
                cur = Vec::new();
                cur.push(c);
                proof {
                    if i > 0 {
                        assert(bafter[after.len() - 2] == blank@[i - 1]);
                    }
                }
                assert(words_where(after, bafter) =~= seqs_of(words@).push(cur@));
            }
            in_word = true;
        }
        i = i + 1;
    }
    if in_word {
        words.push(cur);
    }
    assert(s@.take(s.len() as int) =~= s@);
    assert(blank@.take(s.len() as int) =~= blank@);
    words
}

/// Splits `s` into its whitespace-separated words.
pub fn split_words(s: &Vec<char>) -> (words: Vec<Vec<char>>)
    ensures
        seqs_of(words@) == words_of(s@),
{
    let blank = whitespace_marks(s);
    split_words_where(s, &blank)
}

} // verus!
