//! Character and string helpers shared by the notation code.
use vstd::prelude::*;

verus! {

/// Appends one character to a string.
/// Trusted: `String::push` appends the character at the end and changes nothing else.
#[verifier::external_body]
pub(crate) fn push_char(s: &mut String, c: char)
    ensures
        final(s)@ == old(s)@.push(c),
{
    s.push(c);
}

/// Appends the characters of `t` to a string.
pub fn push_text(s: &mut String, t: &str)
    ensures
        final(s)@ == old(s)@ + t@,
{
    s.append(t);
}

/// Unicode White_Space: the characters `char::is_whitespace` accepts.
pub open spec fn spec_is_whitespace(c: char) -> bool {
    let u = c as u32;
    ||| (0x9 <= u && u <= 0xD)
    ||| u == 0x20
    ||| u == 0x85
    ||| u == 0xA0
    ||| u == 0x1680
    ||| (0x2000 <= u && u <= 0x200A)
    ||| u == 0x2028
    ||| u == 0x2029
    ||| u == 0x202F
    ||| u == 0x205F
    ||| u == 0x3000
}

/// Whether `c` is Unicode white space.
pub fn is_whitespace(c: char) -> (r: bool)
    ensures
        r == spec_is_whitespace(c),
{
    let u = c as u32;
    (0x9 <= u && u <= 0xD) || u == 0x20 || u == 0x85 || u == 0xA0 || u == 0x1680 || (0x2000 <= u && u <= 0x200A)
        || u == 0x2028 || u == 0x2029 || u == 0x202F || u == 0x205F || u == 0x3000
}

/// The pending word `cur`, as a list of zero or one words.
pub open spec fn spec_word(cur: Seq<char>) -> Seq<Seq<char>> {
    if cur.len() > 0 { seq![cur] } else { Seq::empty() }
}

/// The white-space separated words of `s[i..]`, the first one starting with `cur`.
pub open spec fn spec_words_from(s: Seq<char>, i: int, cur: Seq<char>) -> Seq<Seq<char>>
    decreases s.len() - i,
{
    if i >= s.len() {
        spec_word(cur)
    } else if spec_is_whitespace(s[i]) {
        spec_word(cur) + spec_words_from(s, i + 1, Seq::empty())
    } else {
        spec_words_from(s, i + 1, cur.push(s[i]))
    }
}

/// The white-space separated words of `s`, as `str::split_whitespace` gives them.
pub open spec fn spec_words(s: Seq<char>) -> Seq<Seq<char>> {
    spec_words_from(s, 0, Seq::empty())
}

/// The pieces of `s[i..]` between occurrences of `sep`, the first one starting with `cur`.
pub open spec fn spec_split_from(s: Seq<char>, sep: char, i: int, cur: Seq<char>) -> Seq<Seq<char>>
    decreases s.len() - i,
{
    if i >= s.len() {
        seq![cur]
    } else if s[i] == sep {
        seq![cur] + spec_split_from(s, sep, i + 1, Seq::empty())
    } else {
        spec_split_from(s, sep, i + 1, cur.push(s[i]))
    }
}

/// The pieces of `s` between occurrences of `sep`, as `str::split` gives them.
pub open spec fn spec_split(s: Seq<char>, sep: char) -> Seq<Seq<char>> {
    spec_split_from(s, sep, 0, Seq::empty())
}

pub open spec fn spec_texts_of(v: Seq<String>) -> Seq<Seq<char>> {
    v.map_values(|w: String| w@)
}

/// Splits `s` into its white-space separated words.
pub fn split_whitespace(s: &str) -> (r: Vec<String>)
    ensures
        spec_texts_of(r@) == spec_words(s@),
{
    let n = s.unicode_len();
    let mut words: Vec<String> = Vec::new();
    let mut cur = String::new();
    let mut i: usize = 0;
    while i < n
        invariant
            n == s@.len(),
            i <= n,
            spec_texts_of(words@) + spec_words_from(s@, i as int, cur@) == spec_words(s@),
        decreases n - i,
    {
        let c = s.get_char(i);
        let ghost before = words@;
        let ghost before_cur = cur@;
        if is_whitespace(c) {
            if cur.as_str().unicode_len() > 0 {
                words.push(cur);
            }
            proof {
                assert(spec_texts_of(words@) =~= spec_texts_of(before) + spec_word(before_cur));
            }
            cur = String::new();
            proof {
                assert(spec_words_from(s@, i as int, before_cur) == spec_word(before_cur) + spec_words_from(
                    s@,
                    i + 1,
                    Seq::empty(),
                ));
                assert(spec_texts_of(words@) + spec_words_from(s@, i + 1, cur@) =~= spec_texts_of(before)
                    + spec_words_from(s@, i as int, before_cur));
            }
        } else {
            push_char(&mut cur, c);
        }
        i = i + 1;
    }
    let ghost before = words@;
    let ghost before_cur = cur@;
    if cur.as_str().unicode_len() > 0 {
        words.push(cur);
    }
    proof {
        assert(spec_texts_of(words@) =~= spec_texts_of(before) + spec_word(before_cur));
    }
    words
}

/// Splits `s` at every occurrence of `sep`.
pub fn split_at_char(s: &str, sep: char) -> (r: Vec<String>)
    ensures
        spec_texts_of(r@) == spec_split(s@, sep),
{
    let n = s.unicode_len();
    let mut pieces: Vec<String> = Vec::new();
    let mut cur = String::new();
    let mut i: usize = 0;
    while i < n
        invariant
            n == s@.len(),
            i <= n,
            spec_texts_of(pieces@) + spec_split_from(s@, sep, i as int, cur@) == spec_split(s@, sep),
        decreases n - i,
    {
        let c = s.get_char(i);
        let ghost before = pieces@;
        let ghost before_cur = cur@;
        if c == sep {
            pieces.push(cur);
            cur = String::new();
            proof {
                assert(spec_texts_of(pieces@) =~= spec_texts_of(before) + seq![before_cur]);
                assert(spec_texts_of(pieces@) + spec_split_from(s@, sep, i + 1, cur@) =~= spec_texts_of(before)
                    + spec_split_from(s@, sep, i as int, before_cur));
            }
        } else {
            push_char(&mut cur, c);
        }
        i = i + 1;
    }
    let ghost before = pieces@;
    pieces.push(cur);
    proof {
        assert(spec_texts_of(pieces@) =~= spec_texts_of(before) + spec_split_from(s@, sep, i as int, pieces@.last()@));
    }
    pieces
}

/// No character of `t` is white space.
pub open spec fn spec_no_whitespace(t: Seq<char>) -> bool {
    forall|k: int| 0 <= k < t.len() ==> !spec_is_whitespace(#[trigger] t[k])
}

/// No character of `t` is `sep`.
pub open spec fn spec_free_of(t: Seq<char>, sep: char) -> bool {
    forall|k: int| 0 <= k < t.len() ==> #[trigger] t[k] != sep
}

/// Splitting into words looks only at the characters from position `i` on.
proof fn lemma_words_shift(a: Seq<char>, b: Seq<char>, i: int, cur: Seq<char>)
    requires
        0 <= i <= b.len(),
    ensures
        spec_words_from(a + b, a.len() + i, cur) == spec_words_from(b, i, cur),
    decreases b.len() - i,
{
    if i < b.len() {
        assert((a + b)[a.len() + i] == b[i]);
        lemma_words_shift(a, b, i + 1, Seq::empty());
        lemma_words_shift(a, b, i + 1, cur.push(b[i]));
    }
}

/// A stretch without white space joins the pending word.
proof fn lemma_words_scan(s: Seq<char>, i: int, n: int, cur: Seq<char>)
    requires
        0 <= i <= n <= s.len(),
        forall|k: int| i <= k < n ==> !spec_is_whitespace(#[trigger] s[k]),
    ensures
        spec_words_from(s, i, cur) == spec_words_from(s, n, cur + s.subrange(i, n)),
    decreases n - i,
{
    if i < n {
        lemma_words_scan(s, i + 1, n, cur.push(s[i]));
        assert(cur.push(s[i]) + s.subrange(i + 1, n) =~= cur + s.subrange(i, n));
    } else {
        assert(cur + s.subrange(i, n) =~= cur);
    }
}

/// A word followed by a space and more text splits off as the first word.
pub proof fn lemma_words_cons(w: Seq<char>, rest: Seq<char>)
    requires
        w.len() > 0,
        spec_no_whitespace(w),
    ensures
        spec_words(w + seq![' '] + rest) == seq![w] + spec_words(rest),
{
    let s = w + seq![' '] + rest;
    let head = w + seq![' '];
    assert(s == head + rest);
    assert forall|k: int| 0 <= k < w.len() implies !spec_is_whitespace(#[trigger] s[k]) by {
        assert(s[k] == w[k]);
    }
    lemma_words_scan(s, 0, w.len() as int, Seq::empty());
    assert(Seq::<char>::empty() + s.subrange(0, w.len() as int) =~= w);
    assert(s[w.len() as int] == ' ');
    assert(spec_is_whitespace(' '));
    lemma_words_shift(head, rest, 0, Seq::empty());
    assert(head.len() + 0 == w.len() + 1);
}

/// Text without white space is a single word.
pub proof fn lemma_words_single(w: Seq<char>)
    requires
        w.len() > 0,
        spec_no_whitespace(w),
    ensures
        spec_words(w) == seq![w],
{
    lemma_words_scan(w, 0, w.len() as int, Seq::empty());
    assert(Seq::<char>::empty() + w.subrange(0, w.len() as int) =~= w);
}

/// Splitting at `sep` looks only at the characters from position `i` on.
proof fn lemma_split_shift(a: Seq<char>, b: Seq<char>, sep: char, i: int, cur: Seq<char>)
    requires
        0 <= i <= b.len(),
    ensures
        spec_split_from(a + b, sep, a.len() + i, cur) == spec_split_from(b, sep, i, cur),
    decreases b.len() - i,
{
    if i < b.len() {
        assert((a + b)[a.len() + i] == b[i]);
        lemma_split_shift(a, b, sep, i + 1, Seq::empty());
        lemma_split_shift(a, b, sep, i + 1, cur.push(b[i]));
    }
}

proof fn lemma_split_scan(s: Seq<char>, sep: char, i: int, n: int, cur: Seq<char>)
    requires
        0 <= i <= n <= s.len(),
        forall|k: int| i <= k < n ==> #[trigger] s[k] != sep,
    ensures
        spec_split_from(s, sep, i, cur) == spec_split_from(s, sep, n, cur + s.subrange(i, n)),
    decreases n - i,
{
    if i < n {
        lemma_split_scan(s, sep, i + 1, n, cur.push(s[i]));
        assert(cur.push(s[i]) + s.subrange(i + 1, n) =~= cur + s.subrange(i, n));
    } else {
        assert(cur + s.subrange(i, n) =~= cur);
    }
}

/// A piece without `sep` followed by `sep` and more text splits off as the first piece.
pub proof fn lemma_split_cons(w: Seq<char>, sep: char, rest: Seq<char>)
    requires
        spec_free_of(w, sep),
    ensures
        spec_split(w + seq![sep] + rest, sep) == seq![w] + spec_split(rest, sep),
{
    let s = w + seq![sep] + rest;
    let head = w + seq![sep];
    assert(s == head + rest);
    assert forall|k: int| 0 <= k < w.len() implies #[trigger] s[k] != sep by {
        assert(s[k] == w[k]);
    }
    lemma_split_scan(s, sep, 0, w.len() as int, Seq::empty());
    assert(Seq::<char>::empty() + s.subrange(0, w.len() as int) =~= w);
    assert(s[w.len() as int] == sep);
    lemma_split_shift(head, rest, sep, 0, Seq::empty());
    assert(head.len() + 0 == w.len() + 1);
}

/// Text without `sep` splits into itself alone.
pub proof fn lemma_split_single(w: Seq<char>, sep: char)
    requires
        spec_free_of(w, sep),
    ensures
        spec_split(w, sep) == seq![w],
{
    lemma_split_scan(w, sep, 0, w.len() as int, Seq::empty());
    assert(Seq::<char>::empty() + w.subrange(0, w.len() as int) =~= w);
}

// ---------------------------------------------------------------- decimal numbers

pub open spec fn spec_digit(d: int) -> char {
    ((48 + d) as u32) as char
}

/// Decimal digits of `n`, most significant first.
pub open spec fn spec_decimal(n: nat) -> Seq<char>
    decreases n,
{
    if n < 10 {
        seq![spec_digit(n as int)]
    } else {
        spec_decimal(n / 10).push(spec_digit((n % 10) as int))
    }
}

pub fn digit_char(d: u8) -> (r: char)
    requires
        d <= 9,
    ensures
        r == spec_digit(d as int),
{
    let code: u8 = 48 + d;
    code as char
}

/// Appends the decimal digits of `n`.
pub fn push_decimal(out: &mut String, n: u64)
    ensures
        final(out)@ == old(out)@ + spec_decimal(n as nat),
    decreases n,
{
    if n < 10 {
        push_char(out, digit_char(n as u8));
    } else {
        push_decimal(out, n / 10);
        push_char(out, digit_char((n % 10) as u8));
        proof {
            assert(spec_decimal(n as nat) == spec_decimal((n / 10) as nat).push(spec_digit((n % 10) as int)));
        }
    }
    proof {
        assert(final(out)@ =~= old(out)@ + spec_decimal(n as nat));
    }
}

} // verus!
