use vstd::prelude::*;

verus! {

/// Appends one character.
///
/// Calls `String::push`, which appends the character to the end of the
/// string.
#[verifier::external_body]
pub fn push_char(text: &mut String, c: char)
    ensures
        final(text)@ == old(text)@.push(c),
{
    text.push(c);
}

/// The characters of `text`, in order.
pub fn chars_of(text: &str) -> (chars: Vec<char>)
    ensures
        chars@ == text@,
{
    let len = text.unicode_len();
    let mut chars: Vec<char> = Vec::new();
    let mut i: usize = 0;
    while i < len
        invariant
            len == text@.len(),
            0 <= i <= len,
            chars@ == text@.take(i as int),
        decreases len - i,
    {
        chars.push(text.get_char(i));
        assert(chars@ =~= text@.take(i as int + 1));
        i += 1;
    }
    assert(text@.take(len as int) =~= text@);
    chars
}

/// A string made of the given characters.
pub fn string_of(chars: &[char]) -> (text: String)
    ensures
        text@ == chars@,
{
    let mut text = String::new();
    let mut i: usize = 0;
    while i < chars.len()
        invariant
            0 <= i <= chars@.len(),
            text@ == chars@.take(i as int),
        decreases chars@.len() - i,
    {
        push_char(&mut text, chars[i]);
        assert(text@ =~= chars@.take(i as int + 1));
        i += 1;
    }
    assert(chars@.take(chars@.len() as int) =~= chars@);
    text
}

/// Whether `a` sorts before `b`: the first differing character is smaller, or
/// `a` is a proper prefix of `b`. This is the order of `str`, since UTF-8
/// byte order follows code point order.
pub open spec fn chars_less(a: Seq<char>, b: Seq<char>) -> bool
    decreases a.len(),
{
    if a.len() == 0 {
        b.len() > 0
    } else if b.len() == 0 {
        false
    } else if a[0] != b[0] {
        (a[0] as int) < (b[0] as int)
    } else {
        chars_less(a.drop_first(), b.drop_first())
    }
}

/// Whether `a` sorts before `b` or equals it.
pub open spec fn chars_le(a: Seq<char>, b: Seq<char>) -> bool {
    a == b || chars_less(a, b)
}

/// Compares the names `a` and `b` in string order.
pub fn str_less(a: &str, b: &str) -> (less: bool)
    ensures
        less == chars_less(a@, b@),
{
    let x = chars_of(a);
    let y = chars_of(b);
    let mut i: usize = 0;
    assert(a@.skip(0) =~= a@ && b@.skip(0) =~= b@);
    while i < x.len() && i < y.len()
        invariant
            0 <= i <= x@.len(),
            i <= y@.len(),
            x@ == a@,
            y@ == b@,
            forall|k: int| 0 <= k < i ==> x@[k] == y@[k],
            chars_less(a@, b@) == chars_less(a@.skip(i as int), b@.skip(i as int)),
        decreases x@.len() - i,
    {
        proof {
            assert(a@.skip(i as int).drop_first() =~= a@.skip(i as int + 1));
            assert(b@.skip(i as int).drop_first() =~= b@.skip(i as int + 1));
        }
        if x[i] != y[i] {
            return x[i] < y[i];
        }
        i += 1;
    }
    i == x.len() && i < y.len()
}

/// Whether two strings hold the same characters.
pub fn str_eq(a: &str, b: &str) -> (same: bool)
    ensures
        same == (a@ == b@),
{
    let len = a.unicode_len();
    if len != b.unicode_len() {
        return false;
    }
    let mut i: usize = 0;
    while i < len
        invariant
            len == a@.len(),
            len == b@.len(),
            0 <= i <= len,
            forall|k: int| 0 <= k < i ==> a@[k] == b@[k],
        decreases len - i,
    {
        if a.get_char(i) != b.get_char(i) {
            return false;
        }
        i += 1;
    }
    assert(a@ =~= b@);
    true
}

/// `chars_less` is a strict total order on character sequences.
pub proof fn lemma_chars_less_total(a: Seq<char>, b: Seq<char>)
    ensures
        a == b || chars_less(a, b) || chars_less(b, a),
        !(chars_less(a, b) && chars_less(b, a)),
        !chars_less(a, a),
    decreases a.len(),
{
    if a.len() > 0 && b.len() > 0 && a[0] == b[0] {
        lemma_chars_less_total(a.drop_first(), b.drop_first());
        if a.drop_first() == b.drop_first() {
            assert(a =~= seq![a[0]] + a.drop_first());
            assert(b =~= seq![b[0]] + b.drop_first());
        }
    } else if a.len() == 0 && b.len() == 0 {
        assert(a =~= b);
    } else if a.len() > 0 && b.len() > 0 {
        assert((a[0] as int) != (b[0] as int));
    }
    if a.len() > 0 {
        lemma_chars_less_irreflexive(a);
    }
}

proof fn lemma_chars_less_irreflexive(a: Seq<char>)
    ensures
        !chars_less(a, a),
    decreases a.len(),
{
    if a.len() > 0 {
        lemma_chars_less_irreflexive(a.drop_first());
    }
}

/// `chars_less` is transitive.
pub proof fn lemma_chars_less_transitive(a: Seq<char>, b: Seq<char>, c: Seq<char>)
    requires
        chars_less(a, b),
        chars_less(b, c),
    ensures
        chars_less(a, c),
    decreases a.len(),
{
    if a.len() > 0 && b.len() > 0 && c.len() > 0 && a[0] == b[0] && b[0] == c[0] {
        lemma_chars_less_transitive(a.drop_first(), b.drop_first(), c.drop_first());
    }
}

/// Whether `c` is white space: the characters with Unicode's `White_Space`
/// property, which `char::is_whitespace` and `str::split_whitespace` use.
pub open spec fn is_space(c: char) -> bool {
    let v = c as int;
    (0x09 <= v <= 0x0d) || v == 0x20 || v == 0x85 || v == 0xa0 || v == 0x1680 || (0x2000 <= v <= 0x200a)
        || v == 0x2028 || v == 0x2029 || v == 0x202f || v == 0x205f || v == 0x3000
}

/// Whether `c` is white space.
pub fn char_is_space(c: char) -> (space: bool)
    ensures
        space == is_space(c),
{
    ('\u{9}' <= c && c <= '\u{d}') || c == ' ' || c == '\u{85}' || c == '\u{a0}' || c == '\u{1680}' || ('\u{2000}'
        <= c && c <= '\u{200a}') || c == '\u{2028}' || c == '\u{2029}' || c == '\u{202f}' || c == '\u{205f}' || c
        == '\u{3000}'
}

/// The first position at or after `p` that is not white space.
pub open spec fn skip_spaces(s: Seq<char>, p: int) -> int
    decreases s.len() - p,
{
    if 0 <= p < s.len() && is_space(s[p]) {
        skip_spaces(s, p + 1)
    } else {
        p
    }
}

/// The first position at or after `p` that is white space.
pub open spec fn skip_word(s: Seq<char>, p: int) -> int
    decreases s.len() - p,
{
    if 0 <= p < s.len() && !is_space(s[p]) {
        skip_word(s, p + 1)
    } else {
        p
    }
}

/// `skip_spaces` moves forward and stops on a character that is not white space.
pub proof fn lemma_skip_spaces(s: Seq<char>, p: int)
    requires
        0 <= p <= s.len(),
    ensures
        p <= skip_spaces(s, p) <= s.len(),
        skip_spaces(s, p) < s.len() ==> !is_space(s[skip_spaces(s, p)]),
    decreases s.len() - p,
{
    if p < s.len() && is_space(s[p]) {
        lemma_skip_spaces(s, p + 1);
    }
}

/// `skip_word` moves forward within the text.
pub proof fn lemma_skip_word(s: Seq<char>, p: int)
    requires
        0 <= p <= s.len(),
    ensures
        p <= skip_word(s, p) <= s.len(),
    decreases s.len() - p,
{
    if p < s.len() && !is_space(s[p]) {
        lemma_skip_word(s, p + 1);
    }
}

/// The white-space separated words of `s` from position `p` on.
pub open spec fn words_from(s: Seq<char>, p: int) -> Seq<Seq<char>>
    decreases s.len() - p,
{
    let start = skip_spaces(s, p);
    if 0 <= p && start < s.len() {
        let end = skip_word(s, start);
        if start < end {
            proof {
                lemma_skip_spaces(s, p);
                lemma_skip_word(s, start);
            }
            seq![s.subrange(start, end)] + words_from(s, end)
        } else {
            Seq::empty()
        }
    } else {
        Seq::empty()
    }
}

/// The white-space separated words of `s`, as `str::split_whitespace`
/// yields them.
pub open spec fn words(s: Seq<char>) -> Seq<Seq<char>> {
    words_from(s, 0)
}

/// The texts of a list of strings.
pub open spec fn texts(strings: Seq<String>) -> Seq<Seq<char>> {
    strings.map_values(|t: String| t@)
}

/// Splits `text` into its white-space separated words.
pub fn split_whitespace(text: &str) -> (parts: Vec<String>)
    ensures
        texts(parts@) == words(text@),
{
    let chars = chars_of(text);
    let ghost s = text@;
    let n = chars.len();
    let mut parts: Vec<String> = Vec::new();
    let mut p: usize = 0;
    assert(texts(parts@) + words_from(s, 0) =~= words(s));
    while p < n
        invariant_except_break
            0 <= p <= n,
        invariant
            chars@ == s,
            n == s.len(),
            texts(parts@) + words_from(s, p as int) == words(s),
        ensures
            texts(parts@) == words(s),
        decreases n - p,
    {
        proof {
            lemma_skip_spaces(s, p as int);
        }
        let mut start = p;
        while start < n && char_is_space(chars[start])
            invariant
                p <= start <= n,
                chars@ == s,
                n == s.len(),
                skip_spaces(s, start as int) == skip_spaces(s, p as int),
            decreases n - start,
        {
            start += 1;
        }
        if start == n {
            assert(words_from(s, p as int) =~= Seq::<Seq<char>>::empty());
            assert(texts(parts@) =~= words(s));
            break;
        }
        proof {
            lemma_skip_word(s, start as int);
        }
        let mut end = start;
        while end < n && !char_is_space(chars[end])
            invariant
                start <= end <= n,
                chars@ == s,
                n == s.len(),
                skip_word(s, end as int) == skip_word(s, start as int),
            decreases n - end,
        {
            end += 1;
        }
        let mut word = String::new();
        let mut k = start;
        while k < end
            invariant
                start <= k <= end <= n,
                chars@ == s,
                n == s.len(),
                word@ == s.subrange(start as int, k as int),
            decreases end - k,
        {
            push_char(&mut word, chars[k]);
            assert(word@ =~= s.subrange(start as int, k as int + 1));
            k += 1;
        }
        let ghost before = parts@;
        parts.push(word);
        proof {
            assert(start < end);
            assert(texts(parts@) =~= texts(before).push(s.subrange(start as int, end as int)));
            assert(words_from(s, p as int) == seq![s.subrange(start as int, end as int)] + words_from(s, end as int));
            assert(texts(parts@) + words_from(s, end as int) =~= texts(before) + words_from(s, p as int));
        }
        p = end;
    }
    parts
}

/// Where the text ends once trailing white space before `e` is dropped.
pub open spec fn trim_end(s: Seq<char>, e: int) -> int
    decreases e,
{
    if 0 < e <= s.len() && is_space(s[e - 1]) {
        trim_end(s, e - 1)
    } else {
        e
    }
}

/// `s` without leading and trailing white space, as `str::trim` gives it.
pub open spec fn trimmed(s: Seq<char>) -> Seq<char> {
    let start = skip_spaces(s, 0);
    let end = trim_end(s, s.len() as int);
    if start < end {
        s.subrange(start, end)
    } else {
        Seq::empty()
    }
}

proof fn lemma_trim_end(s: Seq<char>, e: int)
    requires
        0 <= e <= s.len(),
    ensures
        0 <= trim_end(s, e) <= e,
        trim_end(s, e) > 0 ==> !is_space(s[trim_end(s, e) - 1]),
    decreases e,
{
    if 0 < e && is_space(s[e - 1]) {
        lemma_trim_end(s, e - 1);
    }
}

/// Trimming twice is trimming once: a trimmed text neither starts nor ends
/// with white space.
pub proof fn trim_is_idempotent(s: Seq<char>)
    ensures
        trimmed(trimmed(s)) == trimmed(s),
        trimmed(s).len() > 0 ==> !is_space(trimmed(s)[0]) && !is_space(trimmed(s).last()),
{
    lemma_skip_spaces(s, 0);
    lemma_trim_end(s, s.len() as int);
    let t = trimmed(s);
    if t.len() > 0 {
        let start = skip_spaces(s, 0);
        let end = trim_end(s, s.len() as int);
        assert(t[0] == s[start]);
        assert(t.last() == s[end - 1]);
        assert(skip_spaces(t, 0) == 0);
        assert(trim_end(t, t.len() as int) == t.len());
        assert(t.subrange(0, t.len() as int) =~= t);
    } else {
        assert(trimmed(t) =~= t);
    }
}

/// `text` without leading and trailing white space.
pub fn trim(text: &str) -> (t: &str)
    ensures
        t@ == trimmed(text@),
{
    let len = text.unicode_len();
    let mut start: usize = 0;
    while start < len && char_is_space(text.get_char(start))
        invariant
            len == text@.len(),
            0 <= start <= len,
            skip_spaces(text@, start as int) == skip_spaces(text@, 0),
        decreases len - start,
    {
        start += 1;
    }
    let mut end: usize = len;
    while end > 0 && char_is_space(text.get_char(end - 1))
        invariant
            len == text@.len(),
            0 <= end <= len,
            trim_end(text@, end as int) == trim_end(text@, len as int),
        decreases end,
    {
        end -= 1;
    }
    if start < end {
        text.substring_char(start, end)
    } else {
        proof {
            assert(text@.subrange(0, 0) =~= Seq::<char>::empty());
        }
        text.substring_char(0, 0)
    }
}

/// The code of the ASCII lower case of `c`.
pub open spec fn ascii_lower(c: char) -> int {
    if 'A' <= c <= 'Z' {
        (c as int) + 32
    } else {
        c as int
    }
}

/// Whether `a` and `b` are equal but for ASCII case, as
/// `str::eq_ignore_ascii_case` compares them.
pub open spec fn equal_ignoring_ascii_case(a: Seq<char>, b: Seq<char>) -> bool {
    a.len() == b.len() && forall|i: int| 0 <= i < a.len() ==> ascii_lower(#[trigger] a[i]) == ascii_lower(b[i])
}

fn lower_char(c: char) -> (l: u32)
    ensures
        l == ascii_lower(c),
{
    if 'A' <= c && c <= 'Z' {
        c as u32 + 32
    } else {
        c as u32
    }
}

/// Compares two strings ignoring ASCII case.
pub fn eq_ignore_ascii_case(a: &str, b: &str) -> (same: bool)
    ensures
        same == equal_ignoring_ascii_case(a@, b@),
{
    let len = a.unicode_len();
    if len != b.unicode_len() {
        return false;
    }
    let mut i: usize = 0;
    while i < len
        invariant
            len == a@.len(),
            len == b@.len(),
            0 <= i <= len,
            forall|k: int| 0 <= k < i ==> ascii_lower(#[trigger] a@[k]) == ascii_lower(b@[k]),
        decreases len - i,
    {
        if lower_char(a.get_char(i)) != lower_char(b.get_char(i)) {
            return false;
        }
        i += 1;
    }
    true
}

/// The decimal digits of `n`.
pub open spec fn decimal(n: nat) -> Seq<char>
    decreases n,
{
    if n < 10 {
        seq![('0' as int + n) as char]
    } else {
        decimal(n / 10) + seq![('0' as int + n % 10) as char]
    }
}

fn digit(d: u64) -> (c: char)
    requires
        d < 10,
    ensures
        c == ('0' as int + d) as char,
{
    match d {
        0 => '0',
        1 => '1',
        2 => '2',
        3 => '3',
        4 => '4',
        5 => '5',
        6 => '6',
        7 => '7',
        8 => '8',
        _ => '9',
    }
}

/// Appends the decimal digits of `n`.
pub fn push_decimal(text: &mut String, n: u64)
    ensures
        final(text)@ == old(text)@ + decimal(n as nat),
    decreases n,
{
    if n < 10 {
        push_char(text, digit(n));
    } else {
        push_decimal(text, n / 10);
        push_char(text, digit(n % 10));
        assert(final(text)@ =~= old(text)@ + decimal(n as nat));
    }
}

} // verus!
