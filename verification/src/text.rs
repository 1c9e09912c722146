//! Character sequences: the scanning, trimming, splitting and number reading
//! that the scenario format is built on.
//!
//! Every function works on the characters of a text, never on its bytes, so a
//! position is always a count of characters.

use vstd::prelude::*;

verus! {

/// `String::push` appends one character.
pub assume_specification[ String::push ](s: &mut String, c: char)
    ensures
        final(s)@ == old(s)@.push(c),
;

/// The lower-case form of a text, as `str::to_lowercase` gives it.
pub uninterp spec fn lowercase_of(s: Seq<char>) -> Seq<char>;

/// `str::to_lowercase`: the lower-case form of `s`, which depends on `s`
/// alone.
#[verifier::external_body]
pub(crate) fn to_lowercase(s: &str) -> (r: String)
    ensures
        r@ == lowercase_of(s@),
{
    s.to_lowercase()
}

/// Whether `c` has the Unicode property `White_Space`.
pub open spec fn is_whitespace(c: char) -> bool {
    let n = c as u32;
    ||| 0x09 <= n <= 0x0D
    ||| n == 0x20
    ||| n == 0x85
    ||| n == 0xA0
    ||| n == 0x1680
    ||| 0x2000 <= n <= 0x200A
    ||| n == 0x2028
    ||| n == 0x2029
    ||| n == 0x202F
    ||| n == 0x205F
    ||| n == 0x3000
}

/// Whether `c` is one of the ten ASCII digits.
pub open spec fn is_digit(c: char) -> bool {
    '0' <= c <= '9'
}

/// A set of characters that a scan can run over.
#[derive(Debug, Clone, Copy, PartialEq, Eq, Structural)]
pub enum CharClass {
    /// The white space characters.
    Whitespace,
    /// Every character that is not white space.
    Visible,
    /// Every character but the one given.
    Except(char),
}

impl CharClass {
    /// Whether `c` belongs to the class.
    pub open spec fn holds(self, c: char) -> bool {
        match self {
            CharClass::Whitespace => is_whitespace(c),
            CharClass::Visible => !is_whitespace(c),
            CharClass::Except(x) => c != x,
        }
    }

    /// Tests whether `c` belongs to the class.
    pub fn contains(&self, c: char) -> (b: bool)
        ensures
            b == self.holds(c),
    {
        match self {
            CharClass::Whitespace => char_is_whitespace(c),
            CharClass::Visible => !char_is_whitespace(c),
            CharClass::Except(x) => c != *x,
        }
    }
}

/// Number of characters at the start of `s` that belong to `class`, up to the
/// first one that does not.
pub open spec fn prefix_len(s: Seq<char>, class: CharClass) -> nat
    decreases s.len(),
{
    if s.len() > 0 && class.holds(s[0]) {
        1 + prefix_len(s.drop_first(), class)
    } else {
        0
    }
}

/// Number of characters at the end of `s` that belong to `class`, back to the
/// last one that does not.
pub open spec fn suffix_len(s: Seq<char>, class: CharClass) -> nat
    decreases s.len(),
{
    if s.len() > 0 && class.holds(s.last()) {
        1 + suffix_len(s.drop_last(), class)
    } else {
        0
    }
}

/// `s` without the white space at its start.
pub open spec fn trim_start(s: Seq<char>) -> Seq<char> {
    s.skip(prefix_len(s, CharClass::Whitespace) as int)
}

/// `s` without the white space at its end.
pub open spec fn trim_end(s: Seq<char>) -> Seq<char> {
    s.take(s.len() - suffix_len(s, CharClass::Whitespace))
}

/// `s` without the white space at its start and at its end.
pub open spec fn trim(s: Seq<char>) -> Seq<char> {
    trim_end(trim_start(s))
}

/// Whether `s` begins with `prefix`.
pub open spec fn starts_with(s: Seq<char>, prefix: Seq<char>) -> bool {
    prefix.len() <= s.len() && s.take(prefix.len() as int) == prefix
}

/// Whether `s` begins with `open` and ends with `close`, the two being
/// different characters of `s`.
pub open spec fn enclosed_by(s: Seq<char>, open: char, close: char) -> bool {
    s.len() >= 2 && s.first() == open && s.last() == close
}

/// What stands between the first and the last character of `s`.
pub open spec fn inner(s: Seq<char>) -> Seq<char> {
    s.subrange(1, s.len() - 1)
}

/// The views of the texts in `v`, in order.
pub open spec fn texts_of(v: Seq<Vec<char>>) -> Seq<Seq<char>> {
    Seq::new(v.len(), |i: int| v[i]@)
}

/// The prefix that [`prefix_len`] measures is as long as it can be: it lies
/// within `s`, all of it belongs to `class`, and what follows it does not.
pub proof fn lemma_prefix_len(s: Seq<char>, class: CharClass)
    ensures
        prefix_len(s, class) <= s.len(),
        forall|i: int| 0 <= i < prefix_len(s, class) ==> class.holds(#[trigger] s[i]),
        prefix_len(s, class) < s.len() ==> !class.holds(s[prefix_len(s, class) as int]),
    decreases s.len(),
{
    if s.len() > 0 && class.holds(s[0]) {
        let rest = s.drop_first();
        lemma_prefix_len(rest, class);
        assert forall|i: int| 0 <= i < prefix_len(s, class) implies class.holds(#[trigger] s[i]) by {
            if i > 0 {
                assert(s[i] == rest[i - 1]);
            }
        }
        if prefix_len(s, class) < s.len() {
            assert(s[prefix_len(s, class) as int] == rest[prefix_len(rest, class) as int]);
        }
    }
}

/// A position `k` up to which all of `s` belongs to `class`, and at which `s`
/// ends or leaves the class, is the one that [`prefix_len`] measures.
pub proof fn lemma_prefix_len_is(s: Seq<char>, class: CharClass, k: int)
    requires
        0 <= k <= s.len(),
        forall|i: int| 0 <= i < k ==> class.holds(#[trigger] s[i]),
        k < s.len() ==> !class.holds(s[k]),
    ensures
        prefix_len(s, class) == k,
    decreases s.len(),
{
    if k > 0 {
        let rest = s.drop_first();
        assert(class.holds(s[0]));
        assert forall|i: int| 0 <= i < k - 1 implies class.holds(#[trigger] rest[i]) by {
            assert(rest[i] == s[i + 1]);
        }
        if k - 1 < rest.len() {
            assert(rest[k - 1] == s[k]);
        }
        lemma_prefix_len_is(rest, class, k - 1);
    }
}

/// A count `k` of characters at the end of `s` that all belong to `class`,
/// before which `s` begins or leaves the class, is the one that
/// [`suffix_len`] measures.
pub proof fn lemma_suffix_len_is(s: Seq<char>, class: CharClass, k: int)
    requires
        0 <= k <= s.len(),
        forall|i: int| s.len() - k <= i < s.len() ==> class.holds(#[trigger] s[i]),
        k < s.len() ==> !class.holds(s[s.len() - k - 1]),
    ensures
        suffix_len(s, class) == k,
    decreases s.len(),
{
    if k > 0 {
        let rest = s.drop_last();
        assert(class.holds(s[s.len() - 1]));
        assert forall|i: int| rest.len() - (k - 1) <= i < rest.len() implies class.holds(
            #[trigger] rest[i],
        ) by {
            assert(rest[i] == s[i]);
        }
        if k - 1 < rest.len() {
            assert(rest[rest.len() - (k - 1) - 1] == s[s.len() - k - 1]);
        }
        lemma_suffix_len_is(rest, class, k - 1);
    }
}

/// The words of `s`: its longest runs of characters that are not white
/// space, in order.
pub open spec fn words(s: Seq<char>) -> Seq<Seq<char>>
    decreases s.len(),
    via words_decreases
{
    let t = trim_start(s);
    if t.len() == 0 {
        Seq::empty()
    } else {
        let n = prefix_len(t, CharClass::Visible) as int;
        seq![t.take(n)] + words(t.skip(n))
    }
}

#[via_fn]
proof fn words_decreases(s: Seq<char>) {
    let t = trim_start(s);
    if t.len() != 0 {
        lemma_prefix_len(s, CharClass::Whitespace);
        lemma_prefix_len(t, CharClass::Visible);
        assert(CharClass::Visible.holds(t[0]));
    }
}

/// The pieces of `s` between the occurrences of `separator`, in order. There
/// is one piece more than there are separators, so a text without any is its
/// own single piece.
pub open spec fn split_on(s: Seq<char>, separator: char) -> Seq<Seq<char>>
    decreases s.len(),
    via split_on_decreases
{
    let n = prefix_len(s, CharClass::Except(separator)) as int;
    if n >= s.len() {
        seq![s]
    } else {
        seq![s.take(n)] + split_on(s.skip(n + 1), separator)
    }
}

#[via_fn]
proof fn split_on_decreases(s: Seq<char>, separator: char) {
    lemma_prefix_len_bounds(s, CharClass::Except(separator));
    let k = prefix_len(s, CharClass::Except(separator)) as int;
    if k < s.len() {
        assert(s.skip(k + 1).len() == s.len() - (k + 1));
    }
}

proof fn lemma_prefix_len_bounds(s: Seq<char>, class: CharClass)
    ensures
        0 <= prefix_len(s, class) <= s.len(),
{
    lemma_prefix_len(s, class);
}

/// Whether `needle` stands in `hay` at position `i`.
pub open spec fn occurs_at(hay: Seq<char>, needle: Seq<char>, i: int) -> bool {
    0 <= i && i + needle.len() <= hay.len() && hay.subrange(i, i + needle.len()) == needle
}

/// The first position at or after `from` at which `needle` stands in `hay`.
pub open spec fn first_match_from(hay: Seq<char>, needle: Seq<char>, from: int) -> Option<int>
    decreases hay.len() - from,
    via first_match_from_decreases
{
    if from < 0 || from + needle.len() > hay.len() {
        None
    } else if occurs_at(hay, needle, from) {
        Some(from)
    } else {
        first_match_from(hay, needle, from + 1)
    }
}

#[via_fn]
proof fn first_match_from_decreases(hay: Seq<char>, needle: Seq<char>, from: int) {
    if 0 <= from <= hay.len() && needle.len() == 0 {
        assert(hay.subrange(from, from + needle.len()) =~= needle);
    }
}

/// The first position at which `needle` stands in `hay`.
pub open spec fn first_match(hay: Seq<char>, needle: Seq<char>) -> Option<int> {
    first_match_from(hay, needle, 0)
}

/// Whether `needle` stands somewhere in `hay`.
pub open spec fn contains(hay: Seq<char>, needle: Seq<char>) -> bool {
    first_match(hay, needle) is Some
}

/// The number that the digit `c` stands for.
pub open spec fn digit_value(c: char) -> int {
    c as int - '0' as int
}

/// Whether `s` is made of ASCII digits only.
pub open spec fn all_digits(s: Seq<char>) -> bool {
    forall|i: int| 0 <= i < s.len() ==> is_digit(#[trigger] s[i])
}

/// The number that the digits `s` write in base ten; 0 for no digits.
pub open spec fn decimal_value(s: Seq<char>) -> nat
    decreases s.len(),
{
    if s.len() == 0 {
        0
    } else {
        (10 * decimal_value(s.drop_last()) + digit_value(s.last())) as nat
    }
}

/// `s` without a plus sign at its start.
pub open spec fn unsigned_part(s: Seq<char>) -> Seq<char> {
    if s.len() > 0 && s[0] == '+' {
        s.skip(1)
    } else {
        s
    }
}

/// The number that `s` writes: an optional plus sign, then one or more ASCII
/// digits and nothing else, for a value that fits in 32 bits. Any other text
/// writes no number.
pub open spec fn read_u32(s: Seq<char>) -> Option<u32> {
    let digits = unsigned_part(s);
    if digits.len() > 0 && all_digits(digits) && decimal_value(digits) <= u32::MAX {
        Some(decimal_value(digits) as u32)
    } else {
        None
    }
}

/// The truth value that `s` writes: `true` or `false`, spelled exactly so.
pub open spec fn read_bool(s: Seq<char>) -> Option<bool> {
    if s == "true"@ {
        Some(true)
    } else if s == "false"@ {
        Some(false)
    } else {
        None
    }
}

/// The digit that writes `d`, for `d` below ten.
pub open spec fn digit_char(d: int) -> char {
    ('0' as int + d) as char
}

/// `n` written in base ten, without leading zeros.
pub open spec fn decimal(n: nat) -> Seq<char>
    decreases n,
{
    if n < 10 {
        seq![digit_char(n as int)]
    } else {
        decimal(n / 10).push(digit_char((n % 10) as int))
    }
}

/// `n` written in base ten, with a minus sign if it is negative.
pub open spec fn signed_decimal(n: int) -> Seq<char> {
    if n < 0 {
        seq!['-'] + decimal((-n) as nat)
    } else {
        decimal(n as nat)
    }
}

/// Whether `a` comes before `b`, or equals it, in the order of a dictionary
/// whose alphabet is the code points.
pub open spec fn lex_le(a: Seq<char>, b: Seq<char>) -> bool
    decreases a.len(),
{
    if a.len() == 0 {
        true
    } else if b.len() == 0 {
        false
    } else if a[0] != b[0] {
        a[0] < b[0]
    } else {
        lex_le(a.drop_first(), b.drop_first())
    }
}

/// Where [`first_match_from`] finds `needle` it stands, and nowhere between
/// `from` and there; where it finds nothing, `needle` stands nowhere at or
/// after `from`.
pub proof fn lemma_first_match_from(hay: Seq<char>, needle: Seq<char>, from: int)
    requires
        0 <= from,
    ensures
        match first_match_from(hay, needle, from) {
            Some(i) => from <= i && occurs_at(hay, needle, i) && forall|j: int|
                from <= j < i ==> !occurs_at(hay, needle, j),
            None => forall|j: int| from <= j ==> !occurs_at(hay, needle, j),
        },
    decreases hay.len() - from,
{
    if from + needle.len() <= hay.len() && !occurs_at(hay, needle, from) {
        if needle.len() == 0 {
            assert(hay.subrange(from, from + needle.len()) =~= needle);
        }
        lemma_first_match_from(hay, needle, from + 1);
    }
}

/// The value of some of the first digits of a number is not above the value
/// of all of them.
pub proof fn lemma_decimal_value_grows(s: Seq<char>, k: int)
    requires
        all_digits(s),
        0 <= k <= s.len(),
    ensures
        decimal_value(s.take(k)) <= decimal_value(s),
    decreases s.len() - k,
{
    if k < s.len() {
        lemma_decimal_value_grows(s, k + 1);
        assert(s.take(k + 1).drop_last() == s.take(k));
        assert(is_digit(s[k]));
        assert(s.take(k + 1).last() == s[k]);
    } else {
        assert(s.take(k) == s);
    }
}

/// What [`decimal`] writes is read back by [`decimal_value`], and is made of
/// one or more digits.
pub proof fn lemma_decimal_wellformed(n: nat)
    ensures
        decimal(n).len() > 0,
        all_digits(decimal(n)),
        decimal_value(decimal(n)) == n,
    decreases n,
{
    if n < 10 {
        let s = decimal(n);
        assert(s.drop_last().len() == 0);
        assert(decimal_value(s.drop_last()) == 0);
    } else {
        lemma_decimal_wellformed(n / 10);
        let s = decimal(n);
        let head = decimal(n / 10);
        assert(s.drop_last() == head);
        assert(s.last() == digit_char((n % 10) as int));
        assert forall|i: int| 0 <= i < s.len() implies is_digit(#[trigger] s[i]) by {
            if i < head.len() {
                assert(s[i] == head[i]);
            }
        }
    }
}

/// Any number that fits in 32 bits, written by [`decimal`], is read back by
/// [`read_u32`].
pub proof fn lemma_read_decimal(n: u32)
    ensures
        read_u32(decimal(n as nat)) == Some(n),
{
    lemma_decimal_wellformed(n as nat);
    assert(is_digit(decimal(n as nat)[0]));
}

/// Of two texts one comes first.
pub proof fn lemma_lex_le_total(a: Seq<char>, b: Seq<char>)
    ensures
        lex_le(a, b) || lex_le(b, a),
    decreases a.len(),
{
    if a.len() > 0 && b.len() > 0 && a[0] == b[0] {
        lemma_lex_le_total(a.drop_first(), b.drop_first());
    }
}

/// Two texts that each come before the other are the same text.
pub proof fn lemma_lex_le_antisymmetric(a: Seq<char>, b: Seq<char>)
    requires
        lex_le(a, b),
        lex_le(b, a),
    ensures
        a == b,
    decreases a.len(),
{
    if a.len() > 0 && b.len() > 0 {
        lemma_lex_le_antisymmetric(a.drop_first(), b.drop_first());
        assert(a == seq![a[0]] + a.drop_first());
        assert(b == seq![b[0]] + b.drop_first());
    } else {
        assert(a.len() == 0 && b.len() == 0);
        assert(a == b);
    }
}

/// Whether no character of `s` is white space.
pub open spec fn is_word(s: Seq<char>) -> bool {
    forall|i: int| 0 <= i < s.len() ==> !is_whitespace(#[trigger] s[i])
}

/// A text that neither begins nor ends with white space is its own trimmed
/// form.
pub proof fn lemma_trim_spotless(s: Seq<char>)
    requires
        s.len() > 0 ==> !is_whitespace(s.first()) && !is_whitespace(s.last()),
    ensures
        trim(s) == s,
{
    lemma_prefix_len_is(s, CharClass::Whitespace, 0);
    assert(s.skip(0) == s);
    lemma_suffix_len_is(s, CharClass::Whitespace, 0);
    assert(s.take(s.len() as int) == s);
}

/// A text made of white space only has no words.
pub proof fn lemma_words_of_blank(s: Seq<char>)
    requires
        forall|i: int| 0 <= i < s.len() ==> is_whitespace(#[trigger] s[i]),
    ensures
        words(s) == Seq::<Seq<char>>::empty(),
{
    lemma_prefix_len_is(s, CharClass::Whitespace, s.len() as int);
}

/// White space at the start of a text is no part of its words.
pub proof fn lemma_words_after_space(s: Seq<char>)
    requires
        s.len() > 0,
        is_whitespace(s[0]),
    ensures
        words(s) == words(s.drop_first()),
{
    let rest = s.drop_first();
    let n = prefix_len(rest, CharClass::Whitespace) as int;
    lemma_prefix_len(rest, CharClass::Whitespace);
    assert(s.skip(1 + n) == rest.skip(n));
}

/// A word at the start of a text, with white space or nothing after it, is
/// the first of the text's words.
pub proof fn lemma_words_first(word: Seq<char>, rest: Seq<char>)
    requires
        word.len() > 0,
        is_word(word),
        rest.len() > 0 ==> is_whitespace(rest[0]),
    ensures
        words(word + rest) == seq![word] + words(rest),
{
    let s = word + rest;
    assert(s[0] == word[0]);
    lemma_prefix_len_is(s, CharClass::Whitespace, 0);
    assert(s.skip(0) == s);
    assert forall|i: int| 0 <= i < word.len() implies CharClass::Visible.holds(#[trigger] s[i]) by {
        assert(s[i] == word[i]);
    }
    if word.len() < s.len() {
        assert(s[word.len() as int] == rest[0]);
    }
    lemma_prefix_len_is(s, CharClass::Visible, word.len() as int);
    assert(s.take(word.len() as int) == word);
    assert(s.skip(word.len() as int) == rest);
}

/// The digits that write a number hold no white space and no sign.
pub proof fn lemma_decimal_is_word(n: nat)
    ensures
        is_word(decimal(n)),
        decimal(n).len() > 0,
        forall|i: int| 0 <= i < decimal(n).len() ==> is_digit(#[trigger] decimal(n)[i]),
{
    lemma_decimal_wellformed(n);
    assert forall|i: int| 0 <= i < decimal(n).len() implies !is_whitespace(
        #[trigger] decimal(n)[i],
    ) by {
        assert(is_digit(decimal(n)[i]));
    }
}

/// Tests whether `c` has the Unicode property `White_Space`.
pub fn char_is_whitespace(c: char) -> (b: bool)
    ensures
        b == is_whitespace(c),
{
    let n: u32 = c as u32;
    (0x09 <= n && n <= 0x0D) || n == 0x20 || n == 0x85 || n == 0xA0 || n == 0x1680 || (0x2000 <= n
        && n <= 0x200A) || n == 0x2028 || n == 0x2029 || n == 0x202F || n == 0x205F || n == 0x3000
}

/// The characters of `s`.
pub fn to_chars(s: &str) -> (v: Vec<char>)
    ensures
        v@ == s@,
{
    let mut v: Vec<char> = Vec::new();
    for c in it: s.chars()
        invariant
            it.seq() == s@,
            v@ == s@.take(it.index() as int),
    {
        v.push(c);
    }
    v
}

/// The string made of the characters of `v`.
pub fn to_string(v: &Vec<char>) -> (s: String)
    ensures
        s@ == v@,
{
    let mut s = String::new();
    let mut i: usize = 0;
    while i < v.len()
        invariant
            i <= v.len(),
            s@ == v@.take(i as int),
        decreases v.len() - i,
    {
        s.push(v[i]);
        i += 1;
    }
    s
}

/// Whether `v` holds exactly the characters of `s`.
pub fn equals_str(v: &Vec<char>, s: &str) -> (b: bool)
    ensures
        b == (v@ == s@),
{
    let w = to_chars(s);
    equals(v, &w)
}

/// Whether `a` and `b` hold the same characters.
pub fn equals(a: &Vec<char>, b: &Vec<char>) -> (r: bool)
    ensures
        r == (a@ == b@),
{
    if a.len() != b.len() {
        return false;
    }
    let mut i: usize = 0;
    while i < a.len()
        invariant
            i <= a.len(),
            a.len() == b.len(),
            a@.take(i as int) == b@.take(i as int),
        decreases a.len() - i,
    {
        if a[i] != b[i] {
            return false;
        }
        assert(a@.take(i + 1) == a@.take(i as int).push(a@[i as int]));
        assert(b@.take(i + 1) == b@.take(i as int).push(b@[i as int]));
        i += 1;
    }
    assert(a@ == a@.take(a.len() as int));
    assert(b@ == b@.take(b.len() as int));
    true
}

/// The characters of `v` from position `from` up to, not including, `to`.
pub fn slice(v: &Vec<char>, from: usize, to: usize) -> (r: Vec<char>)
    requires
        from <= to <= v.len(),
    ensures
        r@ == v@.subrange(from as int, to as int),
{
    let mut r: Vec<char> = Vec::new();
    let mut i: usize = from;
    while i < to
        invariant
            from <= i <= to <= v.len(),
            r@ == v@.subrange(from as int, i as int),
        decreases to - i,
    {
        r.push(v[i]);
        i += 1;
    }
    r
}

/// The position of the first character of `v`, at or after `from`, that does
/// not belong to `class`; the length of `v` if there is none.
pub fn scan(v: &Vec<char>, from: usize, class: CharClass) -> (end: usize)
    requires
        from <= v.len(),
    ensures
        end == from + prefix_len(v@.skip(from as int), class),
        from <= end <= v.len(),
{
    let mut i: usize = from;
    while i < v.len() && class.contains(v[i])
        invariant
            from <= i <= v.len(),
            forall|j: int| from <= j < i ==> class.holds(#[trigger] v@[j]),
        decreases v.len() - i,
    {
        i += 1;
    }
    proof {
        lemma_prefix_len_is(v@.skip(from as int), class, i - from);
    }
    i
}

/// The position after the last character of `v`, before `to` and not before
/// `from`, that does not belong to `class`; `from` if there is none.
pub fn scan_back(v: &Vec<char>, from: usize, to: usize, class: CharClass) -> (start: usize)
    requires
        from <= to <= v.len(),
    ensures
        start == to - suffix_len(v@.subrange(from as int, to as int), class),
        from <= start <= to,
{
    let mut i: usize = to;
    while i > from && class.contains(v[i - 1])
        invariant
            from <= i <= to <= v.len(),
            forall|j: int| i <= j < to ==> class.holds(#[trigger] v@[j]),
        decreases i,
    {
        i -= 1;
    }
    proof {
        lemma_suffix_len_is(v@.subrange(from as int, to as int), class, to - i);
    }
    i
}

/// `v` without the white space at its start and at its end.
pub fn trimmed(v: &Vec<char>) -> (r: Vec<char>)
    ensures
        r@ == trim(v@),
{
    let start = scan(v, 0, CharClass::Whitespace);
    let end = scan_back(v, start, v.len(), CharClass::Whitespace);
    assert(v@.skip(0) == v@);
    assert(v@.skip(start as int) == v@.subrange(start as int, v.len() as int));
    let r = slice(v, start, end);
    assert(r@ == trim(v@));
    r
}

/// The words of `v`: its longest runs of characters that are not white
/// space, in order.
pub fn split_words(v: &Vec<char>) -> (out: Vec<Vec<char>>)
    ensures
        texts_of(out@) == words(v@),
{
    let mut out: Vec<Vec<char>> = Vec::new();
    let mut i: usize = 0;
    assert(v@.skip(0) == v@);
    assert(texts_of(out@) + words(v@.skip(0)) == words(v@));
    loop
        invariant_except_break
            i <= v.len(),
            texts_of(out@) + words(v@.skip(i as int)) == words(v@),
        ensures
            texts_of(out@) == words(v@),
        decreases v.len() - i,
    {
        let ghost rest = v@.skip(i as int);
        let start = scan(v, i, CharClass::Whitespace);
        assert(trim_start(rest) == v@.skip(start as int));
        if start == v.len() {
            assert(words(rest) == Seq::<Seq<char>>::empty());
            break;
        }
        let end = scan(v, start, CharClass::Visible);
        let word = slice(v, start, end);
        proof {
            let t = v@.skip(start as int);
            lemma_prefix_len(rest, CharClass::Whitespace);
            assert(t[0] == rest[start - i]);
            assert(CharClass::Visible.holds(t[0]));
            assert(end > start);
            assert(t.take(end - start) == word@);
            assert(t.skip(end - start) == v@.skip(end as int));
            assert(words(rest) == seq![word@] + words(v@.skip(end as int)));
            assert(texts_of(out@.push(word)) == texts_of(out@) + seq![word@]);
        }
        out.push(word);
        i = end;
    }
    out
}

/// The pieces of `v` between the occurrences of `separator`, in order.
pub fn split(v: &Vec<char>, separator: char) -> (out: Vec<Vec<char>>)
    ensures
        texts_of(out@) == split_on(v@, separator),
        out.len() >= 1,
{
    let mut out: Vec<Vec<char>> = Vec::new();
    let mut i: usize = 0;
    assert(v@.skip(0) == v@);
    assert(texts_of(out@) + split_on(v@.skip(0), separator) == split_on(v@, separator));
    loop
        invariant_except_break
            i <= v.len(),
            texts_of(out@) + split_on(v@.skip(i as int), separator) == split_on(v@, separator),
        ensures
            texts_of(out@) == split_on(v@, separator),
            out.len() >= 1,
        decreases v.len() - i,
    {
        let ghost rest = v@.skip(i as int);
        let end = scan(v, i, CharClass::Except(separator));
        let piece = slice(v, i, end);
        proof {
            assert(rest.take(end - i) == piece@);
            assert(texts_of(out@.push(piece)) == texts_of(out@) + seq![piece@]);
            if end == v.len() {
                assert(rest.take(end - i) == rest);
            } else {
                assert(rest.skip(end - i + 1) == v@.skip(end + 1));
            }
        }
        out.push(piece);
        if end == v.len() {
            break;
        }
        i = end + 1;
    }
    out
}

/// Whether `needle` stands in `hay` at position `i`.
pub fn stands_at(hay: &Vec<char>, needle: &Vec<char>, i: usize) -> (b: bool)
    ensures
        b == occurs_at(hay@, needle@, i as int),
{
    if needle.len() > hay.len() || i > hay.len() - needle.len() {
        return false;
    }
    let mut k: usize = 0;
    while k < needle.len()
        invariant
            k <= needle.len(),
            i + needle.len() <= hay.len(),
            hay@.subrange(i as int, i + k) == needle@.take(k as int),
        decreases needle.len() - k,
    {
        if hay[i + k] != needle[k] {
            assert(hay@.subrange(i as int, i + needle.len())[k as int] != needle@[k as int]);
            return false;
        }
        assert(hay@.subrange(i as int, i + k + 1) == hay@.subrange(i as int, i + k).push(
            hay@[i + k],
        ));
        assert(needle@.take(k + 1) == needle@.take(k as int).push(needle@[k as int]));
        k += 1;
    }
    assert(needle@.take(needle.len() as int) == needle@);
    true
}

/// The first position at which `needle` stands in `hay`.
pub fn find(hay: &Vec<char>, needle: &Vec<char>) -> (r: Option<usize>)
    ensures
        match r {
            Some(i) => first_match(hay@, needle@) == Some(i as int) && i + needle.len()
                <= hay.len() && occurs_at(hay@, needle@, i as int) && forall|j: int|
                0 <= j < i ==> !occurs_at(hay@, needle@, j),
            None => first_match(hay@, needle@) is None && forall|j: int|
                !occurs_at(hay@, needle@, j),
        },
{
    proof {
        lemma_first_match_from(hay@, needle@, 0);
    }
    if needle.len() > hay.len() {
        return None;
    }
    let last = hay.len() - needle.len();
    let mut i: usize = 0;
    loop
        invariant
            i <= last,
            last == hay.len() - needle.len(),
            first_match_from(hay@, needle@, i as int) == first_match(hay@, needle@),
        decreases last - i,
    {
        if stands_at(hay, needle, i) {
            proof {
                lemma_first_match_from(hay@, needle@, 0);
            }
            return Some(i);
        }
        if i == last {
            proof {
                assert(first_match_from(hay@, needle@, i + 1) is None);
                lemma_first_match_from(hay@, needle@, 0);
            }
            return None;
        }
        i += 1;
    }
}

/// Whether `needle` stands somewhere in `hay`.
pub fn includes(hay: &Vec<char>, needle: &Vec<char>) -> (b: bool)
    ensures
        b == contains(hay@, needle@),
{
    find(hay, needle).is_some()
}

/// Whether `v` begins with `prefix`.
pub fn begins_with(v: &Vec<char>, prefix: &Vec<char>) -> (b: bool)
    ensures
        b == starts_with(v@, prefix@),
{
    let b = stands_at(v, prefix, 0);
    assert(prefix.len() <= v.len() ==> v@.take(prefix.len() as int) == v@.subrange(
        0,
        0 + prefix.len(),
    ));
    b
}

/// Whether `v` begins with `open` and ends with `close`, the two being
/// different characters of `v`.
pub fn is_enclosed_by(v: &Vec<char>, open: char, close: char) -> (b: bool)
    ensures
        b == enclosed_by(v@, open, close),
{
    v.len() >= 2 && v[0] == open && v[v.len() - 1] == close
}

/// What stands between the first and the last character of `v`.
pub fn inner_of(v: &Vec<char>) -> (r: Vec<char>)
    requires
        v.len() >= 2,
    ensures
        r@ == inner(v@),
{
    slice(v, 1, v.len() - 1)
}

/// The number that `v` writes, if it writes one.
pub fn parse_u32(v: &Vec<char>) -> (r: Option<u32>)
    ensures
        r == read_u32(v@),
{
    let start: usize = if v.len() > 0 && v[0] == '+' {
        1
    } else {
        0
    };
    let ghost digits = unsigned_part(v@);
    assert(digits == v@.skip(start as int));
    if start == v.len() {
        return None;
    }
    let mut acc: u64 = 0;
    let mut i: usize = start;
    assert(digits.take(0).len() == 0);
    while i < v.len()
        invariant
            start <= i <= v.len(),
            digits == v@.skip(start as int),
            digits == unsigned_part(v@),
            all_digits(digits.take(i - start)),
            acc == decimal_value(digits.take(i - start)),
            acc <= u32::MAX,
        decreases v.len() - i,
    {
        let c = v[i];
        assert(digits[i - start] == c);
        if !(c >= '0' && c <= '9') {
            assert(!is_digit(digits[i - start]));
            return None;
        }
        let d: u64 = (c as u32 - '0' as u32) as u64;
        let ghost next = digits.take(i - start + 1);
        proof {
            assert(next.drop_last() == digits.take(i - start));
            assert(next.last() == c);
            assert(decimal_value(next) == 10 * acc + d);
            assert forall|j: int| 0 <= j < next.len() implies is_digit(#[trigger] next[j]) by {
                if j < i - start {
                    assert(next[j] == digits.take(i - start)[j]);
                }
            }
        }
        acc = acc * 10 + d;
        if acc > 0xffff_ffff {
            proof {
                if all_digits(digits) {
                    lemma_decimal_value_grows(digits, i - start + 1);
                }
            }
            return None;
        }
        i += 1;
    }
    assert(digits.take(i - start) == digits);
    Some(acc as u32)
}

/// The truth value that `v` writes, if it writes one.
pub fn parse_bool(v: &Vec<char>) -> (r: Option<bool>)
    ensures
        r == read_bool(v@),
{
    if equals_str(v, "true") {
        Some(true)
    } else if equals_str(v, "false") {
        Some(false)
    } else {
        None
    }
}

/// The digit that writes `d`.
pub fn digit_of(d: u32) -> (c: char)
    requires
        d < 10,
    ensures
        c == digit_char(d as int),
{
    match d {
        0 => '0',
        1 => '1',
        2 => '2',
        3 => '3',
        4 => '4',
        5 => '5',
        6 => '6',
        7 => '7',
        8 => '8',
        _ => '9',
    }
}

/// `n` written in base ten, without leading zeros.
pub fn format_u32(n: u32) -> (r: Vec<char>)
    ensures
        r@ == decimal(n as nat),
    decreases n,
{
    if n < 10 {
        let mut r: Vec<char> = Vec::new();
        r.push(digit_of(n));
        assert(r@ == seq![digit_char(n as int)]);
        r
    } else {
        let mut r = format_u32(n / 10);
        r.push(digit_of(n % 10));
        r
    }
}

/// `n` written in base ten, with a minus sign if it is negative.
pub fn format_i32(n: i32) -> (r: Vec<char>)
    ensures
        r@ == signed_decimal(n as int),
{
    if n < 0 {
        let magnitude: u32 = (-(n as i64)) as u32;
        let mut r: Vec<char> = Vec::new();
        r.push('-');
        let mut digits = format_u32(magnitude);
        r.append(&mut digits);
        assert(r@ == seq!['-'] + decimal((-n) as nat));
        r
    } else {
        format_u32(n as u32)
    }
}

/// Whether `a` comes before `b`, or equals it, in the order of a dictionary
/// whose alphabet is the code points.
pub fn comes_first(a: &Vec<char>, b: &Vec<char>) -> (r: bool)
    ensures
        r == lex_le(a@, b@),
{
    let mut i: usize = 0;
    assert(a@.skip(0) == a@ && b@.skip(0) == b@);
    loop
        invariant
            i <= a.len(),
            i <= b.len(),
            lex_le(a@.skip(i as int), b@.skip(i as int)) == lex_le(a@, b@),
        decreases a.len() - i,
    {
        if i == a.len() {
            return true;
        }
        if i == b.len() {
            return false;
        }
        if a[i] != b[i] {
            return a[i] < b[i];
        }
        assert(a@.skip(i as int).drop_first() == a@.skip(i + 1));
        assert(b@.skip(i as int).drop_first() == b@.skip(i + 1));
        i += 1;
    }
}

} // verus!
