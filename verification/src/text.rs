//! Character-level text handling: whitespace, words, unsigned decimal numbers.
use vstd::prelude::*;

verus! {

/// Whether `c` has the Unicode `White_Space` property (what `char::is_whitespace` tests).
pub open spec fn is_space(c: char) -> bool {
    let u: u32 = c as u32;
    ||| 0x9 <= u <= 0xd
    ||| u == 0x20
    ||| u == 0x85
    ||| u == 0xa0
    ||| u == 0x1680
    ||| 0x2000 <= u <= 0x200a
    ||| u == 0x2028
    ||| u == 0x2029
    ||| u == 0x202f
    ||| u == 0x205f
    ||| u == 0x3000
}

/// Tests the Unicode `White_Space` property of `c`.
pub fn is_space_char(c: char) -> (r: bool)
    ensures
        r == is_space(c),
{
    let u: u32 = c as u32;
    (0x9 <= u && u <= 0xd) || u == 0x20 || u == 0x85 || u == 0xa0 || u == 0x1680 || (0x2000 <= u
        && u <= 0x200a) || u == 0x2028 || u == 0x2029 || u == 0x202f || u == 0x205f || u == 0x3000
}

/// The chars of a string, in order.
pub fn chars_of(s: &str) -> (v: Vec<char>)
    ensures
        v@ == s@,
{
    let mut v: Vec<char> = Vec::new();
    for c in it: s.chars()
        invariant
            v@ == it.seq().take(it.index() as int),
    {
        v.push(c);
    }
    v
}


/// One step of reading `s` left to right into words: the words completed so far and the word
/// being read.
pub open spec fn split_step(acc: (Seq<Seq<char>>, Seq<char>), c: char) -> (Seq<Seq<char>>, Seq<char>) {
    if is_space(c) {
        if acc.1.len() > 0 {
            (acc.0.push(acc.1), Seq::empty())
        } else {
            (acc.0, Seq::empty())
        }
    } else {
        (acc.0, acc.1.push(c))
    }
}

/// The completed words of `s` and the word still being read at its end.
pub open spec fn split_state(s: Seq<char>) -> (Seq<Seq<char>>, Seq<char>)
    decreases s.len(),
{
    if s.len() == 0 {
        (Seq::empty(), Seq::empty())
    } else {
        split_step(split_state(s.drop_last()), s.last())
    }
}

/// The words of `s`: its maximal runs of non-whitespace chars, in order
/// (what `str::split_whitespace` yields).
pub open spec fn words(s: Seq<char>) -> Seq<Seq<char>> {
    let st = split_state(s);
    if st.1.len() > 0 {
        st.0.push(st.1)
    } else {
        st.0
    }
}

proof fn lemma_split_state_nonempty(s: Seq<char>)
    ensures
        forall|k: int| 0 <= k < split_state(s).0.len() ==> (#[trigger] split_state(s).0[k]).len() > 0,
    decreases s.len(),
{
    if s.len() > 0 {
        let prev = split_state(s.drop_last());
        lemma_split_state_nonempty(s.drop_last());
        assert(split_state(s) == split_step(prev, s.last()));
        assert forall|k: int| 0 <= k < split_state(s).0.len() implies (
        #[trigger] split_state(s).0[k]).len() > 0 by {
            if k < prev.0.len() {
                assert(split_state(s).0[k] == prev.0[k]);
            }
        }
    }
}

/// Every word is at least one char long.
pub proof fn lemma_words_nonempty(s: Seq<char>)
    ensures
        forall|k: int| 0 <= k < words(s).len() ==> (#[trigger] words(s)[k]).len() > 0,
{
    lemma_split_state_nonempty(s);
}

proof fn lemma_words_of_space_end(s: Seq<char>)
    requires
        s.len() > 0,
        is_space(s.last()),
    ensures
        words(s) == words(s.drop_last()),
{
    let prev = split_state(s.drop_last());
    assert(split_state(s) == split_step(prev, s.last()));
}

/// A text with a char that is not whitespace has at least one word.
pub proof fn lemma_has_word(s: Seq<char>, i: int)
    requires
        0 <= i < s.len(),
        !is_space(s[i]),
    ensures
        words(s).len() > 0,
    decreases s.len(),
{
    let prev = split_state(s.drop_last());
    assert(split_state(s) == split_step(prev, s.last()));
    if i < s.len() - 1 {
        assert(s.drop_last()[i] == s[i]);
        lemma_has_word(s.drop_last(), i);
        if is_space(s.last()) {
            lemma_words_of_space_end(s);
        }
    }
}

/// Splits `s` into its words.
pub fn split_words(s: &Vec<char>) -> (w: Vec<Vec<char>>)
    ensures
        w.deep_view() == words(s@),
{
    let mut done: Vec<Vec<char>> = Vec::new();
    let mut cur: Vec<char> = Vec::new();
    let mut i: usize = 0;
    while i < s.len()
        invariant
            i <= s.len(),
            (done.deep_view(), cur@) == split_state(s@.take(i as int)),
        decreases s.len() - i,
    {
        let c = s[i];
        proof {
            assert(s@.take(i + 1).drop_last() =~= s@.take(i as int));
        }
        let ghost before = done.deep_view();
        if is_space_char(c) {
            if cur.len() > 0 {
                let word = cur;
                cur = Vec::new();
                done.push(word);
                assert(word.deep_view() =~= word@);
                assert(done.deep_view() =~= before.push(word@));
            }
        } else {
            cur.push(c);
        }
        i += 1;
    }
    assert(s@.take(s@.len() as int) =~= s@);
    if cur.len() > 0 {
        let ghost before = done.deep_view();
        let word = cur;
        done.push(word);
        assert(word.deep_view() =~= word@);
        assert(done.deep_view() =~= before.push(word@));
    }
    done
}

/// The error kinds of reading an unsigned decimal number (those of `std::num::IntErrorKind`
/// that an unsigned type can give).
#[derive(Debug, Clone, Copy, PartialEq, Eq, Structural)]
pub enum IntErrorKind {
    /// The text is empty.
    Empty,
    /// The text holds a char that is no decimal digit where a digit must stand.
    InvalidDigit,
    /// The number is larger than the type can hold.
    PosOverflow,
}

/// Whether `c` is an ASCII decimal digit.
pub open spec fn is_digit(c: char) -> bool {
    '0' <= c <= '9'
}

/// The value of the ASCII decimal digit `c`.
pub open spec fn digit_value(c: char) -> int {
    c as int - '0' as int
}

/// Reads the digits of `s` from the left onto `acc`, for an unsigned type whose largest value is
/// `max`: the first char that is no ASCII digit gives `InvalidDigit`, the first digit that takes
/// the value past `max` gives `PosOverflow`.
pub open spec fn read_digits(s: Seq<char>, acc: int, max: int) -> Result<int, IntErrorKind>
    decreases s.len(),
{
    if s.len() == 0 {
        Ok(acc)
    } else if !is_digit(s[0]) {
        Err(IntErrorKind::InvalidDigit)
    } else if acc * 10 + digit_value(s[0]) > max {
        Err(IntErrorKind::PosOverflow)
    } else {
        read_digits(s.drop_first(), acc * 10 + digit_value(s[0]), max)
    }
}

/// What `str::parse` gives for an unsigned integer type whose largest value is `max`: an
/// optional leading `+`, then at least one decimal digit.
pub open spec fn parse_unsigned(s: Seq<char>, max: int) -> Result<int, IntErrorKind> {
    if s.len() == 0 {
        Err(IntErrorKind::Empty)
    } else if (s[0] == '+' || s[0] == '-') && s.len() == 1 {
        Err(IntErrorKind::InvalidDigit)
    } else if s[0] == '+' {
        read_digits(s.drop_first(), 0, max)
    } else {
        read_digits(s, 0, max)
    }
}

/// Reads `s` as an unsigned decimal number no larger than `max`.
pub fn parse_unsigned_chars(s: &Vec<char>, max: u64) -> (r: Result<u64, IntErrorKind>)
    requires
        max <= u32::MAX,
    ensures
        r matches Ok(v) ==> v <= max,
        r matches Ok(v) ==> parse_unsigned(s@, max as int) == Ok::<int, IntErrorKind>(v as int),
        r matches Err(e) ==> parse_unsigned(s@, max as int) == Err::<int, IntErrorKind>(e),
{
    if s.len() == 0 {
        return Err(IntErrorKind::Empty);
    }
    if (s[0] == '+' || s[0] == '-') && s.len() == 1 {
        return Err(IntErrorKind::InvalidDigit);
    }
    let start: usize = if s[0] == '+' { 1 } else { 0 };
    assert(s@.skip(1) =~= s@.drop_first());
    assert(s@.skip(0) =~= s@);
    assert(parse_unsigned(s@, max as int) == read_digits(s@.skip(start as int), 0, max as int));
    let mut acc: u64 = 0;
    let mut i: usize = start;
    while i < s.len()
        invariant
            start <= i <= s.len(),
            acc <= max,
            max <= u32::MAX,
            parse_unsigned(s@, max as int) == read_digits(s@.skip(start as int), 0, max as int),
            read_digits(s@.skip(start as int), 0, max as int) == read_digits(
                s@.skip(i as int),
                acc as int,
                max as int,
            ),
        decreases s.len() - i,
    {
        let c = s[i];
        assert(s@.skip(i as int)[0] == c);
        assert(s@.skip(i as int).drop_first() =~= s@.skip(i + 1));
        if !('0' <= c && c <= '9') {
            return Err(IntErrorKind::InvalidDigit);
        }
        let d: u64 = (c as u32 - '0' as u32) as u64;
        assert(d == digit_value(c));
        if acc * 10 + d > max {
            return Err(IntErrorKind::PosOverflow);
        }
        acc = acc * 10 + d;
        i += 1;
    }
    assert(s@.skip(i as int).len() == 0);
    Ok(acc)
}


/// Names what `char::is_numeric` returns for `c`: whether `c` has one of the Unicode general
/// categories for numbers (`Nd`, `Nl`, `No`).
pub uninterp spec fn char_is_numeric(c: char) -> bool;

/// Calls `char::is_numeric`. Its contract claims that the result is a function of `c` and that
/// among the ASCII chars exactly the decimal digits (category `Nd`) are numeric; for other chars
/// it is left unsaid.
#[verifier::external_body]
pub(crate) fn is_numeric_char(c: char) -> (r: bool)
    ensures
        r == char_is_numeric(c),
        (c as u32) < 128 ==> (r <==> is_digit(c)),
{
    c.is_numeric()
}

/// What `char::is_numeric` returns for `c`: among the ASCII chars exactly the decimal digits
/// are numeric; other chars as the standard library decides.
pub open spec fn numeric(c: char) -> bool {
    if (c as u32) < 128 {
        is_digit(c)
    } else {
        char_is_numeric(c)
    }
}

/// The longest prefix of `s` whose chars are all numeric (what
/// `s.chars().take_while(|c| c.is_numeric())` yields).
pub open spec fn numeric_prefix(s: Seq<char>) -> Seq<char>
    decreases s.len(),
{
    if s.len() > 0 && numeric(s[0]) {
        seq![s[0]] + numeric_prefix(s.drop_first())
    } else {
        Seq::empty()
    }
}

/// The longest prefix of `s` whose chars are all numeric.
pub fn take_numeric_prefix(s: &Vec<char>) -> (p: Vec<char>)
    ensures
        p@ == numeric_prefix(s@),
{
    let mut p: Vec<char> = Vec::new();
    let mut i: usize = 0;
    assert(s@.skip(0) =~= s@);
    while i < s.len() && is_numeric_char(s[i])
        invariant
            i <= s.len(),
            numeric_prefix(s@) == p@ + numeric_prefix(s@.skip(i as int)),
        decreases s.len() - i,
    {
        assert(s@.skip(i as int).drop_first() =~= s@.skip(i + 1));
        assert(p@.push(s[i as int]) + numeric_prefix(s@.skip(i + 1)) =~= p@ + (seq![s[i as int]]
            + numeric_prefix(s@.skip(i + 1))));
        p.push(s[i]);
        i += 1;
    }
    assert(numeric_prefix(s@.skip(i as int)) =~= Seq::<char>::empty());
    assert(p@ + Seq::<char>::empty() =~= p@);
    p
}

/// Appends `c` to `s` with `String::push`, which the documentation describes as appending the
/// given char to the end of the string.
#[verifier::external_body]
pub(crate) fn push_char(s: &mut String, c: char)
    ensures
        final(s)@ == old(s)@.push(c),
{
    s.push(c)
}

/// Removes the last char of `s` with `String::pop`, which the documentation describes as
/// removing and returning the last char, or returning `None` when the string is empty.
#[verifier::external_body]
pub(crate) fn pop_char(s: &mut String) -> (r: Option<char>)
    ensures
        old(s)@.len() == 0 ==> r is None && final(s)@ == old(s)@,
        old(s)@.len() > 0 ==> r == Some(old(s)@.last()) && final(s)@ == old(s)@.drop_last(),
{
    s.pop()
}

/// A string holding the chars of `v`.
pub fn string_of(v: &Vec<char>) -> (s: String)
    ensures
        s@ == v@,
{
    let mut s = String::new();
    let mut i: usize = 0;
    while i < v.len()
        invariant
            i <= v.len(),
            s@ == v@.take(i as int),
        decreases v.len() - i,
    {
        assert(v@.take(i + 1) =~= v@.take(i as int).push(v[i as int]));
        push_char(&mut s, v[i]);
        i += 1;
    }
    assert(v@.take(v@.len() as int) =~= v@);
    s
}

/// Appends the chars of `t` to `s`.
pub fn push_str_chars(s: &mut String, t: &str)
    ensures
        final(s)@ == old(s)@ + t@,
{
    let cs = chars_of(t);
    let mut i: usize = 0;
    while i < cs.len()
        invariant
            i <= cs.len(),
            cs@ == t@,
            s@ == old(s)@ + cs@.take(i as int),
        decreases cs.len() - i,
    {
        assert(old(s)@ + cs@.take(i + 1) =~= (old(s)@ + cs@.take(i as int)).push(cs[i as int]));
        push_char(s, cs[i]);
        i += 1;
    }
    assert(cs@.take(cs@.len() as int) =~= cs@);
}

/// The decimal digits of `n`, most significant first, without leading zeros (`"0"` for zero).
pub open spec fn decimal(n: nat) -> Seq<char>
    decreases n,
{
    if n < 10 {
        seq![digit_char(n)]
    } else {
        decimal(n / 10).push(digit_char(n % 10))
    }
}

/// The ASCII char of the decimal digit `d`.
pub open spec fn digit_char(d: nat) -> char {
    ((48 + d) as u8) as char
}

/// Appends the decimal digits of `n` to `s`.
pub fn push_decimal(s: &mut String, n: u64)
    ensures
        final(s)@ == old(s)@ + decimal(n as nat),
    decreases n,
{
    if n < 10 {
        push_char(s, (48u8 + n as u8) as char);
        assert(old(s)@.push(digit_char(n as nat)) =~= old(s)@ + decimal(n as nat));
    } else {
        push_decimal(s, n / 10);
        push_char(s, (48u8 + (n % 10) as u8) as char);
        assert((old(s)@ + decimal((n / 10) as nat)).push(digit_char((n % 10) as nat)) =~= old(s)@
            + decimal(n as nat));
    }
}

proof fn lemma_read_digits_append(s: Seq<char>, t: Seq<char>, acc: int, max: int)
    ensures
        read_digits(s + t, acc, max) == match read_digits(s, acc, max) {
            Ok(v) => read_digits(t, v, max),
            Err(e) => Err(e),
        },
    decreases s.len(),
{
    if s.len() > 0 {
        assert((s + t).drop_first() =~= s.drop_first() + t);
        assert((s + t)[0] == s[0]);
        lemma_read_digits_append(s.drop_first(), t, acc * 10 + digit_value(s[0]), max);
    } else {
        assert(s + t =~= t);
    }
}

proof fn lemma_digit_char(d: nat)
    requires
        d < 10,
    ensures
        is_digit(digit_char(d)),
        digit_value(digit_char(d)) == d,
{
    let b: u8 = (48 + d) as u8;
    assert(b as char as int == b as int);
}

/// The chars of `decimal(n)` are all ASCII digits, the first one too.
pub proof fn lemma_decimal_digits(n: nat)
    ensures
        decimal(n).len() > 0,
        forall|i: int| 0 <= i < decimal(n).len() ==> is_digit(#[trigger] decimal(n)[i]),
    decreases n,
{
    lemma_digit_char(n % 10);
    if n >= 10 {
        lemma_decimal_digits(n / 10);
        assert forall|i: int| 0 <= i < decimal(n).len() implies is_digit(#[trigger] decimal(n)[i]) by {
            if i < decimal(n / 10).len() {
                assert(decimal(n)[i] == decimal(n / 10)[i]);
            }
        }
    }
}

proof fn lemma_read_decimal(n: nat, max: int)
    requires
        n <= max,
    ensures
        read_digits(decimal(n), 0, max) == Ok::<int, IntErrorKind>(n as int),
    decreases n,
{
    lemma_digit_char(n % 10);
    if n < 10 {
        lemma_digit_char(n);
        assert(decimal(n).drop_first() =~= Seq::<char>::empty());
        assert(decimal(n)[0] == digit_char(n));
        assert(read_digits(decimal(n).drop_first(), n as int, max) == Ok::<int, IntErrorKind>(n as int));
    } else {
        assert((n / 10) * 10 + n % 10 == n) by (nonlinear_arith);
        lemma_read_decimal(n / 10, max);
        let d = digit_char(n % 10);
        lemma_read_digits_append(decimal(n / 10), seq![d], 0, max);
        assert(decimal(n) =~= decimal(n / 10) + seq![d]);
        assert(seq![d].drop_first() =~= Seq::<char>::empty());
        assert(seq![d][0] == d);
        assert(read_digits(seq![d].drop_first(), n as int, max) == Ok::<int, IntErrorKind>(n as int));
    }
}

/// Reading the decimal digits of a number no larger than `max` gives the number back.
pub proof fn lemma_parse_decimal(n: nat, max: int)
    requires
        n <= max,
    ensures
        parse_unsigned(decimal(n), max) == Ok::<int, IntErrorKind>(n as int),
{
    lemma_decimal_digits(n);
    lemma_read_decimal(n, max);
    assert(is_digit(decimal(n)[0]));
}

/// A run of numeric chars is its own numeric prefix.
pub proof fn lemma_numeric_prefix_of_digits(s: Seq<char>)
    requires
        forall|i: int| 0 <= i < s.len() ==> is_digit(#[trigger] s[i]),
    ensures
        numeric_prefix(s) == s,
    decreases s.len(),
{
    if s.len() > 0 {
        assert(is_digit(s[0]));
        assert forall|i: int| 0 <= i < s.drop_first().len() implies is_digit(#[trigger] s.drop_first()[i]) by {
            assert(s.drop_first()[i] == s[i + 1]);
        }
        lemma_numeric_prefix_of_digits(s.drop_first());
        assert(seq![s[0]] + s.drop_first() =~= s);
    }
}

/// Whether `s` has no whitespace.
pub open spec fn no_space(s: Seq<char>) -> bool {
    forall|i: int| 0 <= i < s.len() ==> !is_space(#[trigger] s[i])
}

proof fn lemma_split_state_word(s: Seq<char>, t: Seq<char>)
    requires
        no_space(t),
    ensures
        split_state(s + t) == (split_state(s).0, split_state(s).1 + t),
    decreases t.len(),
{
    if t.len() == 0 {
        assert(s + t =~= s);
        assert(split_state(s).1 + t =~= split_state(s).1);
    } else {
        assert((s + t).drop_last() =~= s + t.drop_last());
        assert(!is_space(t[t.len() - 1]));
        lemma_split_state_word(s, t.drop_last());
        assert(split_state(s).1 + t.drop_last() + seq![t.last()] =~= split_state(s).1 + t);
        assert((split_state(s).1 + t.drop_last()).push(t.last()) =~= split_state(s).1 + t);
    }
}

/// Words separated by single spaces after any text are its last words: the words of
/// `s + " " + a + " " + b + " " + c`, for `a`, `b`, `c` without whitespace and not empty, end with
/// `a`, `b`, `c`.
pub proof fn lemma_last_words(s: Seq<char>, a: Seq<char>, b: Seq<char>, c: Seq<char>)
    requires
        a.len() > 0,
        b.len() > 0,
        c.len() > 0,
        no_space(a),
        no_space(b),
        no_space(c),
    ensures
        ({
            let w = words(s + seq![' '] + a + seq![' '] + b + seq![' '] + c);
            &&& w.len() >= 3
            &&& w[w.len() - 3] == a
            &&& w[w.len() - 2] == b
            &&& w[w.len() - 1] == c
        }),
{
    let s1 = s + seq![' '];
    assert(s1.drop_last() =~= s);
    let d1 = split_state(s1).0;
    assert(split_state(s1).1 == Seq::<char>::empty());
    lemma_split_state_word(s1, a);
    let s2 = s1 + a + seq![' '];
    assert(s2.drop_last() =~= s1 + a);
    assert(Seq::<char>::empty() + a =~= a);
    assert(split_state(s2) == (d1.push(a), Seq::<char>::empty()));
    lemma_split_state_word(s2, b);
    let s3 = s2 + b + seq![' '];
    assert(s3.drop_last() =~= s2 + b);
    assert(Seq::<char>::empty() + b =~= b);
    assert(split_state(s3) == (d1.push(a).push(b), Seq::<char>::empty()));
    lemma_split_state_word(s3, c);
    assert(Seq::<char>::empty() + c =~= c);
    assert(s3 + c =~= s + seq![' '] + a + seq![' '] + b + seq![' '] + c);
}

/// The decimal digits of a number hold no whitespace.
pub proof fn lemma_decimal_no_space(n: nat)
    ensures
        no_space(decimal(n)),
        decimal(n).len() > 0,
{
    lemma_decimal_digits(n);
}

} // verus!
