use vstd::prelude::*;

verus! {

/// Whether `c` has the Unicode property `Alphabetic`, as `char::is_alphabetic`
/// decides it.
pub uninterp spec fn alphabetic(c: char) -> bool;

/// Whether `c` is alphabetic or numeric in Unicode's sense, as
/// `char::is_alphanumeric` decides it.
pub uninterp spec fn alphanumeric(c: char) -> bool;

/// Whether `c` has the Unicode property `White_Space`, as
/// `char::is_whitespace` decides it.
pub uninterp spec fn whitespace(c: char) -> bool;

/// `char::is_alphabetic` is a function of the character alone; its result is
/// given the name `alphabetic`. Nothing more is claimed of it.
pub assume_specification[ char::is_alphabetic ](c: char) -> (r: bool)
    ensures
        r == alphabetic(c),
;

/// `char::is_alphanumeric` is a function of the character alone; its result
/// is given the name `alphanumeric`. Nothing more is claimed of it.
pub assume_specification[ char::is_alphanumeric ](c: char) -> (r: bool)
    ensures
        r == alphanumeric(c),
;

/// `char::is_whitespace` is a function of the character alone; its result is
/// given the name `whitespace`. Nothing more is claimed of it.
pub assume_specification[ char::is_whitespace ](c: char) -> (r: bool)
    ensures
        r == whitespace(c),
;

/// `String::push` appends one character to the end of the string.
pub assume_specification[ std::string::String::push ](s: &mut std::string::String, c: char)
    ensures
        final(s)@ == old(s)@.push(c),
;

/// An ASCII decimal digit.
pub open spec fn is_digit(c: char) -> bool {
    '0' <= c && c <= '9'
}

/// A character that may begin an identifier.
pub open spec fn starts_identifier(c: char) -> bool {
    alphabetic(c) || c == '_'
}

/// A character that may continue an identifier.
pub open spec fn continues_identifier(c: char) -> bool {
    alphanumeric(c) || c == '_'
}

/// The length of the longest run of characters satisfying `p` that begins at
/// index `from` of `s`.
pub open spec fn run_len(s: Seq<char>, from: int, p: spec_fn(char) -> bool) -> nat
    decreases s.len() - from,
{
    if 0 <= from < s.len() && p(s[from]) {
        1 + run_len(s, from + 1, p)
    } else {
        0
    }
}

/// How many characters of a text of length `len` lie at or after index `at`.
pub open spec fn remaining(len: nat, at: int) -> nat {
    if at < len {
        (len - at) as nat
    } else {
        0
    }
}

/// A run goes on over a character that satisfies the test.
pub proof fn lemma_run_goes_on(s: Seq<char>, from: int, p: spec_fn(char) -> bool)
    requires
        0 <= from < s.len(),
        p(s[from]),
    ensures
        run_len(s, from, p) == 1 + run_len(s, from + 1, p),
{
}

/// A run ends at the end of the text and before a character that fails the
/// test.
pub proof fn lemma_run_ends(s: Seq<char>, from: int, p: spec_fn(char) -> bool)
    requires
        from < 0 || from >= s.len() || !p(s[from]),
    ensures
        run_len(s, from, p) == 0,
{
}

/// A run stays within the text.
pub proof fn lemma_run_within(s: Seq<char>, from: int, p: spec_fn(char) -> bool)
    requires
        0 <= from <= s.len(),
    ensures
        from + run_len(s, from, p) <= s.len(),
    decreases s.len() - from,
{
    if from < s.len() && p(s[from]) {
        lemma_run_within(s, from + 1, p);
    }
}

/// A run ends at the end of the text or before a character that fails the
/// test.
pub proof fn lemma_run_stops(s: Seq<char>, from: int, p: spec_fn(char) -> bool)
    requires
        0 <= from <= s.len(),
    ensures
        from + run_len(s, from, p) == s.len() || !p(s[from + run_len(s, from, p)]),
    decreases s.len() - from,
{
    if from < s.len() && p(s[from]) {
        lemma_run_stops(s, from + 1, p);
    }
}

/// Where every character from `from` on satisfies the test, the run from
/// `from` goes to the end of the text.
pub proof fn lemma_run_covers(s: Seq<char>, from: int, p: spec_fn(char) -> bool)
    requires
        0 <= from <= s.len(),
        forall|i: int| from <= i < s.len() ==> p(s[i]),
    ensures
        from + run_len(s, from, p) == s.len(),
    decreases s.len() - from,
{
    if from < s.len() {
        lemma_run_covers(s, from + 1, p);
    }
}

/// `s` without its leading whitespace.
pub open spec fn trim_start(s: Seq<char>) -> Seq<char>
    decreases s.len(),
{
    if s.len() > 0 && whitespace(s[0]) {
        trim_start(s.skip(1))
    } else {
        s
    }
}

/// `s` without its trailing whitespace.
pub open spec fn trim_end(s: Seq<char>) -> Seq<char>
    decreases s.len(),
{
    if s.len() > 0 && whitespace(s.last()) {
        trim_end(s.drop_last())
    } else {
        s
    }
}

/// `s` without its leading and trailing whitespace.
pub open spec fn trimmed(s: Seq<char>) -> Seq<char> {
    trim_end(trim_start(s))
}

/// The character that writes the digit `d`.
pub open spec fn digit_char(d: nat) -> char {
    if d == 0 {
        '0'
    } else if d == 1 {
        '1'
    } else if d == 2 {
        '2'
    } else if d == 3 {
        '3'
    } else if d == 4 {
        '4'
    } else if d == 5 {
        '5'
    } else if d == 6 {
        '6'
    } else if d == 7 {
        '7'
    } else if d == 8 {
        '8'
    } else {
        '9'
    }
}

/// The decimal numeral of `n`, without leading zeros.
pub open spec fn decimal(n: nat) -> Seq<char>
    decreases n,
{
    if n < 10 {
        seq![digit_char(n)]
    } else {
        decimal(n / 10).push(digit_char(n % 10))
    }
}

/// `s` without its leading zeros, but for the last character.
pub open spec fn strip_leading_zeros(s: Seq<char>) -> Seq<char>
    decreases s.len(),
{
    if s.len() > 1 && s[0] == '0' {
        strip_leading_zeros(s.skip(1))
    } else {
        s
    }
}

/// `s` without its trailing zeros.
pub open spec fn strip_trailing_zeros(s: Seq<char>) -> Seq<char>
    decreases s.len(),
{
    if s.len() > 0 && s.last() == '0' {
        strip_trailing_zeros(s.drop_last())
    } else {
        s
    }
}

/// The canonical numeral of the number written with the digits `whole`
/// before the point and `fraction` after it: no needless zero on either
/// side, and no point where nothing follows it.
pub open spec fn canonical_numeral(whole: Seq<char>, fraction: Seq<char>) -> Seq<char> {
    let w = strip_leading_zeros(whole);
    let f = strip_trailing_zeros(fraction);
    if f.len() == 0 {
        w
    } else {
        w.push('.') + f
    }
}

/// The characters of `s`, in order.
pub fn chars_of(s: &str) -> (v: Vec<char>)
    ensures
        v@ == s@,
{
    let mut v: Vec<char> = Vec::new();
    for c in it: s.chars()
        invariant
            it.seq() == s@,
            v@ == it.seq().take(it.index() as int),
    {
        v.push(c);
    }
    v
}

/// Appends the characters `v[from..to]` to `s`.
pub fn push_chars(s: &mut String, v: &Vec<char>, from: usize, to: usize)
    requires
        from <= to <= v.len(),
    ensures
        final(s)@ == old(s)@ + v@.subrange(from as int, to as int),
{
    let mut i: usize = from;
    while i < to
        invariant
            from <= i <= to <= v.len(),
            s@ == old(s)@ + v@.subrange(from as int, i as int),
        decreases to - i,
    {
        s.push(v[i]);
        i += 1;
    }
}

/// The text made of the characters `v[from..to]`.
pub fn text_of(v: &Vec<char>, from: usize, to: usize) -> (s: String)
    requires
        from <= to <= v.len(),
    ensures
        s@ == v@.subrange(from as int, to as int),
{
    let mut s = String::new();
    push_chars(&mut s, v, from, to);
    s
}

/// Whether `c` is an ASCII decimal digit.
pub fn is_ascii_digit(c: char) -> (r: bool)
    ensures
        r == is_digit(c),
{
    '0' <= c && c <= '9'
}

/// Whether `c` may begin an identifier.
pub fn is_identifier_start(c: char) -> (r: bool)
    ensures
        r == starts_identifier(c),
{
    c.is_alphabetic() || c == '_'
}

/// Whether `c` may continue an identifier.
pub fn is_identifier_part(c: char) -> (r: bool)
    ensures
        r == continues_identifier(c),
{
    c.is_alphanumeric() || c == '_'
}

/// The text `v[from..to]` without its leading and trailing whitespace.
pub fn trimmed_text(v: &Vec<char>, from: usize, to: usize) -> (s: String)
    requires
        from <= to <= v.len(),
    ensures
        s@ == trimmed(v@.subrange(from as int, to as int)),
{
    let mut lo: usize = from;
    while lo < to && v[lo].is_whitespace()
        invariant
            from <= lo <= to <= v.len(),
            trim_start(v@.subrange(from as int, to as int)) == trim_start(
                v@.subrange(lo as int, to as int),
            ),
        decreases to - lo,
    {
        assert(v@.subrange(lo as int, to as int).skip(1) =~= v@.subrange(lo + 1, to as int));
        lo += 1;
    }
    let mut hi: usize = to;
    while lo < hi && v[hi - 1].is_whitespace()
        invariant
            from <= lo <= hi <= to <= v.len(),
            trim_start(v@.subrange(from as int, to as int)) == v@.subrange(lo as int, to as int),
            trim_end(v@.subrange(lo as int, to as int)) == trim_end(
                v@.subrange(lo as int, hi as int),
            ),
        decreases hi - lo,
    {
        assert(v@.subrange(lo as int, hi as int).drop_last() =~= v@.subrange(lo as int, hi - 1));
        hi -= 1;
    }
    text_of(v, lo, hi)
}

/// The character that writes the digit `d`.
pub fn digit_to_char(d: usize) -> (c: char)
    requires
        d < 10,
    ensures
        c == digit_char(d as nat),
{
    if d == 0 {
        '0'
    } else if d == 1 {
        '1'
    } else if d == 2 {
        '2'
    } else if d == 3 {
        '3'
    } else if d == 4 {
        '4'
    } else if d == 5 {
        '5'
    } else if d == 6 {
        '6'
    } else if d == 7 {
        '7'
    } else if d == 8 {
        '8'
    } else {
        '9'
    }
}

/// Appends the decimal numeral of `n` to `s`.
pub fn push_decimal(s: &mut String, n: usize)
    ensures
        final(s)@ == old(s)@ + decimal(n as nat),
    decreases n,
{
    if n < 10 {
        s.push(digit_to_char(n));
    } else {
        push_decimal(s, n / 10);
        s.push(digit_to_char(n % 10));
    }
}

/// The decimal numeral of `n`.
pub fn decimal_text(n: usize) -> (s: String)
    ensures
        s@ == decimal(n as nat),
{
    let mut s = String::new();
    push_decimal(&mut s, n);
    s
}

/// The canonical numeral of the number whose digits before the point are
/// `v[from..point]` and whose digits after it are `v[point + 1..to]`; where
/// `point == to` the number has no fraction.
pub fn numeral_text(v: &Vec<char>, from: usize, point: usize, to: usize) -> (s: String)
    requires
        from <= point <= to <= v.len(),
    ensures
        s@ == canonical_numeral(
            v@.subrange(from as int, point as int),
            if point < to {
                v@.subrange(point + 1, to as int)
            } else {
                Seq::<char>::empty()
            },
        ),
{
    let ghost whole = v@.subrange(from as int, point as int);
    let ghost fraction = if point < to {
        v@.subrange(point + 1, to as int)
    } else {
        Seq::<char>::empty()
    };
    let mut lo: usize = from;
    while point - lo > 1 && v[lo] == '0'
        invariant
            from <= lo <= point <= to <= v.len(),
            strip_leading_zeros(whole) == strip_leading_zeros(
                v@.subrange(lo as int, point as int),
            ),
        decreases point - lo,
    {
        assert(v@.subrange(lo as int, point as int).skip(1) =~= v@.subrange(
            lo + 1,
            point as int,
        ));
        lo += 1;
    }
    let start: usize = if point < to {
        point + 1
    } else {
        to
    };
    let mut hi: usize = to;
    while start < hi && v[hi - 1] == '0'
        invariant
            point <= start <= hi <= to <= v.len(),
            strip_trailing_zeros(fraction) == strip_trailing_zeros(
                v@.subrange(start as int, hi as int),
            ),
        decreases hi - start,
    {
        assert(v@.subrange(start as int, hi as int).drop_last() =~= v@.subrange(
            start as int,
            hi - 1,
        ));
        hi -= 1;
    }
    let mut s = text_of(v, lo, point);
    if start < hi {
        s.push('.');
        push_chars(&mut s, v, start, hi);
    }
    s
}

} // verus!
