//! Text helpers: every operation on strings that the rest of the crate needs,
//! specified over sequences of characters.

use vstd::prelude::*;

verus! {

/// `String::push` appends the given character to the end of the string.
pub assume_specification[ String::push ](s: &mut String, c: char)
    ensures
        final(s)@ == old(s)@.push(c),
;

/// The characters of a string, in order.
pub fn chars_of(s: &str) -> (r: Vec<char>)
    ensures
        r@ == s@,
{
    let mut r: Vec<char> = Vec::new();
    for c in it: s.chars()
        invariant
            r@ == it.seq().take(it.index() as int),
            it.seq() == s@,
    {
        r.push(c);
    }
    r
}

/// The string made of the given characters.
pub fn string_of(chars: &[char]) -> (r: String)
    ensures
        r@ == chars@,
{
    let mut r: String = String::new();
    let mut i: usize = 0;
    while i < chars.len()
        invariant
            i <= chars.len(),
            r@ == chars@.take(i as int),
        decreases chars.len() - i,
    {
        r.push(chars[i]);
        i = i + 1;
    }
    assert(chars@.take(i as int) == chars@);
    r
}

/// Whether two strings hold the same characters.
pub fn same_text(a: &str, b: &str) -> (r: bool)
    ensures
        r == (a@ == b@),
{
    let x: Vec<char> = chars_of(a);
    let y: Vec<char> = chars_of(b);
    if x.len() != y.len() {
        return false;
    }
    let mut i: usize = 0;
    while i < x.len()
        invariant
            i <= x.len(),
            x.len() == y.len(),
            x@ == a@,
            y@ == b@,
            forall|j: int| 0 <= j < i ==> x@[j] == y@[j],
        decreases x.len() - i,
    {
        if x[i] != y[i] {
            assert(a@[i as int] != b@[i as int]);
            return false;
        }
        i = i + 1;
    }
    assert(a@ =~= b@);
    true
}

/// The decimal digit `d`, as a character.
pub open spec fn digit_char(d: nat) -> char
    recommends
        d < 10,
{
    (48 + d) as char
}

/// The decimal notation of a natural number, without leading zeros.
pub open spec fn decimal(n: nat) -> Seq<char>
    decreases n,
{
    if n < 10 {
        seq![digit_char(n)]
    } else {
        decimal(n / 10).push(digit_char(n % 10))
    }
}

/// The decimal notation of a number.
pub fn decimal_text(n: u64) -> (r: String)
    ensures
        r@ == decimal(n as nat),
    decreases n,
{
    let digit: char = (48u8 + (n % 10) as u8) as char;
    if n < 10 {
        let mut r: String = String::new();
        r.push(digit);
        assert(r@ =~= seq![digit_char(n as nat)]);
        r
    } else {
        let mut r: String = decimal_text(n / 10);
        r.push(digit);
        r
    }
}

/// Whether `s` begins with `prefix`.
pub fn has_prefix(s: &str, prefix: &str) -> (r: bool)
    ensures
        r == prefix@.is_prefix_of(s@),
{
    strip_prefix(s, prefix).is_some()
}

/// What follows `prefix` in `s`, if `s` begins with it.
pub fn strip_prefix(s: &str, prefix: &str) -> (r: Option<String>)
    ensures
        r is Some <==> prefix@.is_prefix_of(s@),
        r matches Some(rest) ==> rest@ == s@.skip(prefix@.len() as int) && s@ == prefix@ + rest@,
{
    let x: Vec<char> = chars_of(s);
    let p: Vec<char> = chars_of(prefix);
    if p.len() > x.len() {
        return None;
    }
    let mut i: usize = 0;
    while i < p.len()
        invariant
            i <= p.len() <= x.len(),
            x@ == s@,
            p@ == prefix@,
            forall|j: int| 0 <= j < i ==> x@[j] == p@[j],
        decreases p.len() - i,
    {
        if x[i] != p[i] {
            assert(prefix@[i as int] != s@.subrange(0, prefix@.len() as int)[i as int]);
            return None;
        }
        i = i + 1;
    }
    assert(prefix@ =~= s@.subrange(0, prefix@.len() as int));
    let rest: &str = s.substring_char(p.len(), x.len());
    assert(s@ =~= prefix@ + rest@);
    Some(rest.to_owned())
}

/// `s` without the slashes at its end.
pub open spec fn without_trailing_slashes(s: Seq<char>) -> Seq<char>
    decreases s.len(),
{
    if s.len() > 0 && s.last() == '/' {
        without_trailing_slashes(s.drop_last())
    } else {
        s
    }
}

/// Cuts every slash off the end of `s`.
pub fn trim_trailing_slashes(s: &str) -> (r: String)
    ensures
        r@ == without_trailing_slashes(s@),
{
    let mut x: Vec<char> = chars_of(s);
    while x.len() > 0 && x[x.len() - 1] == '/'
        invariant
            without_trailing_slashes(x@) == without_trailing_slashes(s@),
        decreases x.len(),
    {
        let ghost before = x@;
        x.pop();
        assert(x@ =~= before.drop_last());
    }
    string_of(x.as_slice())
}

/// The texts in `parts`, with `sep` between each and the next.
pub open spec fn joined(parts: Seq<String>, sep: Seq<char>) -> Seq<char>
    decreases parts.len(),
{
    if parts.len() == 0 {
        Seq::empty()
    } else if parts.len() == 1 {
        parts[0]@
    } else {
        joined(parts.drop_last(), sep) + sep + parts.last()@
    }
}

/// Joins `parts` with `sep` between each and the next.
pub fn join(parts: &Vec<String>, sep: &str) -> (r: String)
    ensures
        r@ == joined(parts@, sep@),
{
    let mut r: String = String::new();
    let mut i: usize = 0;
    while i < parts.len()
        invariant
            i <= parts.len(),
            r@ == joined(parts@.take(i as int), sep@),
        decreases parts.len() - i,
    {
        if i > 0 {
            r.append(sep);
        }
        r.append(parts[i].as_str());
        assert(parts@.take(i + 1).drop_last() =~= parts@.take(i as int));
        assert(r@ =~= joined(parts@.take(i + 1), sep@));
        i = i + 1;
    }
    assert(parts@.take(i as int) =~= parts@);
    r
}

/// A copy of a list of strings.
pub fn copy_list(list: &Vec<String>) -> (r: Vec<String>)
    ensures
        r@ == list@,
{
    let mut r: Vec<String> = Vec::new();
    let mut i: usize = 0;
    while i < list.len()
        invariant
            i <= list@.len(),
            r@ == list@.take(i as int),
        decreases list@.len() - i,
    {
        r.push(list[i].clone());
        i = i + 1;
    }
    assert(list@.take(i as int) =~= list@);
    r
}

/// Whether a character is one of the ten decimal digits.
pub open spec fn is_digit(c: char) -> bool {
    '0' <= c <= '9'
}

/// The number that a sequence of decimal digits denotes.
pub open spec fn digits_value(s: Seq<char>) -> nat
    decreases s.len(),
{
    if s.len() == 0 {
        0
    } else {
        digits_value(s.drop_last()) * 10 + (s.last() as nat - 48) as nat
    }
}

/// The digits of an unsigned number: what follows the optional plus sign.
pub open spec fn after_plus(s: Seq<char>) -> Seq<char> {
    if s.len() > 0 && s[0] == '+' {
        s.skip(1)
    } else {
        s
    }
}

/// The natural number that a text denotes: an optional plus sign, then at least
/// one digit, and nothing else.
pub open spec fn unsigned_value(s: Seq<char>) -> Option<nat> {
    let digits = after_plus(s);
    if digits.len() > 0 && (forall|i: int|
        0 <= i < digits.len() ==> is_digit(#[trigger] digits[i])) {
        Some(digits_value(digits))
    } else {
        None
    }
}

/// The index that a text denotes, if it is one that a `usize` can hold.
pub open spec fn index_value(s: Seq<char>) -> Option<usize> {
    match unsigned_value(s) {
        Some(n) if n <= usize::MAX => Some(n as usize),
        _ => None,
    }
}

/// Reads a text as an index: an optional plus sign, then decimal digits.
pub fn parse_index(s: &str) -> (r: Option<usize>)
    ensures
        r == index_value(s@),
{
    let x: Vec<char> = chars_of(s);
    let start: usize = if x.len() > 0 && x[0] == '+' { 1 } else { 0 };
    let ghost digits = after_plus(s@);
    assert(digits =~= x@.skip(start as int));
    if x.len() == start {
        return None;
    }
    let mut value: usize = 0;
    let mut i: usize = start;
    let mut overflow: bool = false;
    while i < x.len()
        invariant
            start <= i <= x.len(),
            start < x.len(),
            x@ == s@,
            digits == after_plus(s@),
            digits == x@.skip(start as int),
            forall|j: int| 0 <= j < i - start ==> is_digit(#[trigger] digits[j]),
            !overflow ==> value == digits_value(digits.take(i - start)),
            overflow ==> digits_value(digits.take(i - start)) > usize::MAX,
        decreases x.len() - i,
    {
        let c: char = x[i];
        assert(digits[i - start] == c);
        if !('0' <= c && c <= '9') {
            assert(!is_digit(digits[i - start]));
            return None;
        }
        let d: usize = (c as u32 - 48) as usize;
        assert(digits.take(i + 1 - start).drop_last() =~= digits.take(i - start));
        if !overflow {
            if value > usize::MAX / 10 || value * 10 > usize::MAX - d {
                overflow = true;
            } else {
                value = value * 10 + d;
            }
        }
        i = i + 1;
    }
    assert(digits.take(i - start) =~= digits);
    if overflow {
        None
    } else {
        Some(value)
    }
}

/// The position of the first `c` in `s`, or the length of `s` if there is none.
pub open spec fn first_index(s: Seq<char>, c: char) -> nat
    decreases s.len(),
{
    if s.len() == 0 || s[0] == c {
        0
    } else {
        1 + first_index(s.skip(1), c)
    }
}

/// Before the first `c` there is none, and at its position there is one.
pub proof fn first_index_is_first(s: Seq<char>, c: char)
    ensures
        first_index(s, c) <= s.len(),
        forall|j: int| 0 <= j < first_index(s, c) ==> s[j] != c,
        first_index(s, c) < s.len() ==> s[first_index(s, c) as int] == c,
    decreases s.len(),
{
    if s.len() > 0 && s[0] != c {
        first_index_is_first(s.skip(1), c);
        assert forall|j: int| 0 <= j < first_index(s, c) implies s[j] != c by {
            if j > 0 {
                assert(s[j] == s.skip(1)[j - 1]);
            }
        }
    }
}

/// The position of the first `c`, told by what stands before it and at it.
pub proof fn first_index_is_unique(s: Seq<char>, c: char, k: int)
    requires
        0 <= k <= s.len(),
        forall|j: int| 0 <= j < k ==> s[j] != c,
        k < s.len() ==> s[k] == c,
    ensures
        first_index(s, c) == k,
{
    first_index_is_first(s, c);
}

/// Finds the first `c` among the given characters.
pub fn find_char(x: &[char], c: char) -> (r: usize)
    ensures
        r == first_index(x@, c),
        r <= x@.len(),
{
    let mut i: usize = 0;
    while i < x.len() && x[i] != c
        invariant
            i <= x@.len(),
            forall|j: int| 0 <= j < i ==> x@[j] != c,
        decreases x@.len() - i,
    {
        i = i + 1;
    }
    proof {
        first_index_is_unique(x@, c, i as int);
    }
    i
}

/// The text held by an optional string.
pub open spec fn opt_text(o: Option<String>) -> Option<Seq<char>> {
    match o {
        Some(s) => Some(s@),
        None => None,
    }
}

/// The texts of a list of strings.
pub open spec fn texts(list: Seq<String>) -> Seq<Seq<char>> {
    list.map_values(|s: String| s@)
}

} // verus!
