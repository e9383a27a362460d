//! Numbers, slashes, joined texts and the order of names.

use crate::config::last_entries;
use crate::name_map::{entries_map, in_name_order, name_before, Entry};
use crate::text::{
    after_plus, decimal, digits_value, index_value, is_digit, joined, opt_text, texts,
    unsigned_value, without_trailing_slashes,
};
use vstd::prelude::*;
use vstd::utf8::encode_utf8;

verus! {

/// A number in decimal: one below ten is its digit, and behind the digits of a
/// number another digit makes ten times that number and the digit.
pub proof fn decimals_are_written_digit_by_digit(m: nat, d: nat)
    requires
        d < 10,
    ensures
        decimal(d) == seq![('0' as nat + d) as char],
        m > 0 ==> decimal(10 * m + d) == decimal(m).push(('0' as nat + d) as char),
{
    if m > 0 {
        assert((10 * m + d) / 10 == m);
        assert((10 * m + d) % 10 == d);
    }
}

/// A position is read digit by digit: behind a position that was read another
/// digit makes ten times that and the digit, if that is still a position; and
/// nothing but a digit goes on.
pub proof fn positions_are_read_digit_by_digit(s: Seq<char>, v: usize, c: char)
    requires
        index_value(s) == Some(v),
    ensures
        '0' <= c <= '9' && v * 10 + (c as int - '0' as int) <= usize::MAX ==> index_value(s.push(c))
            == Some((v * 10 + (c as int - '0' as int)) as usize),
        !('0' <= c <= '9' && v * 10 + (c as int - '0' as int) <= usize::MAX) ==> index_value(
            s.push(c),
        ) is None,
{
    let a = after_plus(s);
    let b = after_plus(s.push(c));
    assert(b =~= a.push(c));
    assert(b.drop_last() =~= a);
    assert(digits_value(b) == digits_value(a) * 10 + (c as nat - 48) as nat);
    assert forall|i: int| 0 <= i < a.len() implies is_digit(#[trigger] b[i]) by {
        assert(b[i] == a[i]);
        assert(is_digit(a[i]));
    }
    assert(b[a.len() as int] == c);
    if is_digit(c) {
        assert(unsigned_value(s.push(c)) == Some(digits_value(b)));
    } else {
        assert(!is_digit(b[a.len() as int]));
    }
}

/// One digit is read as itself, no text as no position, and a plus sign before
/// digits is passed over.
pub proof fn positions_begin_with_a_digit(c: char, s: Seq<char>)
    ensures
        index_value(Seq::empty()) is None,
        '0' <= c <= '9' ==> index_value(seq![c]) == Some((c as int - '0' as int) as usize),
        !('0' <= c <= '9') ==> index_value(seq![c]) is None,
        s.len() > 0 && s[0] != '+' ==> index_value(seq!['+'] + s) == index_value(s),
        s.len() == 0 ==> index_value(seq!['+'] + s) is None,
        s.len() > 0 && s[0] == '+' ==> index_value(seq!['+'] + s) is None,
{
    let one = seq![c];
    assert(Seq::<char>::empty().len() == 0);
    if c != '+' {
        assert(after_plus(one) =~= one);
        assert(one.drop_last() =~= Seq::<char>::empty());
        reveal_with_fuel(digits_value, 2);
        if is_digit(c) {
            assert forall|i: int| 0 <= i < one.len() implies is_digit(#[trigger] one[i]) by {}
            assert(unsigned_value(one) == Some(digits_value(one)));
        } else {
            assert(!is_digit(one[0]));
        }
    } else {
        assert(after_plus(one).len() == 0);
    }
    let plus = seq!['+'] + s;
    assert(after_plus(plus) =~= s);
    if s.len() > 0 && s[0] == '+' {
        assert(!is_digit(s[0]));
    }
}

/// A text that is no position becomes none by what follows it, but for a lone
/// plus sign or no text at all.
pub proof fn what_is_no_position_stays_none(s: Seq<char>, c: char)
    requires
        index_value(s) is None,
        s.len() > 0,
        s != seq!['+'],
    ensures
        index_value(s.push(c)) is None,
{
    let a = after_plus(s);
    let b = after_plus(s.push(c));
    assert(b =~= a.push(c));
    assert(b.drop_last() =~= a);
    if a.len() == 0 {
        assert(s =~= seq!['+']);
    }
    if forall|i: int| 0 <= i < a.len() ==> is_digit(#[trigger] a[i]) {
        assert(digits_value(a) > usize::MAX);
        assert(digits_value(b) >= digits_value(a) * 10);
    } else {
        let i = choose|i: int| 0 <= i < a.len() && !is_digit(#[trigger] a[i]);
        assert(b[i] == a[i]);
    }
}

/// What is left when the slashes at the end of a text are cut off: a beginning of
/// it that does not end in a slash, and behind which there are only slashes.
pub proof fn trailing_slashes_are_cut_off(s: Seq<char>)
    ensures
        ({
            let r = without_trailing_slashes(s);
            &&& r.len() <= s.len()
            &&& r == s.take(r.len() as int)
            &&& r.len() > 0 ==> r.last() != '/'
            &&& forall|i: int| r.len() <= i < s.len() ==> #[trigger] s[i] == '/'
        }),
    decreases s.len(),
{
    let r = without_trailing_slashes(s);
    if s.len() > 0 && s.last() == '/' {
        let short = s.drop_last();
        trailing_slashes_are_cut_off(short);
        assert(short.take(r.len() as int) =~= s.take(r.len() as int));
        assert forall|i: int| r.len() <= i < s.len() implies #[trigger] s[i] == '/' by {
            if i < short.len() {
                assert(short[i] == s[i]);
            }
        }
    } else {
        assert(r =~= s.take(r.len() as int));
    }
}

/// Joined texts: none make no text, one makes itself, and a further one stands
/// behind those before it and the separator.
pub proof fn texts_are_joined_in_order(parts: Seq<String>, last: String, sep: Seq<char>)
    ensures
        joined(Seq::empty(), sep) == Seq::<char>::empty(),
        joined(seq![last], sep) == last@,
        parts.len() > 0 ==> joined(parts.push(last), sep) == joined(parts, sep) + sep + last@,
{
    assert(parts.push(last).drop_last() =~= parts);
}

/// The texts of a list, in its order; and of an optional text, if it is there.
pub proof fn texts_keep_their_places(list: Seq<String>, text: Option<String>)
    ensures
        texts(list).len() == list.len(),
        forall|i: int| 0 <= i < list.len() ==> #[trigger] texts(list)[i] == list[i]@,
        text is None ==> opt_text(text) is None,
        text matches Some(t) ==> opt_text(text) == Some(t@),
{
}

/// Names are ordered by their bytes, as in a dictionary: at the first byte in
/// which they differ, or where one ends first.
pub proof fn names_are_in_byte_order(a: Seq<char>, b: Seq<char>, k: int)
    requires
        0 <= k <= encode_utf8(a).len(),
        k <= encode_utf8(b).len(),
        forall|j: int| 0 <= j < k ==> encode_utf8(a)[j] == encode_utf8(b)[j],
    ensures
        k < encode_utf8(a).len() && k < encode_utf8(b).len() && encode_utf8(a)[k]
            < encode_utf8(b)[k] ==> name_before(a, b) && !name_before(b, a),
        k == encode_utf8(a).len() && k < encode_utf8(b).len() ==> name_before(a, b)
            && !name_before(b, a),
{
    let x = encode_utf8(a);
    let y = encode_utf8(b);
    if k < y.len() && (k == x.len() || x[k] < y[k]) {
        assert(crate::name_map::bytes_part_at(x, y, k));
        crate::name_map::name_order_is_total(a, b);
    }
}

/// Of entries that were written one after the other, the last with a name holds.
pub proof fn the_last_entry_of_a_name_holds<V>(entries: Seq<Entry<V>>, i: int)
    requires
        0 <= i < entries.len(),
        forall|j: int| i < j < entries.len() ==> (#[trigger] entries[j]).name@ != entries[i].name@,
    ensures
        last_entries(entries).dom().contains(entries[i].name@),
        last_entries(entries)[entries[i].name@] == entries[i].value,
    decreases entries.len(),
{
    if i < entries.len() - 1 {
        let short = entries.drop_last();
        assert(entries[entries.len() - 1].name@ != entries[i].name@);
        assert forall|j: int| i < j < short.len() implies (#[trigger] short[j]).name@
            != short[i].name@ by {
            assert(short[j] == entries[j]);
        }
        the_last_entry_of_a_name_holds(short, i);
    }
}

/// No other names are there than those of the entries.
pub proof fn only_names_of_entries_are_there<V>(entries: Seq<Entry<V>>, name: Seq<char>)
    ensures
        last_entries(entries).dom().contains(name) <==> exists|i: int|
            0 <= i < entries.len() && (#[trigger] entries[i]).name@ == name,
    decreases entries.len(),
{
    if entries.len() > 0 {
        let short = entries.drop_last();
        only_names_of_entries_are_there(short, name);
        if exists|i: int| 0 <= i < short.len() && (#[trigger] short[i]).name@ == name {
            let i = choose|i: int| 0 <= i < short.len() && (#[trigger] short[i]).name@ == name;
            assert(entries[i] == short[i]);
        }
        if exists|i: int| 0 <= i < entries.len() && (#[trigger] entries[i]).name@ == name {
            let i = choose|i: int| 0 <= i < entries.len() && (#[trigger] entries[i]).name@ == name;
            if i < short.len() {
                assert(short[i] == entries[i]);
            }
        }
    }
}

/// A map with ordered entries has the names of the entries, each with its value.
pub proof fn maps_have_their_entries<V>(entries: Seq<Entry<V>>, name: Seq<char>)
    requires
        forall|i: int, j: int|
            0 <= i < j < entries.len() ==> name_before(
                (#[trigger] entries[i]).name@,
                (#[trigger] entries[j]).name@,
            ),
    ensures
        in_name_order(entries),
        entries_map(entries).dom().contains(name) <==> exists|i: int|
            0 <= i < entries.len() && (#[trigger] entries[i]).name@ == name,
        forall|i: int|
            0 <= i < entries.len() && (#[trigger] entries[i]).name@ == name
                ==> entries_map(entries)[name] == entries[i].value,
{
    assert forall|i: int| 0 <= i < entries.len() && (#[trigger] entries[i]).name@ == name implies {
        &&& entries_map(entries).dom().contains(name)
        &&& entries_map(entries)[name] == entries[i].value
    } by {
        crate::name_map::lemma_entry_is_mapped(entries, i);
    }
    if entries_map(entries).dom().contains(name) {
        let i = choose|i: int| crate::name_map::named_at(entries, name, i);
        assert(entries[i].name@ == name);
    }
}

} // verus!
