//! Maps from names to values, kept in the order of the names.

use vstd::prelude::*;
use vstd::string::StringSliceAdditionalSpecFns;
use vstd::utf8::encode_utf8;

verus! {

/// `a` comes before `b` because they part at position `k`: up to there they
/// agree, and there `a` has ended or has the smaller byte.
pub open spec fn bytes_part_at(a: Seq<u8>, b: Seq<u8>, k: int) -> bool {
    &&& 0 <= k <= a.len()
    &&& k < b.len()
    &&& forall|j: int| 0 <= j < k ==> a[j] == b[j]
    &&& k == a.len() || a[k] < b[k]
}

/// Lexicographic order of byte sequences.
pub open spec fn bytes_before(a: Seq<u8>, b: Seq<u8>) -> bool {
    exists|k: int| bytes_part_at(a, b, k)
}

/// The order of names: that of their UTF-8 bytes.
pub open spec fn name_before(a: Seq<char>, b: Seq<char>) -> bool {
    bytes_before(encode_utf8(a), encode_utf8(b))
}

proof fn lemma_bytes_before_transitive(a: Seq<u8>, b: Seq<u8>, c: Seq<u8>)
    requires
        bytes_before(a, b),
        bytes_before(b, c),
    ensures
        bytes_before(a, c),
{
    let k = choose|k: int| bytes_part_at(a, b, k);
    let m = choose|m: int| bytes_part_at(b, c, m);
    if k <= m {
        assert(bytes_part_at(a, c, k));
    } else {
        assert(bytes_part_at(a, c, m));
    }
}

proof fn lemma_bytes_before_from(a: Seq<u8>, b: Seq<u8>, k: int)
    requires
        0 <= k <= a.len(),
        k <= b.len(),
        forall|j: int| 0 <= j < k ==> a[j] == b[j],
    ensures
        bytes_before(a, b) || bytes_before(b, a) || a == b,
    decreases a.len() - k,
{
    if k == a.len() && k == b.len() {
        assert(a =~= b);
    } else if k == a.len() {
        assert(bytes_part_at(a, b, k));
    } else if k == b.len() {
        assert(bytes_part_at(b, a, k));
    } else if a[k] < b[k] {
        assert(bytes_part_at(a, b, k));
    } else if b[k] < a[k] {
        assert(bytes_part_at(b, a, k));
    } else {
        lemma_bytes_before_from(a, b, k + 1);
    }
}

/// Distinct names have distinct bytes.
proof fn lemma_same_bytes_same_name(a: Seq<char>, b: Seq<char>)
    requires
        encode_utf8(a) == encode_utf8(b),
    ensures
        a == b,
{
    vstd::utf8::encode_utf8_decode_utf8(a);
    vstd::utf8::encode_utf8_decode_utf8(b);
}

/// The order of names is transitive.
pub proof fn name_order_is_transitive(a: Seq<char>, b: Seq<char>, c: Seq<char>)
    requires
        name_before(a, b),
        name_before(b, c),
    ensures
        name_before(a, c),
{
    lemma_bytes_before_transitive(encode_utf8(a), encode_utf8(b), encode_utf8(c));
}

/// Of two names exactly one of three things holds: the first comes before the
/// second, the second comes before the first, or they are the same.
pub proof fn name_order_is_total(a: Seq<char>, b: Seq<char>)
    ensures
        name_before(a, b) || name_before(b, a) || a == b,
        !(name_before(a, b) && name_before(b, a)),
        a == b ==> !name_before(a, b),
{
    let x = encode_utf8(a);
    let y = encode_utf8(b);
    lemma_bytes_before_from(x, y, 0);
    if x == y {
        lemma_same_bytes_same_name(a, b);
    }
    if bytes_before(x, y) && bytes_before(y, x) {
        let k = choose|k: int| bytes_part_at(x, y, k);
        let m = choose|m: int| bytes_part_at(y, x, m);
        assert(k <= m || m <= k);
        assert(false);
    }
}

/// Whether the name `a` comes before the name `b`.
fn is_before(a: &str, b: &str) -> (r: bool)
    ensures
        r == name_before(a@, b@),
{
    let x: &[u8] = a.as_bytes();
    let y: &[u8] = b.as_bytes();
    let mut k: usize = 0;
    while k < x.len() && k < y.len() && x[k] == y[k]
        invariant
            k <= x.len(),
            k <= y.len(),
            forall|j: int| 0 <= j < k ==> x@[j] == y@[j],
        decreases x.len() - k,
    {
        k = k + 1;
    }
    proof {
        assert(x@ == encode_utf8(a@));
        assert(y@ == encode_utf8(b@));
        name_order_is_total(a@, b@);
    }
    if k == x.len() {
        if k < y.len() {
            assert(bytes_part_at(x@, y@, k as int));
            true
        } else {
            assert(x@ =~= y@);
            false
        }
    } else if k == y.len() {
        assert(bytes_part_at(y@, x@, k as int));
        false
    } else if x[k] < y[k] {
        assert(bytes_part_at(x@, y@, k as int));
        true
    } else {
        assert(bytes_part_at(y@, x@, k as int));
        false
    }
}

/// A name with the value that belongs to it.
#[derive(Debug, Clone, PartialEq, Eq)]
pub struct Entry<V> {
    pub name: String,
    pub value: V,
}

/// Whether the entries stand in the order of their names, none twice.
pub open spec fn in_name_order<V>(entries: Seq<Entry<V>>) -> bool {
    forall|i: int, j: int|
        0 <= i < j < entries.len() ==> name_before(
            (#[trigger] entries[i]).name@,
            (#[trigger] entries[j]).name@,
        )
}

/// Whether the entry at position `i` has the name `name`.
pub open spec fn named_at<V>(entries: Seq<Entry<V>>, name: Seq<char>, i: int) -> bool {
    0 <= i < entries.len() && entries[i].name@ == name
}

/// What a sequence of entries maps each name to.
pub open spec fn entries_map<V>(entries: Seq<Entry<V>>) -> Map<Seq<char>, V> {
    Map::new(
        |name: Seq<char>| exists|i: int| named_at(entries, name, i),
        |name: Seq<char>| entries[choose|i: int| named_at(entries, name, i)].value,
    )
}

/// In entries that stand in name order, each name belongs to one position.
pub proof fn lemma_entry_is_mapped<V>(entries: Seq<Entry<V>>, i: int)
    requires
        in_name_order(entries),
        0 <= i < entries.len(),
    ensures
        entries_map(entries).dom().contains(entries[i].name@),
        entries_map(entries)[entries[i].name@] == entries[i].value,
{
    let name = entries[i].name@;
    assert(named_at(entries, name, i));
    let j = choose|j: int| named_at(entries, name, j);
    name_order_is_total(entries[i].name@, entries[j].name@);
    if i < j {
        assert(name_before(entries[i].name@, entries[j].name@));
    } else if j < i {
        assert(name_before(entries[j].name@, entries[i].name@));
    }
}

/// Whether `after` is `before` with `entry` put in at position `i`: in place of
/// the entry of that name that stands there, or between its neighbours.
spec fn is_placed<V>(
    before: Seq<Entry<V>>,
    after: Seq<Entry<V>>,
    i: int,
    found: bool,
    entry: Entry<V>,
) -> bool {
    &&& 0 <= i <= before.len()
    &&& forall|j: int| 0 <= j < i ==> name_before((#[trigger] before[j]).name@, entry.name@)
    &&& if found {
        named_at(before, entry.name@, i) && after == before.update(i, entry)
    } else {
        &&& forall|j: int|
            i <= j < before.len() ==> name_before(entry.name@, (#[trigger] before[j]).name@)
        &&& after == before.insert(i, entry)
    }
}

proof fn lemma_placed_in_order<V>(
    before: Seq<Entry<V>>,
    after: Seq<Entry<V>>,
    i: int,
    found: bool,
    entry: Entry<V>,
)
    requires
        in_name_order(before),
        is_placed(before, after, i, found, entry),
    ensures
        in_name_order(after),
{
    assert forall|a: int, b: int| 0 <= a < b < after.len() implies name_before(
        (#[trigger] after[a]).name@,
        (#[trigger] after[b]).name@,
    ) by {
        if found {
            assert(name_before(before[a].name@, before[b].name@));
        } else {
            let a0 = if a < i {
                a
            } else {
                a - 1
            };
            let b0 = if b < i {
                b
            } else {
                b - 1
            };
            if a == i {
                assert(after[b] == before[b0]);
            } else if b == i {
                assert(after[a] == before[a0]);
            } else {
                assert(after[a] == before[a0] && after[b] == before[b0]);
                assert(name_before(before[a0].name@, before[b0].name@));
            }
        }
    }
}

proof fn lemma_placed_names<V>(
    before: Seq<Entry<V>>,
    after: Seq<Entry<V>>,
    i: int,
    found: bool,
    entry: Entry<V>,
    name: Seq<char>,
)
    requires
        is_placed(before, after, i, found, entry),
    ensures
        entries_map(after).dom().contains(name) <==> name == entry.name@ || entries_map(
            before,
        ).dom().contains(name),
{
    if exists|j: int| named_at(after, name, j) {
        let j = choose|j: int| named_at(after, name, j);
        if j != i {
            let j0 = if found || j < i {
                j
            } else {
                j - 1
            };
            assert(after[j] == before[j0]);
            assert(named_at(before, name, j0));
        }
    }
    if name == entry.name@ {
        assert(named_at(after, name, i));
    } else if exists|j: int| named_at(before, name, j) {
        let j = choose|j: int| named_at(before, name, j);
        let j1 = if found || j < i {
            j
        } else {
            j + 1
        };
        assert(after[j1] == before[j]);
        assert(named_at(after, name, j1));
    }
}

proof fn lemma_placed_value<V>(
    before: Seq<Entry<V>>,
    after: Seq<Entry<V>>,
    i: int,
    found: bool,
    entry: Entry<V>,
    name: Seq<char>,
)
    requires
        in_name_order(before),
        in_name_order(after),
        is_placed(before, after, i, found, entry),
        entries_map(after).dom().contains(name),
    ensures
        entries_map(after)[name] == if name == entry.name@ {
            entry.value
        } else {
            entries_map(before)[name]
        },
{
    let j = choose|j: int| named_at(after, name, j);
    assert(named_at(after, name, j));
    lemma_entry_is_mapped(after, j);
    lemma_entry_is_mapped(after, i);
    if name != entry.name@ {
        let j0 = if found || j < i {
            j
        } else {
            j - 1
        };
        assert(before[j0] == after[j]);
        lemma_entry_is_mapped(before, j0);
    }
}

/// Putting an entry in its place among ordered entries keeps them ordered, and
/// maps its name to its value.
proof fn lemma_placed<V>(
    before: Seq<Entry<V>>,
    after: Seq<Entry<V>>,
    i: int,
    found: bool,
    entry: Entry<V>,
)
    requires
        in_name_order(before),
        is_placed(before, after, i, found, entry),
    ensures
        in_name_order(after),
        entries_map(after) == entries_map(before).insert(entry.name@, entry.value),
{
    lemma_placed_in_order(before, after, i, found, entry);
    let m = entries_map(after);
    let n = entries_map(before).insert(entry.name@, entry.value);
    assert forall|name: Seq<char>| m.dom().contains(name) == n.dom().contains(name) by {
        lemma_placed_names(before, after, i, found, entry, name);
    }
    assert(m.dom() =~= n.dom());
    assert forall|name: Seq<char>| m.dom().contains(name) implies m[name] == n[name] by {
        lemma_placed_value(before, after, i, found, entry, name);
    }
    assert(m =~= n);
}

/// Ordered entries map what the entries before the last one do, and the last
/// one's name to its value.
pub proof fn last_entry_is_inserted<V>(entries: Seq<Entry<V>>)
    requires
        in_name_order(entries),
        entries.len() > 0,
    ensures
        in_name_order(entries.drop_last()),
        entries_map(entries) == entries_map(entries.drop_last()).insert(
            entries.last().name@,
            entries.last().value,
        ),
{
    let before = entries.drop_last();
    assert forall|i: int, j: int| 0 <= i < j < before.len() implies name_before(
        (#[trigger] before[i]).name@,
        (#[trigger] before[j]).name@,
    ) by {
        assert(before[i] == entries[i] && before[j] == entries[j]);
    }
    assert forall|j: int| 0 <= j < before.len() implies name_before(
        (#[trigger] before[j]).name@,
        entries.last().name@,
    ) by {
        assert(before[j] == entries[j]);
    }
    assert(entries =~= before.insert(before.len() as int, entries.last()));
    lemma_placed(before, entries, before.len() as int, false, entries.last());
}

/// There are as many names as entries.
proof fn lemma_entries_count<V>(entries: Seq<Entry<V>>)
    requires
        in_name_order(entries),
    ensures
        entries_map(entries).dom().finite(),
        entries_map(entries).dom().len() == entries.len(),
    decreases entries.len(),
{
    if entries.len() == 0 {
        assert(entries_map(entries).dom() =~= Set::<Seq<char>>::empty());
    } else {
        let rest = entries.drop_last();
        let name = entries.last().name@;
        assert forall|i: int, j: int| 0 <= i < j < rest.len() implies name_before(
            (#[trigger] rest[i]).name@,
            (#[trigger] rest[j]).name@,
        ) by {
            assert(rest[i] == entries[i] && rest[j] == entries[j]);
        }
        lemma_entries_count(rest);
        assert forall|k: Seq<char>| entries_map(entries).dom().contains(k)
            == entries_map(rest).dom().insert(name).contains(k) by {
            if entries_map(entries).dom().contains(k) {
                let j = choose|j: int| named_at(entries, k, j);
                if j < rest.len() {
                    assert(named_at(rest, k, j));
                }
            }
            if entries_map(rest).dom().contains(k) {
                let j = choose|j: int| named_at(rest, k, j);
                assert(named_at(entries, k, j));
            }
            if k == name {
                assert(named_at(entries, k, entries.len() - 1));
            }
        }
        assert(entries_map(entries).dom() =~= entries_map(rest).dom().insert(name));
        if entries_map(rest).dom().contains(name) {
            let j = choose|j: int| named_at(rest, name, j);
            assert(name_before(entries[j].name@, entries.last().name@));
            name_order_is_total(entries[j].name@, name);
        }
    }
}

/// A map from names to values. Each name occurs once, and the entries stand in
/// the order of the names.
#[derive(Debug, PartialEq, Eq)]
pub struct NameMap<V> {
    entries: Vec<Entry<V>>,
}

impl<V> View for NameMap<V> {
    type V = Map<Seq<char>, V>;

    closed spec fn view(&self) -> Map<Seq<char>, V> {
        entries_map(self.entries@)
    }
}

impl<V> NameMap<V> {
    #[verifier::type_invariant]
    spec fn entries_in_order(self) -> bool {
        in_name_order(self.entries@)
    }

    /// The map without entries.
    pub fn new() -> (r: Self)
        ensures
            r@ == Map::<Seq<char>, V>::empty(),
    {
        let r = NameMap { entries: Vec::new() };
        assert(r@ =~= Map::<Seq<char>, V>::empty());
        r
    }

    /// The position of `name`, or the one at which it would have to stand.
    fn position(&self, name: &str) -> (r: (usize, bool))
        ensures
            r.0 <= self.entries@.len(),
            forall|j: int| 0 <= j < r.0 ==> name_before((#[trigger] self.entries@[j]).name@, name@),
            r.1 ==> named_at(self.entries@, name@, r.0 as int),
            !r.1 ==> forall|j: int|
                r.0 <= j < self.entries@.len() ==> name_before(
                    name@,
                    (#[trigger] self.entries@[j]).name@,
                ),
    {
        proof {
            use_type_invariant(self);
        }
        let mut i: usize = 0;
        while i < self.entries.len() && is_before(self.entries[i].name.as_str(), name)
            invariant
                i <= self.entries@.len(),
                forall|j: int|
                    0 <= j < i ==> name_before((#[trigger] self.entries@[j]).name@, name@),
            decreases self.entries@.len() - i,
        {
            i = i + 1;
        }
        if i == self.entries.len() {
            return (i, false);
        }
        proof {
            name_order_is_total(self.entries@[i as int].name@, name@);
        }
        if is_before(name, self.entries[i].name.as_str()) {
            assert forall|j: int| i <= j < self.entries@.len() implies name_before(
                name@,
                (#[trigger] self.entries@[j]).name@,
            ) by {
                if j > i {
                    name_order_is_transitive(
                        name@,
                        self.entries@[i as int].name@,
                        self.entries@[j].name@,
                    );
                }
            }
            (i, false)
        } else {
            (i, true)
        }
    }

    /// The value that belongs to `name`.
    pub fn get(&self, name: &str) -> (r: Option<&V>)
        ensures
            r is Some <==> self@.dom().contains(name@),
            r matches Some(v) ==> *v == self@[name@],
    {
        proof {
            use_type_invariant(self);
        }
        let (i, found) = self.position(name);
        if found {
            proof {
                lemma_entry_is_mapped(self.entries@, i as int);
            }
            Some(&self.entries[i].value)
        } else {
            proof {
                assert forall|j: int| !named_at(self.entries@, name@, j) by {
                    if 0 <= j < self.entries@.len() {
                        name_order_is_total(self.entries@[j].name@, name@);
                    }
                }
            }
            None
        }
    }

    /// Makes `value` the value of `name`, in place of any that it had.
    pub fn insert(&mut self, name: String, value: V)
        ensures
            final(self)@ == old(self)@.insert(name@, value),
    {
        proof {
            use_type_invariant(&*self);
        }
        let (i, found) = self.position(name.as_str());
        let ghost before = self.entries@;
        let entry = Entry { name, value };
        let ghost placed = entry;
        let mut entries: Vec<Entry<V>> = Vec::new();
        std::mem::swap(&mut entries, &mut self.entries);
        if found {
            entries.set(i, entry);
        } else {
            entries.insert(i, entry);
        }
        proof {
            lemma_placed(before, entries@, i as int, found, placed);
        }
        self.entries = entries;
    }

    /// The number of names.
    pub fn len(&self) -> (r: usize)
        ensures
            self@.dom().finite(),
            r == self@.dom().len(),
    {
        proof {
            use_type_invariant(self);
            lemma_entries_count(self.entries@);
        }
        self.entries.len()
    }

    /// Whether there is no name.
    pub fn is_empty(&self) -> (r: bool)
        ensures
            r == (self@ == Map::<Seq<char>, V>::empty()),
    {
        proof {
            use_type_invariant(self);
            if self.entries@.len() > 0 {
                lemma_entry_is_mapped(self.entries@, 0);
            } else {
                assert(self@ =~= Map::<Seq<char>, V>::empty());
            }
        }
        self.entries.len() == 0
    }

    /// The names with their values, in the order of the names.
    pub fn entries(&self) -> (r: &Vec<Entry<V>>)
        ensures
            in_name_order(r@),
            entries_map(r@) == self@,
    {
        proof {
            use_type_invariant(self);
        }
        &self.entries
    }
}

impl<V: Clone> Clone for NameMap<V> {
    fn clone(&self) -> (r: Self)
        ensures
            r@.dom() == self@.dom(),
            forall|name: Seq<char>| #[trigger]
                r@.dom().contains(name) ==> cloned(self@[name], r@[name]),
    {
        proof {
            use_type_invariant(self);
        }
        let mut entries: Vec<Entry<V>> = Vec::new();
        let mut i: usize = 0;
        while i < self.entries.len()
            invariant
                i <= self.entries@.len(),
                entries@.len() == i,
                forall|j: int|
                    0 <= j < i ==> (#[trigger] entries@[j]).name == self.entries@[j].name && cloned(
                        self.entries@[j].value,
                        entries@[j].value,
                    ),
            decreases self.entries@.len() - i,
        {
            entries.push(
                Entry {
                    name: self.entries[i].name.clone(),
                    value: self.entries[i].value.clone(),
                },
            );
            i = i + 1;
        }
        assert(in_name_order(entries@)) by {
            assert forall|a: int, b: int| 0 <= a < b < entries@.len() implies name_before(
                (#[trigger] entries@[a]).name@,
                (#[trigger] entries@[b]).name@,
            ) by {
                assert(name_before(self.entries@[a].name@, self.entries@[b].name@));
            }
        }
        let r = NameMap { entries };
        proof {
            let x = self.entries@;
            let y = r.entries@;
            assert forall|name: Seq<char>| r@.dom().contains(name) == self@.dom().contains(
                name,
            ) by {
                if r@.dom().contains(name) {
                    let j = choose|j: int| named_at(y, name, j);
                    assert(named_at(x, name, j));
                }
                if self@.dom().contains(name) {
                    let j = choose|j: int| named_at(x, name, j);
                    assert(named_at(y, name, j));
                }
            }
            assert(r@.dom() =~= self@.dom());
            assert forall|name: Seq<char>| #[trigger] r@.dom().contains(name) implies cloned(
                self@[name],
                r@[name],
            ) by {
                let j = choose|j: int| named_at(y, name, j);
                lemma_entry_is_mapped(x, j);
                lemma_entry_is_mapped(y, j);
            }
        }
        r
    }
}

} // verus!
