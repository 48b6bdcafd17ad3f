//! Headers as the command protocol writes them: a map from name to values, ordered by name.

use vstd::prelude::*;

use crate::text;

verus! {

/// One header name with its values.
#[derive(Debug)]
pub struct WireHeader {
    pub name: String,
    pub values: Vec<String>,
}

impl DeepView for WireHeader {
    type V = (Seq<char>, Seq<Seq<char>>);

    open spec fn deep_view(&self) -> (Seq<char>, Seq<Seq<char>>) {
        (self.name@, self.values.deep_view())
    }
}

/// Header names, each once and in ascending order, with their values.
#[derive(Debug)]
pub struct WireHeaders {
    entries: Vec<WireHeader>,
}

impl DeepView for WireHeaders {
    type V = Map<Seq<char>, Seq<Seq<char>>>;

    closed spec fn deep_view(&self) -> Map<Seq<char>, Seq<Seq<char>>> {
        as_map(self.entries.deep_view())
    }
}

/// Whether the names of `entries` ascend strictly.
pub open spec fn is_ascending(entries: Seq<(Seq<char>, Seq<Seq<char>>)>) -> bool {
    forall|i: int, j: int|
        0 <= i < j < entries.len() ==> text::ordered_before(
            (#[trigger] entries[i]).0,
            (#[trigger] entries[j]).0,
        )
}

/// Whether `entries` has `name`.
pub open spec fn has_name(entries: Seq<(Seq<char>, Seq<Seq<char>>)>, name: Seq<char>) -> bool {
    exists|i: int| 0 <= i < entries.len() && (#[trigger] entries[i]).0 == name
}

/// The values that `entries` has under `name`.
pub open spec fn values_of(
    entries: Seq<(Seq<char>, Seq<Seq<char>>)>,
    name: Seq<char>,
) -> Seq<Seq<char>> {
    entries[choose|i: int| 0 <= i < entries.len() && (#[trigger] entries[i]).0 == name].1
}

/// The map that `entries` stand for.
pub open spec fn as_map(entries: Seq<(Seq<char>, Seq<Seq<char>>)>) -> Map<
    Seq<char>,
    Seq<Seq<char>>,
> {
    Map::new(|name: Seq<char>| has_name(entries, name), |name: Seq<char>| values_of(entries, name))
}

/// Whether `entries` are the names and values of `map`, in ascending order.
pub open spec fn is_order_of(
    entries: Seq<(Seq<char>, Seq<Seq<char>>)>,
    map: Map<Seq<char>, Seq<Seq<char>>>,
) -> bool {
    is_ascending(entries) && as_map(entries) == map
}

/// The names and values of `map`, in ascending order of the names.
pub open spec fn in_order(map: Map<Seq<char>, Seq<Seq<char>>>) -> Seq<
    (Seq<char>, Seq<Seq<char>>),
> {
    choose|entries: Seq<(Seq<char>, Seq<Seq<char>>)>| is_order_of(entries, map)
}

/// `held` with one more value under `name`, behind those that are there.
pub open spec fn pushed(
    held: Map<Seq<char>, Seq<Seq<char>>>,
    name: Seq<char>,
    value: Seq<char>,
) -> Map<Seq<char>, Seq<Seq<char>>> {
    if held.dom().contains(name) {
        held.insert(name, held[name].push(value))
    } else {
        held.insert(name, seq![value])
    }
}

proof fn not_before_itself(a: Seq<char>)
    ensures
        !text::ordered_before(a, a),
    decreases a.len(),
{
    if a.len() > 0 {
        not_before_itself(a.drop_first());
    }
}

proof fn before_is_transitive(a: Seq<char>, b: Seq<char>, c: Seq<char>)
    requires
        text::ordered_before(a, b),
        text::ordered_before(b, c),
    ensures
        text::ordered_before(a, c),
    decreases a.len(),
{
    if a.len() > 0 && a.first() == b.first() && b.first() == c.first() {
        before_is_transitive(a.drop_first(), b.drop_first(), c.drop_first());
    }
}

proof fn before_is_total(a: Seq<char>, b: Seq<char>)
    ensures
        a == b || text::ordered_before(a, b) || text::ordered_before(b, a),
    decreases a.len(),
{
    if a.len() == 0 || b.len() == 0 {
        assert(a.len() == 0 && b.len() == 0 ==> a == b);
    } else if a.first() == b.first() {
        before_is_total(a.drop_first(), b.drop_first());
        if a.drop_first() == b.drop_first() {
            assert(a == seq![a.first()] + a.drop_first());
            assert(b == seq![b.first()] + b.drop_first());
        }
    }
}

/// In ascending entries a name stands at one place only.
pub proof fn name_stands_once(entries: Seq<(Seq<char>, Seq<Seq<char>>)>, i: int)
    requires
        is_ascending(entries),
        0 <= i < entries.len(),
    ensures
        values_of(entries, entries[i].0) == entries[i].1,
        has_name(entries, entries[i].0),
{
    let name = entries[i].0;
    let j = choose|j: int| 0 <= j < entries.len() && (#[trigger] entries[j]).0 == name;
    not_before_itself(name);
    assert(i == j) by {
        if i < j {
            assert(text::ordered_before(entries[i].0, entries[j].0));
        } else if j < i {
            assert(text::ordered_before(entries[j].0, entries[i].0));
        }
    }
}

/// Taking the first of ascending entries away takes its name away, and no other.
pub proof fn other_names_stay(entries: Seq<(Seq<char>, Seq<Seq<char>>)>)
    requires
        is_ascending(entries),
        entries.len() > 0,
    ensures
        forall|name: Seq<char>| #[trigger]
            has_name(entries.drop_first(), name) <==> has_name(entries, name) && name
                != entries[0].0,
{
    let rest = entries.drop_first();
    not_before_itself(entries[0].0);
    assert forall|name: Seq<char>| #[trigger] has_name(rest, name) <==> has_name(entries, name)
        && name != entries[0].0 by {
        if has_name(rest, name) {
            let i = choose|i: int| 0 <= i < rest.len() && (#[trigger] rest[i]).0 == name;
            assert(entries[i + 1].0 == name);
            assert(text::ordered_before(entries[0].0, entries[i + 1].0));
        }
        if has_name(entries, name) && name != entries[0].0 {
            let i = choose|i: int| 0 <= i < entries.len() && (#[trigger] entries[i]).0 == name;
            assert(rest[i - 1].0 == name);
        }
    }
}

/// Two ascending lists of entries that stand for the same map are the same list.
pub proof fn ascending_entries_are_canonical(
    a: Seq<(Seq<char>, Seq<Seq<char>>)>,
    b: Seq<(Seq<char>, Seq<Seq<char>>)>,
)
    requires
        is_ascending(a),
        is_ascending(b),
        as_map(a) == as_map(b),
    ensures
        a == b,
    decreases a.len(),
{
    if a.len() == 0 {
        if b.len() > 0 {
            name_stands_once(b, 0);
            assert(as_map(b).dom().contains(b[0].0));
            assert(has_name(a, b[0].0));
        }
    } else {
        name_stands_once(a, a.len() - 1);
        assert(as_map(a).dom().contains(a.last().0));
        assert(has_name(b, a.last().0));
        name_stands_once(b, b.len() - 1);
        assert(as_map(b).dom().contains(b.last().0));
        assert(has_name(a, b.last().0));
        let i = choose|i: int| 0 <= i < a.len() && (#[trigger] a[i]).0 == b.last().0;
        let j = choose|j: int| 0 <= j < b.len() && (#[trigger] b[j]).0 == a.last().0;
        assert(a.last().0 == b.last().0) by {
            if i < a.len() - 1 && j < b.len() - 1 {
                assert(text::ordered_before(a[i].0, a[a.len() - 1].0));
                assert(text::ordered_before(b[j].0, b[b.len() - 1].0));
                before_is_transitive(a.last().0, b.last().0, a.last().0);
                not_before_itself(a.last().0);
            }
        }
        assert(a.last().1 == b.last().1) by {
            assert(as_map(a)[a.last().0] == as_map(b)[a.last().0]);
        }
        map_without_last(a);
        map_without_last(b);
        ascending_entries_are_canonical(a.drop_last(), b.drop_last());
        assert(a == a.drop_last().push(a.last()));
        assert(b == b.drop_last().push(b.last()));
    }
}

/// A list of entries stands for a finite map.
pub proof fn entries_are_finite(entries: Seq<(Seq<char>, Seq<Seq<char>>)>)
    ensures
        as_map(entries).dom().finite(),
{
    let names = Seq::new(entries.len(), |i: int| entries[i].0);
    vstd::seq_lib::seq_to_set_is_finite(names);
    assert forall|name: Seq<char>| as_map(entries).dom().contains(
        name,
    ) implies names.to_set().contains(name) by {
        let i = choose|i: int| 0 <= i < entries.len() && (#[trigger] entries[i]).0 == name;
        assert(names[i] == name);
    }
    vstd::set_lib::lemma_set_subset_finite(names.to_set(), as_map(entries).dom());
}

/// The ascending order of a map is the one list that has it.
pub proof fn order_is_unique(
    entries: Seq<(Seq<char>, Seq<Seq<char>>)>,
    map: Map<Seq<char>, Seq<Seq<char>>>,
)
    requires
        is_order_of(entries, map),
    ensures
        in_order(map) == entries,
{
    ascending_entries_are_canonical(in_order(map), entries);
}

/// Every finite map has an ascending order.
pub proof fn order_exists(map: Map<Seq<char>, Seq<Seq<char>>>)
    requires
        map.dom().finite(),
    ensures
        is_order_of(in_order(map), map),
    decreases map.dom().len(),
{
    if map.dom().len() == 0 {
        let none = Seq::<(Seq<char>, Seq<Seq<char>>)>::empty();
        assert(map.dom() =~= Set::empty());
        assert(as_map(none) =~= map);
        assert(is_order_of(none, map));
    } else {
        let name = map.dom().choose();
        let rest = map.remove(name);
        order_exists(rest);
        let entries = in_order(rest);
        let at = first_place(entries, name);
        if at < entries.len() {
            before_is_total(name, entries[at].0);
            name_stands_once(entries, at);
            assert(as_map(entries).dom().contains(entries[at].0));
        }
        map_after_insert(entries, at, name, map[name]);
        assert(rest.insert(name, map[name]) =~= map);
        assert(is_order_of(entries.insert(at, (name, map[name])), map));
    }
}

/// The first place whose name does not come before `name`.
proof fn first_place(entries: Seq<(Seq<char>, Seq<Seq<char>>)>, name: Seq<char>) -> (at: int)
    ensures
        0 <= at <= entries.len(),
        forall|i: int| 0 <= i < at ==> text::ordered_before((#[trigger] entries[i]).0, name),
        at < entries.len() ==> !text::ordered_before(entries[at].0, name),
    decreases entries.len(),
{
    if entries.len() == 0 {
        0
    } else {
        let at = first_place(entries.drop_last(), name);
        if at < entries.len() - 1 || !text::ordered_before(entries.last().0, name) {
            assert forall|i: int| 0 <= i < at implies text::ordered_before(
                (#[trigger] entries[i]).0,
                name,
            ) by {
                assert(entries.drop_last()[i] == entries[i]);
            }
            at
        } else {
            assert forall|i: int| 0 <= i < at + 1 implies text::ordered_before(
                (#[trigger] entries[i]).0,
                name,
            ) by {
                if i < at {
                    assert(entries.drop_last()[i] == entries[i]);
                }
            }
            at + 1
        }
    }
}

proof fn map_without_last(entries: Seq<(Seq<char>, Seq<Seq<char>>)>)
    requires
        is_ascending(entries),
        entries.len() > 0,
    ensures
        is_ascending(entries.drop_last()),
        as_map(entries.drop_last()) == as_map(entries).remove(entries.last().0),
{
    let rest = entries.drop_last();
    let last = entries.len() - 1;
    assert forall|i: int, j: int| 0 <= i < j < rest.len() implies text::ordered_before(
        (#[trigger] rest[i]).0,
        (#[trigger] rest[j]).0,
    ) by {
        assert(rest[i] == entries[i] && rest[j] == entries[j]);
    }
    not_before_itself(entries.last().0);
    assert forall|name: Seq<char>| has_name(rest, name) == (has_name(entries, name) && name
        != entries.last().0) by {
        if has_name(rest, name) {
            let i = choose|i: int| 0 <= i < rest.len() && (#[trigger] rest[i]).0 == name;
            assert(entries[i].0 == name);
            assert(text::ordered_before(entries[i].0, entries[last].0));
        }
        if has_name(entries, name) && name != entries.last().0 {
            let i = choose|i: int| 0 <= i < entries.len() && (#[trigger] entries[i]).0 == name;
            assert(rest[i].0 == name);
        }
    }
    assert forall|name: Seq<char>| has_name(rest, name) implies values_of(rest, name) == values_of(
        entries,
        name,
    ) by {
        let i = choose|i: int| 0 <= i < rest.len() && (#[trigger] rest[i]).0 == name;
        name_stands_once(rest, i);
        assert(rest[i] == entries[i]);
        name_stands_once(entries, i);
    }
    assert(as_map(rest) =~= as_map(entries).remove(entries.last().0));
}

/// Setting the values of a name that is there sets them in the map.
proof fn map_after_update(
    entries: Seq<(Seq<char>, Seq<Seq<char>>)>,
    at: int,
    values: Seq<Seq<char>>,
)
    requires
        is_ascending(entries),
        0 <= at < entries.len(),
    ensures
        is_ascending(entries.update(at, (entries[at].0, values))),
        as_map(entries.update(at, (entries[at].0, values))) == as_map(entries).insert(
            entries[at].0,
            values,
        ),
{
    let new = entries.update(at, (entries[at].0, values));
    assert forall|i: int| 0 <= i < new.len() implies (#[trigger] new[i]).0 == entries[i].0 by {}
    assert(is_ascending(new)) by {
        assert forall|i: int, j: int| 0 <= i < j < new.len() implies text::ordered_before(
            (#[trigger] new[i]).0,
            (#[trigger] new[j]).0,
        ) by {
            assert(text::ordered_before(entries[i].0, entries[j].0));
        }
    }
    name_stands_once(entries, at);
    assert forall|name: Seq<char>| has_name(new, name) == has_name(entries, name) by {
        if has_name(new, name) {
            let i = choose|i: int| 0 <= i < new.len() && (#[trigger] new[i]).0 == name;
            assert(entries[i].0 == name);
        }
        if has_name(entries, name) {
            let i = choose|i: int| 0 <= i < entries.len() && (#[trigger] entries[i]).0 == name;
            assert(new[i].0 == name);
        }
    }
    assert forall|name: Seq<char>| has_name(new, name) implies values_of(new, name) == as_map(
        entries,
    ).insert(entries[at].0, values)[name] by {
        let i = choose|i: int| 0 <= i < new.len() && (#[trigger] new[i]).0 == name;
        name_stands_once(new, i);
        name_stands_once(entries, i);
        name_stands_once(new, at);
    }
    assert(as_map(new) =~= as_map(entries).insert(entries[at].0, values));
}

/// Putting a new name where it belongs adds it to the map.
proof fn map_after_insert(
    entries: Seq<(Seq<char>, Seq<Seq<char>>)>,
    at: int,
    name: Seq<char>,
    values: Seq<Seq<char>>,
)
    requires
        is_ascending(entries),
        0 <= at <= entries.len(),
        forall|i: int| 0 <= i < at ==> text::ordered_before((#[trigger] entries[i]).0, name),
        at < entries.len() ==> text::ordered_before(name, entries[at].0),
    ensures
        is_ascending(entries.insert(at, (name, values))),
        as_map(entries.insert(at, (name, values))) == as_map(entries).insert(name, values),
        !has_name(entries, name),
{
    let new = entries.insert(at, (name, values));
    assert forall|i: int| at <= i < entries.len() implies text::ordered_before(
        name,
        (#[trigger] entries[i]).0,
    ) by {
        if i > at {
            assert(text::ordered_before(entries[at].0, entries[i].0));
            before_is_transitive(name, entries[at].0, entries[i].0);
        }
    }
    not_before_itself(name);
    assert forall|i: int, j: int| 0 <= i < j < new.len() implies text::ordered_before(
        (#[trigger] new[i]).0,
        (#[trigger] new[j]).0,
    ) by {
        let from = if i < at { i } else { i - 1 };
        let to = if j < at { j } else { j - 1 };
        if i == at {
            assert(new[j] == entries[to]);
        } else if j == at {
            assert(new[i] == entries[from]);
        } else {
            assert(new[i] == entries[from] && new[j] == entries[to]);
        }
    }
    assert forall|n: Seq<char>| has_name(new, n) == (has_name(entries, n) || n == name) by {
        if has_name(new, n) {
            let i = choose|i: int| 0 <= i < new.len() && (#[trigger] new[i]).0 == n;
            if i < at {
                assert(entries[i].0 == n);
            } else if i > at {
                assert(entries[i - 1].0 == n);
            }
        }
        if has_name(entries, n) {
            let i = choose|i: int| 0 <= i < entries.len() && (#[trigger] entries[i]).0 == n;
            if i < at {
                assert(new[i].0 == n);
            } else {
                assert(new[i + 1].0 == n);
            }
        }
        assert(new[at].0 == name);
    }
    assert forall|n: Seq<char>| has_name(new, n) implies values_of(new, n) == as_map(
        entries,
    ).insert(name, values)[n] by {
        let i = choose|i: int| 0 <= i < new.len() && (#[trigger] new[i]).0 == n;
        name_stands_once(new, i);
        if i < at {
            assert(new[i] == entries[i]);
            name_stands_once(entries, i);
        } else if i > at {
            assert(new[i] == entries[i - 1]);
            name_stands_once(entries, i - 1);
        }
    }
    assert(as_map(new) =~= as_map(entries).insert(name, values));
}

impl WireHeaders {
    /// Names ascend strictly.
    #[verifier::type_invariant]
    closed spec fn valid(&self) -> bool {
        is_ascending(self.entries.deep_view())
    }

    /// No headers.
    pub fn new() -> (r: Self)
        ensures
            r.deep_view() == Map::<Seq<char>, Seq<Seq<char>>>::empty(),
    {
        let entries: Vec<WireHeader> = Vec::new();
        assert(as_map(entries.deep_view()) =~= Map::empty());
        WireHeaders { entries }
    }

    /// The names with their values, in ascending order of the names.
    pub fn entries(&self) -> (r: &Vec<WireHeader>)
        ensures
            is_order_of(r.deep_view(), self.deep_view()),
            r.deep_view() == in_order(self.deep_view()),
    {
        proof {
            use_type_invariant(self);
            order_is_unique(self.entries.deep_view(), self.deep_view());
        }
        &self.entries
    }

    /// The first place whose name does not come before `name`.
    fn place(entries: &Vec<WireHeader>, name: &str) -> (at: usize)
        requires
            is_ascending(entries.deep_view()),
        ensures
            at <= entries@.len(),
            forall|i: int|
                0 <= i < at ==> text::ordered_before((#[trigger] entries.deep_view()[i]).0, name@),
            at < entries@.len() ==> !text::ordered_before(entries.deep_view()[at as int].0, name@),
    {
        let mut from: usize = 0;
        let mut to: usize = entries.len();
        while from < to
            invariant
                is_ascending(entries.deep_view()),
                from <= to <= entries@.len(),
                forall|i: int|
                    0 <= i < from ==> text::ordered_before(
                        (#[trigger] entries.deep_view()[i]).0,
                        name@,
                    ),
                to < entries@.len() ==> !text::ordered_before(
                    entries.deep_view()[to as int].0,
                    name@,
                ),
            decreases to - from,
        {
            let middle: usize = from + (to - from) / 2;
            let ghost views = entries.deep_view();
            assert(views[middle as int].0 == entries@[middle as int].name@);
            if text::precedes(entries[middle].name.as_str(), name) {
                assert forall|i: int| 0 <= i < middle + 1 implies text::ordered_before(
                    (#[trigger] views[i]).0,
                    name@,
                ) by {
                    if i < middle {
                        assert(text::ordered_before(views[i].0, views[middle as int].0));
                        before_is_transitive(views[i].0, views[middle as int].0, name@);
                    }
                }
                from = middle + 1;
            } else {
                to = middle;
            }
        }
        from
    }

    /// Adds a value behind those that `name` has.
    pub fn append(&mut self, name: String, value: String)
        ensures
            final(self).deep_view() == pushed(old(self).deep_view(), name@, value@),
    {
        proof {
            use_type_invariant(&*self);
        }
        let mut entries: Vec<WireHeader> = Vec::new();
        std::mem::swap(&mut entries, &mut self.entries);
        let ghost before = entries.deep_view();
        let at: usize = Self::place(&entries, name.as_str());
        if at < entries.len() && entries[at].name == name {
            let mut entry = entries.remove(at);
            let ghost values = entry.values.deep_view();
            entry.values.push(value);
            assert(entry.values.deep_view() =~= values.push(value@));
            entries.insert(at, entry);
            proof {
                name_stands_once(before, at as int);
                map_after_update(before, at as int, values.push(value@));
                assert(entries.deep_view() =~= before.update(
                    at as int,
                    (before[at as int].0, values.push(value@)),
                ));
            }
        } else {
            let mut values: Vec<String> = Vec::new();
            values.push(value);
            assert(values.deep_view() =~= seq![value@]);
            proof {
                if at < before.len() {
                    before_is_total(name@, before[at as int].0);
                }
                map_after_insert(before, at as int, name@, seq![value@]);
            }
            entries.insert(at, WireHeader { name, values });
            assert(entries.deep_view() =~= before.insert(at as int, (name@, seq![value@])));
        }
        self.entries = entries;
    }

    /// Sets the values of `name`.
    pub fn insert(&mut self, name: String, values: Vec<String>)
        ensures
            final(self).deep_view() == old(self).deep_view().insert(name@, values.deep_view()),
    {
        proof {
            use_type_invariant(&*self);
        }
        let mut entries: Vec<WireHeader> = Vec::new();
        std::mem::swap(&mut entries, &mut self.entries);
        let ghost before = entries.deep_view();
        let at: usize = Self::place(&entries, name.as_str());
        if at < entries.len() && entries[at].name == name {
            let _previous = entries.remove(at);
            entries.insert(at, WireHeader { name, values });
            proof {
                map_after_update(before, at as int, values.deep_view());
                assert(entries.deep_view() =~= before.update(
                    at as int,
                    (before[at as int].0, values.deep_view()),
                ));
            }
        } else {
            proof {
                if at < before.len() {
                    before_is_total(name@, before[at as int].0);
                }
                map_after_insert(before, at as int, name@, values.deep_view());
            }
            entries.insert(at, WireHeader { name, values });
            assert(entries.deep_view() =~= before.insert(
                at as int,
                (name@, values.deep_view()),
            ));
        }
        self.entries = entries;
    }
}

/// Appending a value puts it behind the values of its name, and touches no other name.
pub proof fn pushed_values_come_last(
    held: Map<Seq<char>, Seq<Seq<char>>>,
    name: Seq<char>,
    value: Seq<char>,
)
    ensures
        pushed(held, name, value).dom() == held.dom().insert(name),
        pushed(held, name, value)[name].len() > 0,
        pushed(held, name, value)[name].last() == value,
        held.dom().contains(name) ==> pushed(held, name, value)[name].drop_last() == held[name],
        !held.dom().contains(name) ==> pushed(held, name, value)[name].len() == 1,
        forall|other: Seq<char>|
            other != name && held.dom().contains(other) ==> #[trigger] pushed(
                held,
                name,
                value,
            )[other] == held[other],
{
    assert(pushed(held, name, value).dom() =~= held.dom().insert(name));
    if held.dom().contains(name) {
        assert(pushed(held, name, value)[name].drop_last() =~= held[name]);
    }
}

} // verus!
