//! Headers between a header map and the wire form of the command protocol.

use vstd::prelude::*;
use vstd::string::StringExecFns;

use crate::codec;
use crate::headers;
use crate::plugins::command;
use crate::plugins::command::failed;
use crate::plugins::PluginError;
use crate::text;
use crate::wire;
use crate::wire::WireHeaders;

verus! {

/// Whether every header value is text, in UTF-8.
pub open spec fn all_readable(held: Map<Seq<char>, Seq<Seq<u8>>>) -> bool {
    forall|name: Seq<char>| #[trigger]
        held.dom().contains(name) ==> values_readable(held[name])
}

/// Whether all of `values` are text, in UTF-8.
pub open spec fn values_readable(values: Seq<Seq<u8>>) -> bool {
    forall|i: int| 0 <= i < values.len() ==> vstd::utf8::valid_utf8(#[trigger] values[i])
}

/// Header values as text.
pub open spec fn value_texts(values: Seq<Seq<u8>>) -> Seq<Seq<char>> {
    Seq::new(values.len(), |i: int| vstd::utf8::decode_utf8(values[i]))
}

/// What a header map holds, as text.
pub open spec fn header_texts(held: Map<Seq<char>, Seq<Seq<u8>>>) -> Map<
    Seq<char>,
    Seq<Seq<char>>,
> {
    Map::new(|name: Seq<char>| held.dom().contains(name), |name: Seq<char>| value_texts(held[name]))
}

/// The failure on a header whose value is no text.
pub open spec fn unreadable_header(name: Seq<char>) -> crate::plugins::PluginErrorView {
    command::failure(
        "header "@ + name + " is not valid UTF-8: "@ + "failed to convert header to a str"@,
    )
}

/// The name of the first of `items` whose value is no text.
pub open spec fn first_unreadable(items: Seq<(Seq<char>, Seq<u8>)>) -> Option<Seq<char>>
    decreases items.len(),
{
    if items.len() == 0 {
        None
    } else if first_unreadable(items.drop_last()) is Some {
        first_unreadable(items.drop_last())
    } else if vstd::utf8::valid_utf8(items.last().1) {
        None
    } else {
        Some(items.last().0)
    }
}

/// The wire form of headers that come one by one.
pub open spec fn wire_of(items: Seq<(Seq<char>, Seq<u8>)>) -> Result<
    Map<Seq<char>, Seq<Seq<char>>>,
    crate::plugins::PluginErrorView,
> {
    match first_unreadable(items) {
        Some(name) => Err(unreadable_header(name)),
        None => Ok(header_texts(headers::gathered(items))),
    }
}

proof fn texts_after_append(
    held: Map<Seq<char>, Seq<Seq<u8>>>,
    name: Seq<char>,
    value: Seq<u8>,
)
    ensures
        header_texts(headers::appended(held, name, value)) == wire::pushed(
            header_texts(held),
            name,
            vstd::utf8::decode_utf8(value),
        ),
{
    let after = headers::appended(held, name, value);
    let pushed = wire::pushed(header_texts(held), name, vstd::utf8::decode_utf8(value));
    assert forall|n: Seq<char>| #[trigger] header_texts(after).dom().contains(n) implies header_texts(
        after,
    )[n] == pushed[n] by {
        if n == name {
            assert(value_texts(after[n]) =~= pushed[n]);
        }
    }
    assert(header_texts(after) =~= pushed);
}

/// `items` put side by side by name, unless one of them is no UTF-8.
pub fn items_to_wire(items: Vec<(String, http::HeaderValue)>) -> (r: Result<
    WireHeaders,
    PluginError,
>)
    ensures
        crate::views::outcome(r) == wire_of(headers::item_views(items@)),
{
    let mut wire = WireHeaders::new();
    let mut at: usize = 0;
    let ghost views = headers::item_views(items@);
    proof {
        assert(views.take(0) == Seq::<(Seq<char>, Seq<u8>)>::empty());
        assert(header_texts(headers::no_headers()) =~= Map::empty());
    }
    while at < items.len()
        invariant
            at <= items@.len(),
            views == headers::item_views(items@),
            wire.deep_view() == header_texts(headers::gathered(views.take(at as int))),
            first_unreadable(views.take(at as int)) is None,
        decreases items@.len() - at,
    {
        let ghost next = views.take(at + 1);
        assert(next.drop_last() == views.take(at as int));
        assert(next.last() == views[at as int]);
        let name = &items[at].0;
        match codec::utf8_text(headers::value_slice(&items[at].1)) {
            Some(value) => {
                proof {
                    texts_after_append(
                        headers::gathered(views.take(at as int)),
                        name@,
                        next.last().1,
                    );
                }
                wire.append(name.clone(), value);
            },
            None => {
                let mut message = text::join3("header ", name.as_str(), " is not valid UTF-8: ");
                message.append("failed to convert header to a str");
                proof {
                    first_unreadable_stays(views, at + 1);
                }
                return Err(failed(message));
            },
        }
        at = at + 1;
    }
    assert(views.take(at as int) == views);
    Ok(wire)
}

proof fn first_unreadable_stays(items: Seq<(Seq<char>, Seq<u8>)>, n: int)
    requires
        0 <= n <= items.len(),
        first_unreadable(items.take(n)) is Some,
    ensures
        first_unreadable(items) == first_unreadable(items.take(n)),
    decreases items.len(),
{
    if n == items.len() {
        assert(items.take(n) == items);
    } else {
        assert(items.drop_last().take(n) == items.take(n));
        first_unreadable_stays(items.drop_last(), n);
    }
}

/// Headers that come one by one are all text if and only if what they gather to is.
proof fn unreadable_items(items: Seq<(Seq<char>, Seq<u8>)>)
    ensures
        first_unreadable(items) is None <==> all_readable(headers::gathered(items)),
        first_unreadable(items) matches Some(name) ==> headers::gathered(items).dom().contains(name)
            && !values_readable(headers::gathered(items)[name]),
    decreases items.len(),
{
    if items.len() > 0 {
        let before = headers::gathered(items.drop_last());
        let after = headers::gathered(items);
        let (name, value) = items.last();
        unreadable_items(items.drop_last());
        assert(after.dom().contains(name));
        assert(after[name].last() == value);
        assert(after[name][after[name].len() - 1] == value);
        assert forall|n: Seq<char>| #[trigger] before.dom().contains(n) implies after.dom().contains(
            n,
        ) && before[n] == after[n].take(before[n].len() as int) by {
            assert(before[n] =~= after[n].take(before[n].len() as int));
        }
        assert forall|n: Seq<char>| before.dom().contains(n) && !values_readable(
            before[n],
        ) implies !values_readable(#[trigger] after[n]) by {
            let i = choose|i: int|
                0 <= i < before[n].len() && !vstd::utf8::valid_utf8(#[trigger] before[n][i]);
            assert(after[n][i] == before[n][i]);
        }
        if first_unreadable(items) is None {
            assert forall|n: Seq<char>| #[trigger] after.dom().contains(n) implies values_readable(
                after[n],
            ) by {
                assert forall|i: int| 0 <= i < after[n].len() implies vstd::utf8::valid_utf8(
                    #[trigger] after[n][i],
                ) by {
                    if before.dom().contains(n) && i < before[n].len() {
                        assert(values_readable(before[n]));
                        assert(before[n][i] == after[n][i]);
                    }
                }
            }
        }
    }
}

/// Whether `held` has the form of what a header map holds: finitely many names, each as a header
/// map keeps it, and each with a value.
pub open spec fn is_held(held: Map<Seq<char>, Seq<Seq<u8>>>) -> bool {
    &&& held.dom().finite()
    &&& forall|name: Seq<char>| #[trigger]
        held.dom().contains(name) ==> headers::is_kept_name(name) && held[name].len() > 0
}

proof fn gathered_is_held(items: Seq<(Seq<char>, Seq<u8>)>)
    requires
        forall|i: int| 0 <= i < items.len() ==> headers::is_kept_name((#[trigger] items[i]).0),
    ensures
        is_held(headers::gathered(items)),
    decreases items.len(),
{
    if items.len() > 0 {
        let rest = items.drop_last();
        assert forall|i: int| 0 <= i < rest.len() implies headers::is_kept_name(
            (#[trigger] rest[i]).0,
        ) by {
            assert(rest[i] == items[i]);
        }
        gathered_is_held(rest);
        assert(headers::is_kept_name(items[items.len() - 1].0));
    }
}

/// The wire form of `headers`, unless some value is no UTF-8.
///
/// What the wire form stands for is what `headers` holds, where `headers` has nothing that a
/// command may not return.
pub fn headers_to_wire(headers: &http::HeaderMap) -> (r: Result<WireHeaders, PluginError>)
    ensures
        r is Ok <==> all_readable(headers::contents(*headers)),
        r matches Ok(wire) ==> wire.deep_view() == header_texts(headers::contents(*headers)),
        r matches Ok(wire) ==> wire.deep_view().dom().finite() && forall|name: Seq<char>| #[trigger]
            wire.deep_view().dom().contains(name) ==> wire.deep_view()[name].len() > 0,
        r matches Ok(wire) ==> is_returnable(headers::contents(*headers)) ==> headers_of(
            wire.deep_view(),
        ) == Ok::<_, crate::plugins::PluginErrorView>(headers::contents(*headers)),
        r matches Err(error) ==> exists|name: Seq<char>| #[trigger]
            headers::contents(*headers).dom().contains(name) && !values_readable(
                headers::contents(*headers)[name],
            ) && error.deep_view() == unreadable_header(name),
        is_held(headers::contents(*headers)),
{
    let items = headers::items(headers);
    proof {
        let views = headers::item_views(items@);
        let held = headers::contents(*headers);
        unreadable_items(views);
        assert forall|i: int| 0 <= i < views.len() implies headers::is_kept_name(
            (#[trigger] views[i]).0,
        ) by {
            assert(views[i].0 == items@[i].0@);
        }
        gathered_is_held(views);
        assert(header_texts(held).dom() =~= held.dom());
        if all_readable(held) && is_returnable(held) {
            headers_round_trip(held);
        }
    }
    items_to_wire(items)
}

/// A header map by its content, or the content of the error.
pub open spec fn headers_outcome(r: Result<http::HeaderMap, PluginError>) -> Result<
    Map<Seq<char>, Seq<Seq<u8>>>,
    crate::plugins::PluginErrorView,
> {
    match r {
        Ok(held) => Ok(headers::contents(held)),
        Err(error) => Err(error.deep_view()),
    }
}

/// The failure on a header name that a command may not return.
pub open spec fn bad_name() -> crate::plugins::PluginErrorView {
    command::failure("invalid rewritten header name: "@ + "invalid HTTP header name"@)
}

/// The failure on a header value that a command may not return.
pub open spec fn bad_value() -> crate::plugins::PluginErrorView {
    command::failure("invalid rewritten header value: "@ + "failed to parse header value"@)
}

/// The failure on more header names than a header map can take.
pub open spec fn too_many_headers() -> crate::plugins::PluginErrorView {
    command::failure("too many rewritten headers: "@ + "max size reached"@)
}

/// `held` with `values` appended under `name`, up to the first that is no header value.
pub open spec fn with_values(
    held: Map<Seq<char>, Seq<Seq<u8>>>,
    name: Seq<char>,
    values: Seq<Seq<char>>,
) -> Result<Map<Seq<char>, Seq<Seq<u8>>>, crate::plugins::PluginErrorView>
    decreases values.len(),
{
    if values.len() == 0 {
        Ok(held)
    } else if !headers::is_header_value(values.first()) {
        Err(bad_value())
    } else {
        with_values(
            headers::appended(held, name, vstd::utf8::encode_utf8(values.first())),
            name,
            values.drop_first(),
        )
    }
}

/// `held` with the headers of `entries` appended, up to the first that is not valid.
pub open spec fn with_entries(
    held: Map<Seq<char>, Seq<Seq<u8>>>,
    entries: Seq<(Seq<char>, Seq<Seq<char>>)>,
) -> Result<Map<Seq<char>, Seq<Seq<u8>>>, crate::plugins::PluginErrorView>
    decreases entries.len(),
{
    if entries.len() == 0 {
        Ok(held)
    } else if !headers::is_header_name(entries.first().0) {
        Err(bad_name())
    } else {
        match with_values(held, text::ascii_lowered(entries.first().0), entries.first().1) {
            Ok(next) => with_entries(next, entries.drop_first()),
            Err(error) => Err(error),
        }
    }
}

/// The header map content that the wire form `map` stands for.
pub open spec fn headers_of(map: Map<Seq<char>, Seq<Seq<char>>>) -> Result<
    Map<Seq<char>, Seq<Seq<u8>>>,
    crate::plugins::PluginErrorView,
> {
    with_entries(headers::no_headers(), wire::in_order(map))
}

/// The names that the wire form `map` takes room for in a header map: those that have a value, in
/// lower case.
pub open spec fn names_taken(map: Map<Seq<char>, Seq<Seq<char>>>) -> Set<Seq<char>> {
    map.dom().filter(|name: Seq<char>| map[name].len() > 0).map(
        |name: Seq<char>| text::ascii_lowered(name),
    )
}

/// Whether `map` takes room for fewer names than any header map can take.
pub open spec fn is_roomy(map: Map<Seq<char>, Seq<Seq<char>>>) -> bool {
    names_taken(map).len() < headers::roomy_names()
}

/// The names of an ascending list of entries, in lower case, are the names that its map takes room
/// for.
proof fn entry_names_are_taken(entries: Seq<(Seq<char>, Seq<Seq<char>>)>)
    requires
        wire::is_ascending(entries),
    ensures
        names_taken(wire::as_map(entries)).finite(),
        forall|i: int|
            0 <= i < entries.len() && (#[trigger] entries[i]).1.len() > 0 ==> names_taken(
                wire::as_map(entries),
            ).contains(text::ascii_lowered(entries[i].0)),
{
    let map = wire::as_map(entries);
    let filled = map.dom().filter(|name: Seq<char>| map[name].len() > 0);
    wire::entries_are_finite(entries);
    map.dom().lemma_len_filter(|name: Seq<char>| map[name].len() > 0);
    filled.lemma_map_finite(|name: Seq<char>| text::ascii_lowered(name));
    assert forall|i: int| 0 <= i < entries.len() && (#[trigger] entries[i]).1.len() > 0 implies
        names_taken(map).contains(text::ascii_lowered(entries[i].0)) by {
        wire::name_stands_once(entries, i);
        assert(filled.contains(entries[i].0));
    }
}

/// Appends `values` under `name`; `room` has all the names that ever come to be there.
fn append_values(
    held: &mut http::HeaderMap,
    name: &http::HeaderName,
    values: &Vec<String>,
    Ghost(room): Ghost<Set<Seq<char>>>,
) -> (r: Result<(), PluginError>)
    requires
        room.finite(),
        headers::contents(*old(held)).dom().subset_of(room),
        values@.len() > 0 ==> room.contains(headers::name_text(*name)),
    ensures
        headers::contents(*final(held)).dom().subset_of(room),
        r is Ok ==> with_values(
            headers::contents(*old(held)),
            headers::name_text(*name),
            values.deep_view(),
        ) == Ok::<_, crate::plugins::PluginErrorView>(headers::contents(*final(held))),
        r matches Err(error) ==> with_values(
            headers::contents(*old(held)),
            headers::name_text(*name),
            values.deep_view(),
        ) == Err::<Map<Seq<char>, Seq<Seq<u8>>>, _>(error.deep_view()) || (error.deep_view()
            == too_many_headers() && room.len() >= headers::roomy_names()),
{
    let ghost start = headers::contents(*held);
    let ghost texts = values.deep_view();
    let ghost key = headers::name_text(*name);
    let mut at: usize = 0;
    assert(texts.skip(0) == texts);
    while at < values.len()
        invariant
            at <= values@.len(),
            texts == values.deep_view(),
            key == headers::name_text(*name),
            start == headers::contents(*old(held)),
            room.finite(),
            values@.len() > 0 ==> room.contains(key),
            headers::contents(*held).dom().subset_of(room),
            with_values(start, key, texts) == with_values(
                headers::contents(*held),
                key,
                texts.skip(at as int),
            ),
        decreases values@.len() - at,
    {
        assert(texts.skip(at as int).first() == texts[at as int]);
        assert(texts.skip(at as int).drop_first() == texts.skip(at + 1));
        proof {
            vstd::set_lib::lemma_len_subset(headers::contents(*held).dom(), room);
        }
        match headers::parse_value(values[at].as_str()) {
            Ok(value) => match headers::append(held, name, value) {
                Ok(_) => {},
                Err(error) => {
                    return Err(
                        failed(text::join2("too many rewritten headers: ", error.as_str())),
                    );
                },
            },
            Err(error) => {
                return Err(failed(text::join2("invalid rewritten header value: ", error.as_str())));
            },
        }
        at = at + 1;
    }
    assert(texts.skip(at as int).len() == 0);
    Ok(())
}

/// The headers that the wire form stands for, unless a name or a value is not valid.
///
/// Names are taken in ascending order. A wire form of more names with values than a header map
/// surely takes may be refused for that.
pub fn headers_from_wire(wire: WireHeaders) -> (r: Result<http::HeaderMap, PluginError>)
    ensures
        headers_outcome(r) == headers_of(wire.deep_view()) || (!is_roomy(wire.deep_view())
            && headers_outcome(r) == Err::<Map<Seq<char>, Seq<Seq<u8>>>, _>(too_many_headers())),
{
    let mut held = headers::empty_headers();
    let entries = wire.entries();
    let ghost views = entries.deep_view();
    let ghost room = names_taken(wire.deep_view());
    let mut at: usize = 0;
    proof {
        entry_names_are_taken(views);
        assert(views.skip(0) == views);
    }
    while at < entries.len()
        invariant
            at <= entries@.len(),
            views == entries.deep_view(),
            views == wire::in_order(wire.deep_view()),
            room == names_taken(wire.deep_view()),
            room.finite(),
            forall|i: int|
                0 <= i < views.len() && (#[trigger] views[i]).1.len() > 0 ==> room.contains(
                    text::ascii_lowered(views[i].0),
                ),
            headers::contents(held).dom().subset_of(room),
            with_entries(headers::no_headers(), views) == with_entries(
                headers::contents(held),
                views.skip(at as int),
            ),
        decreases entries@.len() - at,
    {
        assert(views.skip(at as int).first() == views[at as int]);
        assert(views.skip(at as int).drop_first() == views.skip(at + 1));
        match headers::parse_name(entries[at].name.as_str()) {
            Ok(name) => match append_values(&mut held, &name, &entries[at].values, Ghost(room)) {
                Ok(_) => {},
                Err(error) => return Err(error),
            },
            Err(error) => {
                return Err(failed(text::join2("invalid rewritten header name: ", error.as_str())));
            },
        }
        at = at + 1;
    }
    assert(views.skip(at as int).len() == 0);
    Ok(held)
}

/// Whether `held` has nothing that a command may not return: its names are tokens, and its values
/// have no control characters.
pub open spec fn is_returnable(held: Map<Seq<char>, Seq<Seq<u8>>>) -> bool {
    forall|name: Seq<char>| #[trigger]
        held.dom().contains(name) ==> headers::is_token(name) && values_valid(held[name])
}

/// Whether all of `values` may be header values.
pub open spec fn values_valid(values: Seq<Seq<u8>>) -> bool {
    forall|i: int| 0 <= i < values.len() ==> headers::is_value(#[trigger] values[i])
}

/// A value of visible ASCII characters may be a header value, and is read as those characters.
pub proof fn visible_values_are_text(bytes: Seq<u8>)
    requires
        headers::is_visible(bytes),
    ensures
        headers::is_value(bytes),
        vstd::utf8::valid_utf8(bytes),
        vstd::utf8::decode_utf8(bytes) == headers::ascii_text(bytes),
{
    let text = headers::ascii_text(bytes);
    assert(vstd::utf8::is_ascii_chars(text));
    vstd::utf8::is_ascii_chars_encode_utf8(text);
    assert(vstd::utf8::encode_utf8(text) =~= bytes);
    vstd::utf8::encode_utf8_valid_utf8(text);
    vstd::utf8::encode_utf8_decode_utf8(text);
}

proof fn values_are_appended(
    held: Map<Seq<char>, Seq<Seq<u8>>>,
    name: Seq<char>,
    values: Seq<Seq<u8>>,
)
    requires
        values_readable(values),
        values_valid(values),
        held.dom().contains(name),
    ensures
        with_values(held, name, value_texts(values)) == Ok::<_, crate::plugins::PluginErrorView>(
            held.insert(name, held[name] + values),
        ),
    decreases values.len(),
{
    if values.len() == 0 {
        assert(held.insert(name, held[name] + values) =~= held);
    } else {
        let rest = values.drop_first();
        vstd::utf8::decode_utf8_encode_utf8(values[0]);
        assert(value_texts(values).first() == vstd::utf8::decode_utf8(values[0]));
        assert(value_texts(values).drop_first() =~= value_texts(rest));
        assert forall|i: int| 0 <= i < rest.len() implies vstd::utf8::valid_utf8(
            #[trigger] rest[i],
        ) && headers::is_value(rest[i]) by {
            assert(rest[i] == values[i + 1]);
        }
        let next = headers::appended(held, name, values[0]);
        values_are_appended(next, name, rest);
        assert(next[name] + rest =~= held[name] + values);
        assert(next.insert(name, next[name] + rest) =~= held.insert(name, held[name] + values));
    }
}

proof fn values_are_taken(
    held: Map<Seq<char>, Seq<Seq<u8>>>,
    name: Seq<char>,
    values: Seq<Seq<u8>>,
)
    requires
        values_readable(values),
        values_valid(values),
        values.len() > 0,
        !held.dom().contains(name),
    ensures
        with_values(held, name, value_texts(values)) == Ok::<_, crate::plugins::PluginErrorView>(
            held.insert(name, values),
        ),
{
    let rest = values.drop_first();
    vstd::utf8::decode_utf8_encode_utf8(values[0]);
    assert(value_texts(values).first() == vstd::utf8::decode_utf8(values[0]));
    assert(value_texts(values).drop_first() =~= value_texts(rest));
    assert forall|i: int| 0 <= i < rest.len() implies vstd::utf8::valid_utf8(
        #[trigger] rest[i],
    ) && headers::is_value(rest[i]) by {
        assert(rest[i] == values[i + 1]);
    }
    let next = headers::appended(held, name, values[0]);
    values_are_appended(next, name, rest);
    assert(next[name] + rest =~= values);
    assert(next.insert(name, next[name] + rest) =~= held.insert(name, values));
}

/// `held` without the names of `entries`.
spec fn without(
    held: Map<Seq<char>, Seq<Seq<u8>>>,
    entries: Seq<(Seq<char>, Seq<Seq<char>>)>,
) -> Map<Seq<char>, Seq<Seq<u8>>> {
    Map::new(
        |name: Seq<char>| held.dom().contains(name) && !wire::has_name(entries, name),
        |name: Seq<char>| held[name],
    )
}

proof fn entries_are_taken(
    held: Map<Seq<char>, Seq<Seq<u8>>>,
    entries: Seq<(Seq<char>, Seq<Seq<char>>)>,
)
    requires
        is_held(held),
        is_returnable(held),
        all_readable(held),
        wire::is_ascending(entries),
        forall|i: int|
            0 <= i < entries.len() ==> held.dom().contains((#[trigger] entries[i]).0)
                && entries[i].1 == value_texts(held[entries[i].0]),
    ensures
        with_entries(without(held, entries), entries) == Ok::<_, crate::plugins::PluginErrorView>(
            held,
        ),
    decreases entries.len(),
{
    let start = without(held, entries);
    if entries.len() == 0 {
        assert(start =~= held);
    } else {
        let name = entries.first().0;
        let rest = entries.drop_first();
        assert(entries[0] == entries.first());
        wire::name_stands_once(entries, 0);
        assert forall|i: int, j: int| 0 <= i < j < rest.len() implies text::ordered_before(
            (#[trigger] rest[i]).0,
            (#[trigger] rest[j]).0,
        ) by {
            assert(rest[i] == entries[i + 1] && rest[j] == entries[j + 1]);
        }
        assert forall|i: int| 0 <= i < rest.len() implies held.dom().contains((#[trigger] rest[i]).0)
            && rest[i].1 == value_texts(held[rest[i].0]) by {
            assert(rest[i] == entries[i + 1]);
        }
        assert(!start.dom().contains(name));
        values_are_taken(start, name, held[name]);
        assert(start.insert(name, held[name]) =~= without(held, rest)) by {
            wire::other_names_stay(entries);
        }
        entries_are_taken(held, rest);
    }
}

/// Headers go through the wire form and back unchanged, where all their values are text and they
/// have nothing that a command may not return.
pub proof fn headers_round_trip(held: Map<Seq<char>, Seq<Seq<u8>>>)
    requires
        is_held(held),
        is_returnable(held),
        all_readable(held),
    ensures
        headers_of(header_texts(held)) == Ok::<_, crate::plugins::PluginErrorView>(held),
{
    let map = header_texts(held);
    assert(map.dom() =~= held.dom());
    wire::order_exists(map);
    let entries = wire::in_order(map);
    assert forall|i: int| 0 <= i < entries.len() implies held.dom().contains(
        (#[trigger] entries[i]).0,
    ) && entries[i].1 == value_texts(held[entries[i].0]) by {
        wire::name_stands_once(entries, i);
        assert(wire::as_map(entries).dom().contains(entries[i].0));
        assert(map[entries[i].0] == entries[i].1);
    }
    entries_are_taken(held, entries);
    assert forall|name: Seq<char>| held.dom().contains(name) implies wire::has_name(
        entries,
        name,
    ) by {
        assert(wire::as_map(entries).dom().contains(name));
    }
    assert(without(held, entries) =~= headers::no_headers());
}

proof fn taken_values_are_valid(
    held: Map<Seq<char>, Seq<Seq<u8>>>,
    name: Seq<char>,
    values: Seq<Seq<char>>,
)
    requires
        with_values(held, name, values) is Ok,
    ensures
        texts_valid(values),
    decreases values.len(),
{
    if values.len() > 0 {
        let rest = values.drop_first();
        taken_values_are_valid(
            headers::appended(held, name, vstd::utf8::encode_utf8(values.first())),
            name,
            rest,
        );
        assert forall|i: int| 0 <= i < values.len() implies headers::is_header_value(
            #[trigger] values[i],
        ) by {
            if i > 0 {
                assert(values[i] == rest[i - 1]);
            }
        }
    }
}

proof fn taken_entries_are_valid(
    held: Map<Seq<char>, Seq<Seq<u8>>>,
    entries: Seq<(Seq<char>, Seq<Seq<char>>)>,
)
    requires
        with_entries(held, entries) is Ok,
    ensures
        forall|i: int|
            0 <= i < entries.len() ==> headers::is_header_name((#[trigger] entries[i]).0)
                && texts_valid(entries[i].1),
    decreases entries.len(),
{
    if entries.len() > 0 {
        let rest = entries.drop_first();
        let name = text::ascii_lowered(entries.first().0);
        taken_values_are_valid(held, name, entries.first().1);
        taken_entries_are_valid(with_values(held, name, entries.first().1)->Ok_0, rest);
        assert forall|i: int| 0 <= i < entries.len() implies headers::is_header_name(
            (#[trigger] entries[i]).0,
        ) && texts_valid(entries[i].1) by {
            if i > 0 {
                assert(entries[i] == rest[i - 1]);
            }
        }
    }
}

/// Headers that have something that a command may not return do not come back.
pub proof fn only_returnable_headers_come_back(held: Map<Seq<char>, Seq<Seq<u8>>>)
    requires
        is_held(held),
        all_readable(held),
        !is_returnable(held),
    ensures
        headers_of(header_texts(held)) is Err,
{
    let map = header_texts(held);
    assert(map.dom() =~= held.dom());
    wire::order_exists(map);
    let entries = wire::in_order(map);
    if headers_of(map) is Ok {
        taken_entries_are_valid(headers::no_headers(), entries);
        assert forall|name: Seq<char>| #[trigger] held.dom().contains(name) implies headers::is_token(
            name,
        ) && values_valid(held[name]) by {
            assert(wire::as_map(entries).dom().contains(name));
            let i = choose|i: int| 0 <= i < entries.len() && (#[trigger] entries[i]).0 == name;
            wire::name_stands_once(entries, i);
            assert(map[name] == entries[i].1);
            assert forall|j: int| 0 <= j < held[name].len() implies headers::is_value(
                #[trigger] held[name][j],
            ) by {
                assert(values_readable(held[name]));
                assert(map[name][j] == vstd::utf8::decode_utf8(held[name][j]));
                assert(headers::is_header_value(entries[i].1[j]));
                vstd::utf8::decode_utf8_encode_utf8(held[name][j]);
            }
        }
    }
}

/// Whether `map` is a wire form that says everything once: valid names in lower case, each with
/// values, all of them valid.
pub open spec fn is_normal_wire(map: Map<Seq<char>, Seq<Seq<char>>>) -> bool {
    &&& map.dom().finite()
    &&& forall|name: Seq<char>| #[trigger]
        map.dom().contains(name) ==> headers::is_header_name(name) && text::ascii_lowered(name)
            == name && map[name].len() > 0 && texts_valid(map[name])
}

/// Whether all of `values` may be header values.
pub open spec fn texts_valid(values: Seq<Seq<char>>) -> bool {
    forall|i: int| 0 <= i < values.len() ==> headers::is_header_value(#[trigger] values[i])
}

/// The wire form goes through the header map and back unchanged, where it says everything once.
pub proof fn wire_round_trip(map: Map<Seq<char>, Seq<Seq<char>>>)
    requires
        is_normal_wire(map),
    ensures
        headers_of(map) matches Ok(held) && all_readable(held) && header_texts(held) == map,
{
    let held = Map::new(
        |name: Seq<char>| map.dom().contains(name),
        |name: Seq<char>|
            Seq::new(map[name].len(), |i: int| vstd::utf8::encode_utf8(map[name][i])),
    );
    assert(held.dom() =~= map.dom());
    assert forall|name: Seq<char>| #[trigger] held.dom().contains(name) implies values_readable(
        held[name],
    ) && values_valid(held[name]) && value_texts(held[name]) == map[name] by {
        assert forall|i: int| 0 <= i < held[name].len() implies vstd::utf8::valid_utf8(
            #[trigger] held[name][i],
        ) && headers::is_value(held[name][i]) && vstd::utf8::decode_utf8(held[name][i])
            == map[name][i] by {
            assert(headers::is_header_value(map[name][i]));
            vstd::utf8::encode_utf8_valid_utf8(map[name][i]);
            vstd::utf8::encode_utf8_decode_utf8(map[name][i]);
        }
        assert(value_texts(held[name]) =~= map[name]);
    }
    assert(header_texts(held) =~= map);
    headers_round_trip(held);
}

/// The wire form of text has every name with every one of its values, in their order, and no other.
pub proof fn wire_form_says_every_value(held: Map<Seq<char>, Seq<Seq<u8>>>)
    requires
        all_readable(held),
    ensures
        header_texts(held).dom() == held.dom(),
        forall|name: Seq<char>|
            held.dom().contains(name) ==> (#[trigger] header_texts(held)[name]).len()
                == held[name].len(),
        forall|name: Seq<char>, i: int|
            held.dom().contains(name) && 0 <= i < held[name].len() ==> vstd::utf8::encode_utf8(
                #[trigger] header_texts(held)[name][i],
            ) == held[name][i],
{
    assert(header_texts(held).dom() =~= held.dom());
    assert forall|name: Seq<char>, i: int| held.dom().contains(name) && 0 <= i
        < held[name].len() implies vstd::utf8::encode_utf8(#[trigger] header_texts(held)[name][i])
        == held[name][i] by {
        assert(values_readable(held[name]));
        assert(vstd::utf8::valid_utf8(held[name][i]));
        vstd::utf8::decode_utf8_encode_utf8(held[name][i]);
    }
}

/// Headers are text if and only if each value of each name is valid UTF-8.
pub proof fn headers_are_text_value_by_value(held: Map<Seq<char>, Seq<Seq<u8>>>)
    ensures
        all_readable(held) <==> forall|name: Seq<char>, i: int|
            held.dom().contains(name) && 0 <= i < held[name].len() ==> vstd::utf8::valid_utf8(
                #[trigger] held[name][i],
            ),
{
    if all_readable(held) {
        assert forall|name: Seq<char>, i: int| held.dom().contains(name) && 0 <= i
            < held[name].len() implies vstd::utf8::valid_utf8(#[trigger] held[name][i]) by {
            assert(values_readable(held[name]));
        }
    } else {
        let name = choose|name: Seq<char>| #[trigger]
            held.dom().contains(name) && !values_readable(held[name]);
        let i = choose|i: int|
            0 <= i < held[name].len() && !vstd::utf8::valid_utf8(#[trigger] held[name][i]);
        assert(!vstd::utf8::valid_utf8(held[name][i]));
    }
}

/// Of headers that come one by one the first whose value is no UTF-8 is the one that is blamed, by
/// its name.
pub proof fn first_unreadable_item_is_blamed(items: Seq<(Seq<char>, Seq<u8>)>, i: int)
    requires
        0 <= i < items.len(),
        !vstd::utf8::valid_utf8(items[i].1),
        forall|j: int| 0 <= j < i ==> vstd::utf8::valid_utf8((#[trigger] items[j]).1),
    ensures
        wire_of(items) matches Err(crate::plugins::PluginErrorView::Failed { plugin, message })
            && plugin == "command_rewrite"@ && message == "header "@ + items[i].0
            + " is not valid UTF-8: "@ + "failed to convert header to a str"@,
{
    let sound = items.take(i);
    let faulty = items.take(i + 1);
    assert forall|j: int| 0 <= j < sound.len() implies vstd::utf8::valid_utf8(
        (#[trigger] sound[j]).1,
    ) by {
        assert(sound[j] == items[j]);
    }
    readable_items_are_not_blamed(sound);
    assert(faulty.drop_last() == sound);
    assert(faulty.last() == items[i]);
    first_unreadable_stays(items, i + 1);
}

proof fn readable_items_are_not_blamed(items: Seq<(Seq<char>, Seq<u8>)>)
    requires
        forall|j: int| 0 <= j < items.len() ==> vstd::utf8::valid_utf8((#[trigger] items[j]).1),
    ensures
        first_unreadable(items) is None,
    decreases items.len(),
{
    if items.len() > 0 {
        let rest = items.drop_last();
        assert forall|j: int| 0 <= j < rest.len() implies vstd::utf8::valid_utf8(
            (#[trigger] rest[j]).1,
        ) by {
            assert(rest[j] == items[j]);
        }
        readable_items_are_not_blamed(rest);
        assert(items.last() == items[items.len() - 1]);
    }
}

/// Headers that come one by one and are all UTF-8 give a wire form.
pub proof fn readable_items_have_a_wire_form(items: Seq<(Seq<char>, Seq<u8>)>)
    requires
        forall|j: int| 0 <= j < items.len() ==> vstd::utf8::valid_utf8((#[trigger] items[j]).1),
    ensures
        wire_of(items) matches Ok(map) && map == header_texts(headers::gathered(items)),
{
    readable_items_are_not_blamed(items);
}

/// The UTF-8 bytes of `values`.
pub open spec fn text_bytes(values: Seq<Seq<char>>) -> Seq<Seq<u8>> {
    Seq::new(values.len(), |i: int| vstd::utf8::encode_utf8(values[i]))
}

/// The values that `entries` have under names whose lower case is `name`, one entry after another.
pub open spec fn values_meant(
    entries: Seq<(Seq<char>, Seq<Seq<char>>)>,
    name: Seq<char>,
) -> Seq<Seq<u8>>
    decreases entries.len(),
{
    if entries.len() == 0 {
        Seq::empty()
    } else {
        let rest = values_meant(entries.drop_first(), name);
        if text::ascii_lowered(entries[0].0) == name {
            text_bytes(entries[0].1) + rest
        } else {
            rest
        }
    }
}

proof fn values_are_added(
    held: Map<Seq<char>, Seq<Seq<u8>>>,
    name: Seq<char>,
    values: Seq<Seq<char>>,
)
    requires
        texts_valid(values),
    ensures
        with_values(held, name, values) matches Ok(after) && headers::values_under(after, name)
            == headers::values_under(held, name) + text_bytes(values) && after.dom() == (
        if values.len() == 0 {
            held.dom()
        } else {
            held.dom().insert(name)
        }) && forall|other: Seq<char>|
            other != name ==> #[trigger] headers::values_under(after, other)
                == headers::values_under(held, other),
    decreases values.len(),
{
    if values.len() == 0 {
        assert(headers::values_under(held, name) + text_bytes(values) =~= headers::values_under(
            held,
            name,
        ));
    } else {
        let rest = values.drop_first();
        let bytes = vstd::utf8::encode_utf8(values[0]);
        let next = headers::appended(held, name, bytes);
        assert(headers::is_header_value(values[0]));
        assert forall|i: int| 0 <= i < rest.len() implies headers::is_header_value(
            #[trigger] rest[i],
        ) by {
            assert(rest[i] == values[i + 1]);
        }
        values_are_added(next, name, rest);
        let after = with_values(next, name, rest)->Ok_0;
        assert(headers::values_under(next, name) =~= headers::values_under(held, name).push(bytes));
        assert(text_bytes(values) =~= seq![bytes] + text_bytes(rest));
        assert(headers::values_under(after, name) =~= headers::values_under(held, name)
            + text_bytes(values));
        assert(after.dom() =~= held.dom().insert(name));
        assert forall|other: Seq<char>| other != name implies #[trigger] headers::values_under(
            after,
            other,
        ) == headers::values_under(held, other) by {
            assert(headers::values_under(next, other) == headers::values_under(held, other));
        }
    }
}

/// Whether the names and values of `entries` are all valid.
pub open spec fn entries_valid(entries: Seq<(Seq<char>, Seq<Seq<char>>)>) -> bool {
    forall|i: int|
        0 <= i < entries.len() ==> headers::is_header_name((#[trigger] entries[i]).0) && texts_valid(
            entries[i].1,
        )
}

proof fn entries_are_added(
    held: Map<Seq<char>, Seq<Seq<u8>>>,
    entries: Seq<(Seq<char>, Seq<Seq<char>>)>,
)
    requires
        entries_valid(entries),
        forall|name: Seq<char>| #[trigger]
            held.dom().contains(name) ==> held[name].len() > 0,
    ensures
        with_entries(held, entries) matches Ok(after) && (forall|name: Seq<char>| #[trigger]
            headers::values_under(after, name) == headers::values_under(held, name) + values_meant(
                entries,
                name,
            )) && (forall|name: Seq<char>| #[trigger]
            after.dom().contains(name) ==> after[name].len() > 0),
    decreases entries.len(),
{
    if entries.len() == 0 {
        assert forall|name: Seq<char>| #[trigger] headers::values_under(held, name)
            == headers::values_under(held, name) + values_meant(entries, name) by {
            assert(headers::values_under(held, name) + values_meant(entries, name)
                =~= headers::values_under(held, name));
        }
    } else {
        let rest = entries.drop_first();
        let key = text::ascii_lowered(entries[0].0);
        assert forall|i: int| 0 <= i < rest.len() implies headers::is_header_name(
            (#[trigger] rest[i]).0,
        ) && texts_valid(rest[i].1) by {
            assert(rest[i] == entries[i + 1]);
        }
        assert(headers::is_header_name(entries[0].0) && texts_valid(entries[0].1));
        values_are_added(held, key, entries[0].1);
        let next = with_values(held, key, entries[0].1)->Ok_0;
        assert forall|name: Seq<char>| #[trigger] next.dom().contains(name) implies next[name].len()
            > 0 by {
            assert(headers::values_under(next, name) == next[name]);
            if name == key {
                assert(next[name] == headers::values_under(held, key) + text_bytes(entries[0].1));
                if entries[0].1.len() == 0 {
                    assert(held.dom().contains(name));
                }
            } else {
                assert(headers::values_under(held, name) == next[name]);
                assert(held.dom().contains(name));
            }
        }
        entries_are_added(next, rest);
        let after = with_entries(next, rest)->Ok_0;
        assert forall|name: Seq<char>| #[trigger] headers::values_under(after, name)
            == headers::values_under(held, name) + values_meant(entries, name) by {
            assert(headers::values_under(after, name) == headers::values_under(next, name)
                + values_meant(rest, name));
            assert(headers::values_under(after, name) =~= headers::values_under(held, name)
                + values_meant(entries, name));
        }
    }
}

/// Headers that a command returns are taken if and only if all their names and values are valid.
/// They then give every value under its name in lower case, in ascending order of the names as they
/// were returned, and nothing else.
pub proof fn returned_headers_are_taken_as_they_are(map: Map<Seq<char>, Seq<Seq<char>>>)
    requires
        map.dom().finite(),
    ensures
        headers_of(map) is Ok <==> entries_valid(wire::in_order(map)),
        headers_of(map) matches Ok(held) ==> forall|name: Seq<char>| #[trigger]
            headers::values_under(held, name) == values_meant(wire::in_order(map), name),
        headers_of(map) matches Ok(held) ==> forall|name: Seq<char>| #[trigger]
            held.dom().contains(name) ==> held[name].len() > 0,
{
    let entries = wire::in_order(map);
    if headers_of(map) is Ok {
        taken_entries_are_valid(headers::no_headers(), entries);
    }
    if entries_valid(entries) {
        entries_are_added(headers::no_headers(), entries);
        let held = headers_of(map)->Ok_0;
        assert forall|name: Seq<char>| #[trigger] headers::values_under(held, name)
            == values_meant(entries, name) by {
            assert(headers::values_under(headers::no_headers(), name) + values_meant(entries, name)
                =~= values_meant(entries, name));
        }
    }
}

/// The first returned name that is not valid, or the first value of a name before it, is what is
/// blamed.
pub proof fn first_faulty_entry_is_blamed(
    held: Map<Seq<char>, Seq<Seq<u8>>>,
    entries: Seq<(Seq<char>, Seq<Seq<char>>)>,
    i: int,
)
    requires
        0 <= i < entries.len(),
        entries_valid(entries.take(i)),
        !headers::is_header_name(entries[i].0) || !texts_valid(entries[i].1),
    ensures
        with_entries(held, entries) matches Err(
            crate::plugins::PluginErrorView::Failed { plugin, message },
        ) && plugin == "command_rewrite"@ && message == (if !headers::is_header_name(entries[i].0) {
            "invalid rewritten header name: "@ + "invalid HTTP header name"@
        } else {
            "invalid rewritten header value: "@ + "failed to parse header value"@
        }),
    decreases i,
{
    if i == 0 {
        if headers::is_header_name(entries[0].0) {
            invalid_values_are_blamed(held, text::ascii_lowered(entries[0].0), entries[0].1);
        }
    } else {
        let rest = entries.drop_first();
        let key = text::ascii_lowered(entries[0].0);
        assert(entries.take(i)[0] == entries[0]);
        values_are_added(held, key, entries[0].1);
        assert(rest.take(i - 1) =~= entries.take(i).drop_first());
        assert forall|j: int| 0 <= j < i - 1 implies headers::is_header_name(
            (#[trigger] rest.take(i - 1)[j]).0,
        ) && texts_valid(rest.take(i - 1)[j].1) by {
            assert(rest.take(i - 1)[j] == entries.take(i)[j + 1]);
        }
        assert(rest[i - 1] == entries[i]);
        first_faulty_entry_is_blamed(with_values(held, key, entries[0].1)->Ok_0, rest, i - 1);
    }
}

proof fn invalid_values_are_blamed(
    held: Map<Seq<char>, Seq<Seq<u8>>>,
    name: Seq<char>,
    values: Seq<Seq<char>>,
)
    requires
        !texts_valid(values),
    ensures
        with_values(held, name, values) == Err::<Map<Seq<char>, Seq<Seq<u8>>>, _>(bad_value()),
    decreases values.len(),
{
    if headers::is_header_value(values.first()) {
        let rest = values.drop_first();
        let i = choose|i: int|
            0 <= i < values.len() && !headers::is_header_value(#[trigger] values[i]);
        assert(rest[i - 1] == values[i]);
        invalid_values_are_blamed(
            headers::appended(held, name, vstd::utf8::encode_utf8(values.first())),
            name,
            rest,
        );
    }
}

} // verus!
