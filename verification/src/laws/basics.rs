//! What everything else is told with: numbers and lists as text, sets, values of
//! JSON, the blank page, and the names of directories.

use vstd::prelude::*;

use crate::collections;
use crate::json;
use crate::json::JsonView;
use crate::laws::order;
use crate::laws::tables;
use crate::paths;
use crate::paths::{Creation, HomeChoice, PathFacts};
use crate::storage;
use crate::text;
use crate::text::Chars;

verus! {

/// The number that digits stand for.
pub open spec fn number_of(digits: Chars) -> int
    decreases digits.len(),
{
    if digits.len() == 0 {
        0
    } else {
        number_of(digits.drop_last()) * 10 + (digits.last() as int - '0' as int)
    }
}

/// A number is written with the digits that stand for it, without zeros in
/// front.
pub proof fn law_numbers_are_written_in_decimal(n: nat)
    ensures
        number_of(text::decimal(n)) == n,
        text::decimal(n).len() > 0,
        forall|i: int|
            0 <= i < text::decimal(n).len() ==> '0' <= #[trigger] text::decimal(n)[i] <= '9',
        n > 0 ==> text::decimal(n)[0] != '0',
    decreases n,
{
    let digits = text::decimal(n);
    if n < 10 {
        assert(digits.drop_last() =~= Seq::empty());
        assert(number_of(digits.drop_last()) == 0);
        assert(digits.last() as int == '0' as int + n);
    } else {
        law_numbers_are_written_in_decimal(n / 10);
        let front = text::decimal(n / 10);
        assert(digits.drop_last() =~= front);
        assert(digits.last() as int == '0' as int + n % 10);
        assert(digits[0] == front[0]);
        assert forall|i: int| 0 <= i < digits.len() implies '0' <= #[trigger] digits[i]
            <= '9' by {
            if i < front.len() {
                assert(digits[i] == front[i]);
            }
        }
    }
}

/// Texts are put one behind the other with the separator between them, and
/// nowhere else.
pub proof fn law_texts_are_joined_in_order(parts: Seq<Chars>, separator: Chars)
    ensures
        parts.len() == 0 ==> text::joined(parts, separator).len() == 0,
        parts.len() == 1 ==> text::joined(parts, separator) == parts[0],
        parts.len() > 1 ==> text::joined(parts, separator) == parts[0] + separator + text::joined(
            parts.skip(1),
            separator,
        ),
    decreases parts.len(),
{
    if parts.len() > 1 {
        let rest = parts.drop_last();
        law_texts_are_joined_in_order(rest, separator);
        if parts.len() == 2 {
            assert(parts.skip(1).len() == 1);
            assert(text::joined(rest, separator) == parts[0]);
            assert(text::joined(parts, separator) =~= parts[0] + separator + parts[1]);
        } else {
            let tail = parts.skip(1);
            assert(rest.skip(1) =~= tail.drop_last());
            assert(tail.last() == parts.last());
            assert(rest[0] == parts[0]);
            assert(text::joined(parts, separator) =~= parts[0] + separator + (text::joined(
                tail.drop_last(),
                separator,
            ) + separator + parts.last()));
        }
    }
}

/// What is put into a set is in it, what is taken out is not, and the others stay
/// as they were.
pub proof fn law_sets_hold_what_was_put_in(set: Seq<Chars>, x: Chars, y: Chars)
    ensures
        collections::set_with(set, x).contains(y) <==> y == x || set.contains(y),
        collections::set_without(set, x).contains(y) <==> y != x && set.contains(y),
{
    broadcast use tables::lemma_filter_holds;

    if !set.contains(x) {
        let more = set.push(x);
        assert(more[set.len() as int] == x);
        if set.contains(y) {
            let i = choose|i: int| 0 <= i < set.len() && set[i] == y;
            assert(more[i] == y);
        }
    }
}

/// A table gives back what was put under a key last, nothing under a key that
/// was taken out, and what it gave before under any other.
pub proof fn law_tables_give_back_what_was_put<W>(
    table: Seq<(Chars, W)>,
    key: Chars,
    value: W,
    other: Chars,
)
    requires
        other != key,
    ensures
        collections::lookup(collections::put(table, key, value), key) == Some(value),
        collections::lookup(collections::put(table, key, value), other) == collections::lookup(
            table,
            other,
        ),
        collections::lookup(collections::del(table, key), key) is None,
        collections::lookup(collections::del(table, key), other) == collections::lookup(
            table,
            other,
        ),
        collections::lookup(Seq::<(Chars, W)>::empty(), key) is None,
{
    tables::lemma_lookup_put(table, key, value, key);
    tables::lemma_lookup_put(table, key, value, other);
    tables::lemma_lookup_del(table, key, key);
    tables::lemma_lookup_del(table, key, other);
}

/// An object gives back what was set under a key last, and what it held under any
/// other; what is no object gives nothing. A member is read as what it is, and as
/// nothing else.
pub proof fn law_objects_give_back_what_was_set(
    object: JsonView,
    key: Chars,
    value: JsonView,
    other: Chars,
)
    requires
        object is Object,
        other != key,
    ensures
        object.with(key, value).get(key) == Some(value),
        object.with(key, value).get(other) == object.get(other),
        JsonView::object().get(key) is None,
        !(value is Object) ==> value.get(key) is None,
        object.with(key, value).get_str(key) == (match value {
            JsonView::Str(s) => Some(s),
            _ => None,
        }),
        object.with(key, value).get_u64(key) == (match value {
            JsonView::Uint(n) => Some(n),
            _ => None,
        }),
        object.with(key, value).get_bool(key) == (match value {
            JsonView::Bool(b) => Some(b),
            _ => None,
        }),
        object.with(key, value).get_array(key) == (match value {
            JsonView::Array(items) => Some(items),
            _ => None,
        }),
        object.with(key, value).flag(key) <==> value == JsonView::Bool(true),
        object.with(key, value).has(key),
        object.with(key, value).get_or_null(key) == value,
        object.get(other) is None ==> object.with(key, value).get_or_null(other) is Null,
{
}

/// Values are equal if they are the same, member by member and item by item; of
/// numbers with a point only the two zeros are equal without being written alike.
pub proof fn law_values_equal_themselves(a: Chars, b: Chars, m: u64, n: u64, value: JsonView)
    ensures
        json::equal_values(JsonView::Str(a), JsonView::Str(b)) <==> a == b,
        json::equal_values(JsonView::Uint(m), JsonView::Uint(n)) <==> m == n,
        json::equal_values(JsonView::Float(a), JsonView::Float(b)) <==> a == b || (a == "0.0"@ || a
            == "-0.0"@) && (b == "0.0"@ || b == "-0.0"@),
        json::equal_values(JsonView::Str(a), JsonView::Uint(n)) == false,
        json::equal_values(value, value),
    decreases value,
{
    match value {
        JsonView::Array(items) => {
            assert forall|i: int| 0 <= i < items.len() implies json::equal_values(
                #[trigger] items[i],
                items[i],
            ) by {
                law_values_equal_themselves(a, b, m, n, items[i]);
            }
        },
        JsonView::Object(members) => {
            assert forall|k: Chars|
                members.dom().finite() && members.contains_key(k) implies json::equal_values(
                #[trigger] members[k],
                members[k],
            ) by {
                law_values_equal_themselves(a, b, m, n, members[k]);
            }
        },
        _ => {},
    }
}

/// The blank page is answered as a whole: the length that is told is that of the
/// page in bytes, and the page stands behind the empty line.
pub proof fn law_the_blank_page_has_the_length_that_is_told()
    ensures
        ({
            let page = "<html><head><link rel=\"icon\" href=\"data:,\"></head></html>"@;
            storage::blank_response()
                == "HTTP/1.1 200 OK\r\nContent-Type: text/html\r\nContent-Length: "@
                + text::decimal(vstd::utf8::encode_utf8(page).len())
                + "\r\nConnection: close\r\n\r\n"@ + page
        }),
        storage::blank_base64() == storage::base64_text(
            vstd::utf8::encode_utf8(storage::blank_response()),
        ),
{
    text::lemma_utf8_len(storage::BLANK_PAGE@);
}

/// An empty setting counts as none; any other one is the home directory. Else it
/// is the default where that can be written to, and the fallback otherwise.
pub proof fn law_empty_settings_count_as_none<P>(
    setting: P,
    default_home: P,
    fallback: P,
    writable: bool,
)
    ensures
        paths::home_from(Some(setting), false, Some(default_home), fallback)
            == HomeChoice::Chosen(setting),
        paths::home_from(Some(setting), true, Some(default_home), fallback) == paths::home_from(
            None,
            false,
            Some(default_home),
            fallback,
        ),
        paths::home_from(None, false, Some(default_home), fallback).settled(writable) == (
        if writable {
            default_home
        } else {
            fallback
        }),
        paths::home_from(None, false, None::<P>, fallback).settled(writable) == fallback,
{
}

/// Every attempt tries a directory of its own, and a hundred are made; the first
/// has the number of the user alone. Another user's are others.
pub proof fn law_attempts_try_different_directories(uid: u32, m: u32, n: u32)
    requires
        m != n,
    ensures
        paths::fallback_path(uid, 0) == "/tmp/agent-browser-"@ + text::decimal(uid as nat),
        m > 0 ==> paths::fallback_path(uid, m) == paths::fallback_path(uid, 0) + "-"@
            + text::decimal(m as nat),
        paths::fallback_path(uid, m) != paths::fallback_path(uid, n),
        paths::fallback_path(m, 0) != paths::fallback_path(n, 0),
        paths::last_resort(uid, m) == "agent-browser-"@ + text::decimal(uid as nat) + "-"@
            + text::decimal(m as nat),
        paths::FALLBACK_ATTEMPTS == 100,
{
    reveal_strlit("-");
    let base = "/tmp/agent-browser-"@ + text::decimal(uid as nat);
    let a = text::decimal(m as nat);
    let b = text::decimal(n as nat);
    law_numbers_are_written_in_decimal(m as nat);
    law_numbers_are_written_in_decimal(n as nat);
    order::law_decimals_differ(m as nat, n as nat);
    if m > 0 && n > 0 && base + "-"@ + a == base + "-"@ + b {
        let head = base + "-"@;
        assert((head + a).skip(head.len() as int) =~= a);
        assert((head + b).skip(head.len() as int) =~= b);
    }
    if m == 0 && base == base + "-"@ + b {
        assert((base + "-"@ + b).len() > base.len());
    }
    if n == 0 && base == base + "-"@ + a {
        assert((base + "-"@ + a).len() > base.len());
    }
    let root = "/tmp/agent-browser-"@;
    if root + a == root + b {
        assert((root + a).skip(root.len() as int) =~= a);
        assert((root + b).skip(root.len() as int) =~= b);
    }
}

/// A directory is used if it was there or could be created, is a directory and no
/// link, and belongs to the user.
pub proof fn law_only_own_directories_are_used(facts: PathFacts, uid: u32)
    ensures
        !paths::owned_directory(Creation::Failed, Some(facts), uid),
        !paths::owned_directory(Creation::Created, None, uid),
        !paths::owned_directory(Creation::Existed, None, uid),
        paths::owned_directory(Creation::Created, Some(facts), uid) <==> facts.is_dir
            && !facts.is_symlink && facts.owner == uid,
        paths::owned_directory(Creation::Existed, Some(facts), uid) <==> facts.is_dir
            && !facts.is_symlink && facts.owner == uid,
{
}

/// A namespace has a state of its own below its name; without one the state is in
/// the home directory. Sessions are kept in a directory of the state.
pub proof fn law_namespaces_have_their_own_state(name: Chars)
    requires
        name.len() > 0,
    ensures
        paths::state_names(Some(name)) == seq!["namespaces"@, name, "state"@],
        paths::state_names(Some(Seq::empty())).len() == 0,
        paths::state_names(None).len() == 0,
        paths::sessions_names(Some(name)) == seq!["namespaces"@, name, "state"@, "sessions"@],
        paths::sessions_names(None) == seq!["sessions"@],
{
}

} // verus!
