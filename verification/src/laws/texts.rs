//! Texts, numbers in print, and the collecting of results.

use vstd::prelude::*;
use vstd::utf8::encode_utf8;

use crate::error::{Error, ErrorModel};
use crate::model::{collected, law_collected, models, outcome, outcomes};
use crate::name_map::{ascending, named};
use crate::text::{
    decimal, falls_behind_at, joined, law_text_order_irreflexive,
    law_text_order_transitive, replaced, text_before,
};

verus! {

/// The decimal of a number below ten is its digit, and that of any other number is the
/// decimal of its tens with the digit of its ones behind it.
pub proof fn law_decimal_digits(tens: nat, ones: nat)
    requires
        ones < 10,
    ensures
        decimal(ones) == seq![('0' as int + ones) as char],
        tens > 0 ==> decimal(10 * tens + ones) == decimal(tens).push(
            ('0' as int + ones) as char,
        ),
{
    if tens > 0 {
        let n = 10 * tens + ones;
        assert(n / 10 == tens && n % 10 == ones);
    }
}

/// Joining nothing gives nothing, joining one part gives that part, and joining two lists
/// of parts gives both joined texts with the separator between them.
pub proof fn law_joined(
    first: Seq<Seq<char>>,
    second: Seq<Seq<char>>,
    part: Seq<char>,
    separator: Seq<char>,
)
    ensures
        joined(seq![], separator).len() == 0,
        joined(seq![part], separator) == part,
        first.len() > 0 && second.len() > 0 ==> joined(first + second, separator) == joined(
            first,
            separator,
        ) + separator + joined(second, separator),
    decreases second.len(),
{
    if first.len() > 0 && second.len() > 0 {
        let all = first + second;
        assert(all.drop_last() =~= first + second.drop_last());
        assert(all.last() == second.last());
        if second.len() == 1 {
            assert(all.drop_last() =~= first);
            assert(second[0] == second.last());
        } else {
            law_joined(first, second.drop_last(), part, separator);
            let front = joined(second.drop_last(), separator);
            assert(joined(first, separator) + separator + front + separator + second.last()
                =~= joined(first, separator) + separator + (front + separator + second.last()));
        }
    }
}

/// A text in which a pattern does not occur is not changed by replacing it.
pub proof fn law_replaced_nothing(text: Seq<char>, pattern: Seq<char>, with: Seq<char>)
    requires
        forall|i: int|
            0 <= i <= text.len() - pattern.len() ==> #[trigger] text.subrange(
                i,
                i + pattern.len(),
            ) != pattern,
    ensures
        replaced(text, pattern, with) == text,
    decreases text.len(),
{
    if pattern.len() > 0 && text.len() >= pattern.len() {
        let rest = text.skip(1);
        assert(text.take(pattern.len() as int) =~= text.subrange(0, 0int + pattern.len()));
        assert forall|i: int| 0 <= i <= rest.len() - pattern.len() implies #[trigger] rest.subrange(
            i,
            i + pattern.len(),
        ) != pattern by {
            assert(rest.subrange(i, i + pattern.len()) =~= text.subrange(
                i + 1,
                (i + 1) + pattern.len(),
            ));
        }
        law_replaced_nothing(rest, pattern, with);
        assert(text.take(1) + rest =~= text);
    }
}

/// The first occurrence of a pattern is replaced, and behind it the text is replaced on.
pub proof fn law_replaced_first(
    before: Seq<char>,
    pattern: Seq<char>,
    after: Seq<char>,
    with: Seq<char>,
)
    requires
        pattern.len() > 0,
        forall|i: int|
            0 <= i < before.len() ==> #[trigger] (before + pattern + after).subrange(
                i,
                i + pattern.len(),
            ) != pattern,
    ensures
        replaced(before + pattern + after, pattern, with) == before + with + replaced(
            after,
            pattern,
            with,
        ),
    decreases before.len(),
{
    let text = before + pattern + after;
    let width = pattern.len() as int;
    if before.len() == 0 {
        assert(text.take(width) =~= pattern);
        assert(text.skip(width) =~= after);
        assert(before + with =~= with);
    } else {
        let rest = before.skip(1);
        assert(text.take(width) =~= text.subrange(0, 0 + width));
        assert(text.skip(1) =~= rest + pattern + after);
        assert forall|i: int| 0 <= i < rest.len() implies #[trigger] (rest + pattern
            + after).subrange(i, i + pattern.len()) != pattern by {
            assert((rest + pattern + after).subrange(i, i + width) =~= text.subrange(
                i + 1,
                (i + 1) + width,
            ));
        }
        law_replaced_first(rest, pattern, after, with);
        assert(text.take(1) + (rest + with + replaced(after, pattern, with)) =~= before + with
            + replaced(after, pattern, with));
    }
}

/// Texts are ordered by the first byte in which they differ; a text comes before any longer
/// one that starts with it.
pub proof fn law_text_order_by_first_difference(
    a: Seq<char>,
    b: Seq<char>,
    common: Seq<u8>,
    x: u8,
    y: u8,
    left: Seq<u8>,
    right: Seq<u8>,
)
    requires
        encode_utf8(b) == common.push(y) + right,
    ensures
        encode_utf8(a) == common.push(x) + left && x < y ==> text_before(a, b) && !text_before(
            b,
            a,
        ),
        encode_utf8(a) == common ==> text_before(a, b) && !text_before(b, a),
{
    let (p, q) = (encode_utf8(a), encode_utf8(b));
    let at = common.len() as int;
    assert(q[at] == y);
    if p == common.push(x) + left && x < y {
        assert(p[at] == x);
        assert(forall|j: int| 0 <= j < at ==> p[j] == common[j] && q[j] == common[j]);
        assert(falls_behind_at(p, q, at));
    }
    if p == common {
        assert(forall|j: int| 0 <= j < at ==> p[j] == q[j]);
        assert(falls_behind_at(p, q, at));
    }
    if text_before(a, b) && text_before(b, a) {
        law_text_order_transitive(a, b, a);
        law_text_order_irreflexive(a);
    }
}

/// Of ascending entries each comes before all that follow it, and the names of entries are
/// the names that they hold, one for one.
pub proof fn law_entries<T>(entries: Seq<(String, T)>, i: int, j: int)
    requires
        0 <= i < j < entries.len(),
    ensures
        named(entries).len() == entries.len(),
        named(entries)[i].0 == entries[i].0@,
        named(entries)[i].1 == entries[i].1,
        named(entries)[j].0 == entries[j].0@,
        named(entries)[j].1 == entries[j].1,
        ascending(named(entries)) ==> text_before(entries[i].0@, entries[j].0@),
{
    assert(named(entries)[i].0 == entries[i].0@);
    assert(named(entries)[j].0 == entries[j].0@);
}

/// The models of values are one for each value, in their order.
pub proof fn law_models<T: View>(values: Seq<T>)
    ensures
        models(values).len() == values.len(),
        forall|i: int| 0 <= i < values.len() ==> #[trigger] models(values)[i] == values[i]@,
{
}

/// The model of an outcome is that of the value or that of the error.
pub proof fn law_outcomes<T: View>(value: T, values: Vec<T>, error: Error)
    ensures
        outcome::<T>(Ok(value)) == Ok::<T::V, ErrorModel>(value@),
        outcome::<T>(Err(error)) == Err::<T::V, ErrorModel>(error@),
        outcomes::<T>(Err(error)) == Err::<Seq<T::V>, ErrorModel>(error@),
        outcomes::<T>(Ok(values)) matches Ok(listed) && listed.len() == values@.len() && forall|
            i: int,
        |
            0 <= i < listed.len() ==> #[trigger] listed[i] == values@[i]@,
{
}

/// Results that are all values are collected one for one; else the first error is.
pub proof fn law_collected_whole<M>(results: Seq<Result<M, ErrorModel>>, first: int)
    ensures
        (forall|i: int| 0 <= i < results.len() ==> #[trigger] results[i] is Ok) ==> (collected(
            results,
        ) matches Ok(values) && values.len() == results.len() && forall|i: int|
            0 <= i < results.len() ==> #[trigger] results[i] == Ok::<M, ErrorModel>(values[i])),
        0 <= first < results.len() && results[first] is Err && (forall|i: int|
            0 <= i < first ==> #[trigger] results[i] is Ok) ==> collected(results) == Err::<
            Seq<M>,
            ErrorModel,
        >(results[first]->Err_0),
{
    law_collected(results);
}

} // verus!
