//! Small operations on strings.
use vstd::prelude::*;

verus! {

/// Every part, each with the separator in front of it.
pub open spec fn each_led_by(parts: Seq<Seq<char>>, separator: Seq<char>) -> Seq<char>
    decreases parts.len(),
{
    if parts.len() == 0 {
        Seq::empty()
    } else {
        separator + parts[0] + each_led_by(parts.skip(1), separator)
    }
}

/// The parts in order, with the separator between each two neighbours.
pub open spec fn joined(parts: Seq<Seq<char>>, separator: Seq<char>) -> Seq<char> {
    if parts.len() == 0 {
        Seq::empty()
    } else {
        parts[0] + each_led_by(parts.skip(1), separator)
    }
}

/// The characters of each string of a sequence.
pub open spec fn texts(strings: Seq<String>) -> Seq<Seq<char>> {
    strings.map_values(|s: String| s@)
}

/// Joins `parts`, with `separator` between each two neighbours.
pub fn join(parts: &Vec<String>, separator: &str) -> (result: String)
    ensures
        result@ == joined(texts(parts@), separator@),
{
    if parts.len() == 0 {
        return String::new();
    }
    let ghost all = texts(parts@);
    let mut result = parts[0].clone();
    for i in 1..parts.len()
        invariant
            parts@.len() >= 1,
            all == texts(parts@),
            joined(all, separator@) == result@ + each_led_by(all.skip(i as int), separator@),
    {
        let ghost rest = all.skip(i as int);
        let ghost before = result@;
        result.append(separator);
        result.append(parts[i].as_str());
        proof {
            assert(rest.skip(1) =~= all.skip(i + 1));
            assert(rest[0] == parts@[i as int]@);
            assert(before + (separator@ + rest[0] + each_led_by(rest.skip(1), separator@))
                =~= before + separator@ + rest[0] + each_led_by(rest.skip(1), separator@));
        }
    }
    proof {
        assert(all.skip(all.len() as int).len() == 0);
        assert(result@ + Seq::<char>::empty() =~= result@);
    }
    result
}

/// Whether two strings hold the same characters.
pub fn same_text(left: &str, right: &str) -> (same: bool)
    ensures
        same == (left@ == right@),
{
    left.to_owned() == right.to_owned()
}

/// The part that comes last of `parts` and `last` joined is `last` itself: where there are other
/// parts, they are joined in front of it, one separator apart.
pub proof fn law_join_ends_with_last(parts: Seq<Seq<char>>, last: Seq<char>, separator: Seq<char>)
    ensures
        joined(parts.push(last), separator) == if parts.len() == 0 {
            last
        } else {
            joined(parts, separator) + separator + last
        },
{
    if parts.len() == 0 {
        assert(parts.push(last).skip(1) =~= Seq::empty());
        assert(last + Seq::<char>::empty() =~= last);
    } else {
        lemma_each_led_by_push(parts.skip(1), last, separator);
        assert(parts.push(last).skip(1) =~= parts.skip(1).push(last));
        assert(parts.push(last)[0] == parts[0]);
        assert(parts[0] + (each_led_by(parts.skip(1), separator) + separator + last)
            =~= parts[0] + each_led_by(parts.skip(1), separator) + separator + last);
    }
}

proof fn lemma_each_led_by_push(parts: Seq<Seq<char>>, last: Seq<char>, separator: Seq<char>)
    ensures
        each_led_by(parts.push(last), separator) == each_led_by(parts, separator) + separator
            + last,
    decreases parts.len(),
{
    reveal_with_fuel(each_led_by, 2);
    if parts.len() == 0 {
        assert(parts.push(last).skip(1) =~= Seq::empty());
        assert(separator + last + Seq::<char>::empty() =~= Seq::<char>::empty() + separator + last);
    } else {
        lemma_each_led_by_push(parts.skip(1), last, separator);
        assert(parts.push(last).skip(1) =~= parts.skip(1).push(last));
        assert(parts.push(last)[0] == parts[0]);
        let front = separator + parts[0];
        let middle = each_led_by(parts.skip(1), separator);
        assert(front + (middle + separator + last) =~= front + middle + separator + last);
    }
}

/// Nothing joined is the empty text, and one part joined is that part.
pub proof fn law_join_of_few_parts(part: Seq<char>, separator: Seq<char>)
    ensures
        joined(Seq::<Seq<char>>::empty(), separator) == Seq::<char>::empty(),
        joined(seq![part], separator) == part,
{
    assert(seq![part].skip(1) =~= Seq::empty());
    assert(part + Seq::<char>::empty() =~= part);
}

/// Two lists joined one after the other, with a separator between them, are the one list joined.
pub proof fn law_join_of_two_lists(
    first: Seq<Seq<char>>,
    second: Seq<Seq<char>>,
    separator: Seq<char>,
)
    requires
        first.len() > 0,
        second.len() > 0,
    ensures
        joined(first + second, separator) == joined(first, separator) + separator + joined(
            second,
            separator,
        ),
    decreases second.len(),
{
    let front = second.drop_last();
    let last = second.last();
    assert(first + second =~= (first + front).push(last));
    assert(second =~= front.push(last));
    law_join_ends_with_last(first + front, last, separator);
    law_join_ends_with_last(front, last, separator);
    if front.len() == 0 {
        assert(first + front =~= first);
    } else {
        law_join_of_two_lists(first, front, separator);
        let head = joined(first, separator) + separator;
        let middle = joined(front, separator);
        assert(head + middle + separator + last =~= head + (middle + separator + last));
    }
}

/// The texts of strings are their characters, one text for each string, in order.
pub proof fn law_texts_are_the_characters(strings: Seq<String>)
    ensures
        texts(strings).len() == strings.len(),
        forall|i: int| 0 <= i < strings.len() ==> #[trigger] texts(strings)[i] == strings[i]@,
{
}

} // verus!
