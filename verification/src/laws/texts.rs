//! Texts: white space, cases, parts, and their order.
use crate::listing::{is_sorted_copy, text_le};
use crate::text::{
    ascii_lower_char, ascii_upper_char, has_infix, is_white, join, split, starts_with, trim,
    trim_end, trim_end_of, trim_of, trim_start, trim_start_of,
};
use vstd::prelude::*;

verus! {

/// Whether a text is made of white space alone.
pub open spec fn blank(s: Seq<char>) -> bool {
    forall|i: int| 0 <= i < s.len() ==> is_white(#[trigger] s[i])
}

/// Blanks, tabs and line ends are white space; what can be seen of ASCII is none.
pub proof fn law_white_space(c: char)
    ensures
        is_white(' ') && is_white('\t') && is_white('\n') && is_white('\r'),
        '!' <= c <= '~' ==> !is_white(c),
{
}

proof fn lemma_trim_start(a: Seq<char>, s: Seq<char>)
    requires
        blank(a),
        s.len() == 0 || !is_white(s[0]),
    ensures
        trim_start(a + s) == s,
    decreases a.len(),
{
    if a.len() == 0 {
        assert(a + s =~= s);
    } else {
        assert((a + s)[0] == a[0]);
        assert((a + s).drop_first() =~= a.drop_first() + s);
        assert forall|i: int| 0 <= i < a.drop_first().len() implies is_white(
            #[trigger] a.drop_first()[i],
        ) by {
            assert(a.drop_first()[i] == a[i + 1]);
        }
        lemma_trim_start(a.drop_first(), s);
    }
}

proof fn lemma_trim_end(s: Seq<char>, b: Seq<char>)
    requires
        blank(b),
        s.len() == 0 || !is_white(s.last()),
    ensures
        trim_end(s + b) == s,
    decreases b.len(),
{
    if b.len() == 0 {
        assert(s + b =~= s);
    } else {
        assert((s + b).last() == b[b.len() - 1]);
        assert((s + b).drop_last() =~= s + b.drop_last());
        assert forall|i: int| 0 <= i < b.drop_last().len() implies is_white(
            #[trigger] b.drop_last()[i],
        ) by {
            assert(b.drop_last()[i] == b[i]);
        }
        lemma_trim_end(s, b.drop_last());
    }
}

/// White space around a text is taken off, and nothing else; of white space alone
/// nothing is left.
pub proof fn law_white_space_is_taken_off(a: Seq<char>, s: Seq<char>, b: Seq<char>)
    requires
        blank(a),
        blank(b),
        s.len() > 0 ==> !is_white(s[0]) && !is_white(s.last()),
    ensures
        trim(a + s + b) == s,
{
    if s.len() > 0 {
        assert(a + s + b =~= a + (s + b));
        lemma_trim_start(a, s + b);
        lemma_trim_end(s, b);
    } else {
        assert(a + s + b =~= (a + b) + s);
        assert forall|i: int| 0 <= i < (a + b).len() implies is_white(#[trigger] (a + b)[i]) by {
            if i < a.len() {
                assert((a + b)[i] == a[i]);
            } else {
                assert((a + b)[i] == b[i - a.len()]);
            }
        }
        lemma_trim_start(a + b, s);
    }
}

/// Whether a text is made of one character alone.
pub open spec fn only(s: Seq<char>, c: char) -> bool {
    forall|i: int| 0 <= i < s.len() ==> #[trigger] s[i] == c
}

proof fn lemma_trim_start_of(a: Seq<char>, s: Seq<char>, c: char)
    requires
        only(a, c),
        s.len() == 0 || s[0] != c,
    ensures
        trim_start_of(a + s, c) == s,
    decreases a.len(),
{
    if a.len() == 0 {
        assert(a + s =~= s);
    } else {
        assert((a + s)[0] == a[0]);
        assert((a + s).drop_first() =~= a.drop_first() + s);
        assert forall|i: int| 0 <= i < a.drop_first().len() implies #[trigger] a.drop_first()[i]
            == c by {
            assert(a.drop_first()[i] == a[i + 1]);
        }
        lemma_trim_start_of(a.drop_first(), s, c);
    }
}

/// A character at the end of a text is taken off as often as it stands there.
pub proof fn law_run_at_end_is_taken_off(s: Seq<char>, b: Seq<char>, c: char)
    requires
        only(b, c),
        s.len() == 0 || s.last() != c,
    ensures
        trim_end_of(s + b, c) == s,
    decreases b.len(),
{
    if b.len() == 0 {
        assert(s + b =~= s);
    } else {
        assert((s + b).last() == b[b.len() - 1]);
        assert((s + b).drop_last() =~= s + b.drop_last());
        assert forall|i: int| 0 <= i < b.drop_last().len() implies #[trigger] b.drop_last()[i]
            == c by {
            assert(b.drop_last()[i] == b[i]);
        }
        law_run_at_end_is_taken_off(s, b.drop_last(), c);
    }
}

/// A character around a text is taken off as often as it stands there.
pub proof fn law_run_around_is_taken_off(a: Seq<char>, s: Seq<char>, b: Seq<char>, c: char)
    requires
        only(a, c),
        only(b, c),
        s.len() > 0,
        s[0] != c,
        s.last() != c,
    ensures
        trim_of(a + s + b, c) == s,
{
    assert(a + s + b =~= a + (s + b));
    lemma_trim_start_of(a, s + b, c);
    law_run_at_end_is_taken_off(s, b, c);
}

/// The letters from A to Z are a to z in lower case, and the other way round; no other
/// character has another case.
pub proof fn law_letters_have_cases(k: nat, c: char)
    requires
        k < 26,
    ensures
        ascii_lower_char(('A' as int + k) as char) == ('a' as int + k) as char,
        ascii_upper_char(('a' as int + k) as char) == ('A' as int + k) as char,
        !('A' <= c <= 'Z') ==> ascii_lower_char(c) == c,
        !('a' <= c <= 'z') ==> ascii_upper_char(c) == c,
{
}

/// A text starts with what it is made to start with, and holds what is put into it;
/// and what it holds, it can be taken apart at.
pub proof fn law_parts_are_found(a: Seq<char>, t: Seq<char>, b: Seq<char>, s: Seq<char>)
    ensures
        starts_with(t + b, t),
        has_infix(a + t + b, t),
        starts_with(s, t) ==> s == t + s.skip(t.len() as int),
        has_infix(s, t) ==> exists|x: Seq<char>, y: Seq<char>| s == #[trigger] (x + t + y),
{
    assert((t + b).subrange(0, t.len() as int) =~= t);
    assert((a + t + b).subrange(a.len() as int, (a.len() + t.len()) as int) =~= t);
    assert(crate::text::stands_at(a + t + b, a.len() as int, t));
    if starts_with(s, t) {
        assert(s =~= t + s.skip(t.len() as int));
    }
    if has_infix(s, t) {
        let i = choose|i: int| crate::text::stands_at(s, i, t);
        assert(s =~= s.take(i) + t + s.skip(i + t.len()));
    }
}

/// Parts are put together with a character between each two, and are found again.
pub proof fn law_parts_are_joined(parts: Seq<Seq<char>>, last: Seq<char>, c: char)
    requires
        parts.len() > 0,
    ensures
        join(Seq::<Seq<char>>::empty(), c).len() == 0,
        join(seq![last], c) == last,
        join(parts.push(last), c) == join(parts, c) + seq![c] + last,
        (forall|i: int| 0 <= i < parts.len() ==> !(#[trigger] parts[i]).contains(c)) ==> split(
            join(parts, c),
            c,
        ) == parts,
{
    assert(parts.push(last).drop_last() =~= parts);
    assert(join(parts, c).push(c) + last =~= join(parts, c) + seq![c] + last);
    if forall|i: int| 0 <= i < parts.len() ==> !(#[trigger] parts[i]).contains(c) {
        crate::text::lemma_split_join(parts, c);
    }
}

/// Texts stand in the order of the first characters in which they differ, and a text
/// stands before any that it starts.
pub proof fn law_first_difference_decides(p: Seq<char>, a: Seq<char>, b: Seq<char>)
    ensures
        text_le(p, p + b),
        a.len() > 0 ==> !text_le(p + a, p),
        a.len() > 0 && b.len() > 0 && a[0] != b[0] ==> (text_le(p + a, p + b) <==> a[0] < b[0]),
    decreases p.len(),
{
    if p.len() > 0 {
        law_first_difference_decides(p.skip(1), a, b);
        assert((p + a).skip(1) =~= p.skip(1) + a);
        assert((p + b).skip(1) =~= p.skip(1) + b);
        assert((p + a)[0] == p[0] && (p + b)[0] == p[0]);
    } else {
        assert(p + a =~= a && p + b =~= b);
    }
}

/// A list in order holds what the list holds that it is made of, no text before one
/// that stands before it, and as many texts.
pub proof fn law_sorted_list(sorted: Seq<Seq<char>>, names: Seq<Seq<char>>, i: int, j: int)
    requires
        is_sorted_copy(sorted, names),
        0 <= i <= j < sorted.len(),
    ensures
        sorted.len() == names.len(),
        text_le(sorted[i], sorted[j]),
        names.contains(sorted[i]),
{
    let order = choose|order: Seq<usize>| #[trigger]
        crate::listing::is_order(order, names) && sorted == crate::listing::in_order(order, names);
    let a = order[i];
    let b = order[j];
    assert(names[a as int] == sorted[i] && names[b as int] == sorted[j]);
}

/// Entries in the order of their counts have none before one that was counted more.
pub proof fn law_counts_fall<K>(s: Seq<(K, usize)>, m: Map<K, usize>, i: int, j: int)
    requires
        crate::listing::is_ranking(s, m),
        0 <= i <= j < s.len(),
    ensures
        s[i].1 >= s[j].1,
        m.contains_key(s[i].0),
        m[s[i].0] == s[i].1,
{
    let keys = choose|keys: Seq<K>| #[trigger]
        crate::listing::is_listing(keys, m) && s.to_multiset() == Seq::new(
            keys.len(),
            |k: int| (keys[k], m[keys[k]]),
        ).to_multiset();
    let pairs = Seq::new(keys.len(), |k: int| (keys[k], m[keys[k]]));
    s.to_multiset_ensures();
    pairs.to_multiset_ensures();
    assert(s.contains(s[i]));
    assert(s.to_multiset().count(s[i]) > 0);
    assert(pairs.contains(s[i]));
    let k = choose|k: int| 0 <= k < pairs.len() && pairs[k] == s[i];
    assert(keys.contains(keys[k]));
}

} // verus!
