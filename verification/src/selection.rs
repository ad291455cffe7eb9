//! The selection of tools shown in the classic menu: toggling a tool keeps a
//! newly extended selection sorted and free of repeats.
use crate::text::{chars_of, same_text};
use vstd::prelude::*;

verus! {

broadcast use vstd::string::group_string_axioms;

/// The views of a list of strings.
pub open spec fn texts(v: Seq<String>) -> Seq<Seq<char>> {
    v.map_values(|s: String| s@)
}

/// `a` comes before `b` in the order of `String`: character by character
/// (by code point), a proper prefix first.
pub open spec fn text_before(a: Seq<char>, b: Seq<char>) -> bool
    decreases a.len(),
{
    if a.len() == 0 {
        b.len() > 0
    } else if b.len() == 0 {
        false
    } else if a[0] != b[0] {
        (a[0] as u32) < (b[0] as u32)
    } else {
        text_before(a.drop_first(), b.drop_first())
    }
}

/// Every text of `v` comes before every later one: `v` is sorted and holds
/// no text twice.
pub open spec fn strictly_sorted(v: Seq<Seq<char>>) -> bool {
    forall|i: int, j: int| 0 <= i < j < v.len() ==> text_before(#[trigger] v[i], #[trigger] v[j])
}

/// No text comes before itself.
pub proof fn text_before_is_irreflexive(a: Seq<char>)
    ensures
        !text_before(a, a),
    decreases a.len(),
{
    if a.len() > 0 {
        text_before_is_irreflexive(a.drop_first());
    }
}

/// The order of texts is transitive.
pub proof fn text_before_is_transitive(a: Seq<char>, b: Seq<char>, c: Seq<char>)
    requires
        text_before(a, b),
        text_before(b, c),
    ensures
        text_before(a, c),
    decreases a.len(),
{
    if a.len() > 0 && a[0] == b[0] && b[0] == c[0] {
        text_before_is_transitive(a.drop_first(), b.drop_first(), c.drop_first());
    }
}

/// Of two different texts, one comes before the other.
pub proof fn text_before_is_total(a: Seq<char>, b: Seq<char>)
    requires
        a != b,
    ensures
        text_before(a, b) || text_before(b, a),
    decreases a.len(),
{
    if a.len() == 0 && b.len() == 0 {
        assert(a =~= b);
    }
    if a.len() > 0 && b.len() > 0 && a[0] != b[0] {
        vstd::utf8::char_u32_cast(a[0], a[0] as u32);
        vstd::utf8::char_u32_cast(b[0], b[0] as u32);
    }
    if a.len() > 0 && b.len() > 0 && a[0] == b[0] {
        if a.drop_first() == b.drop_first() {
            assert(a =~= seq![a[0]] + a.drop_first());
            assert(b =~= seq![b[0]] + b.drop_first());
        }
        text_before_is_total(a.drop_first(), b.drop_first());
    }
}

/// Whether `a` comes before `b` in the order of `String`.
pub fn is_text_before(a: &str, b: &str) -> (before: bool)
    ensures
        before == text_before(a@, b@),
{
    let x = chars_of(a);
    let y = chars_of(b);
    let mut i: usize = 0;
    proof {
        assert(x@.skip(0) =~= x@);
        assert(y@.skip(0) =~= y@);
    }
    while i < x.len() && i < y.len()
        invariant
            i <= x@.len(),
            i <= y@.len(),
            x@ == a@,
            y@ == b@,
            text_before(a@, b@) == text_before(x@.skip(i as int), y@.skip(i as int)),
        decreases x@.len() - i,
    {
        proof {
            assert(x@.skip(i as int)[0] == x@[i as int]);
            assert(y@.skip(i as int)[0] == y@[i as int]);
        }
        if x[i] != y[i] {
            return (x[i] as u32) < (y[i] as u32);
        }
        proof {
            assert(x@.skip(i as int).drop_first() =~= x@.skip(i + 1));
            assert(y@.skip(i as int).drop_first() =~= y@.skip(i + 1));
        }
        i += 1;
    }
    proof {
        assert(x@.skip(i as int).len() == 0 || y@.skip(i as int).len() == 0);
    }
    i < y.len()
}

/// Whether `i` is the first position of `id` in `v`.
pub open spec fn is_first_position(v: Seq<Seq<char>>, id: Seq<char>, i: int) -> bool {
    0 <= i < v.len() && v[i] == id && forall|k: int| 0 <= k < i ==> v[k] != id
}

/// Puts `text` into the sorted, repeat-free `sorted`, unless it is there.
fn insert_text(sorted: &mut Vec<String>, text: &str)
    requires
        strictly_sorted(texts(old(sorted)@)),
    ensures
        strictly_sorted(texts(final(sorted)@)),
        forall|t: Seq<char>|
            texts(final(sorted)@).contains(t) <==> (texts(old(sorted)@).contains(t) || t == text@),
{
    let ghost before = texts(sorted@);
    let mut p: usize = 0;
    while p < sorted.len() && is_text_before(sorted[p].as_str(), text)
        invariant
            p <= sorted@.len(),
            texts(sorted@) == before,
            forall|k: int| 0 <= k < p ==> text_before(#[trigger] before[k], text@),
        decreases sorted@.len() - p,
    {
        p += 1;
    }
    if p < sorted.len() && same_text(sorted[p].as_str(), text) {
        proof {
            assert forall|t: Seq<char>| before.contains(t) <==> (before.contains(t) || t == text@) by {
                if t == text@ {
                    assert(before[p as int] == t);
                }
            }
        }
        return ;
    }
    proof {
        if p < sorted@.len() {
            text_before_is_total(before[p as int], text@);
        }
    }
    sorted.insert(p, String::from_str(text));
    proof {
        let after = texts(sorted@);
        assert(after =~= before.insert(p as int, text@));
        assert forall|i: int, j: int| 0 <= i < j < after.len() implies text_before(
            #[trigger] after[i],
            #[trigger] after[j],
        ) by {
            if j < p {
            } else if j == p {
            } else if i < p {
                if p < before.len() {
                    text_before_is_transitive(before[i], text@, before[p as int]);
                    if j - 1 > p {
                        text_before_is_transitive(before[i], before[p as int], before[j - 1]);
                    }
                }
            } else if i == p {
                if j - 1 > p {
                    text_before_is_transitive(text@, before[p as int], before[j - 1]);
                }
            } else {
            }
        }
        assert forall|t: Seq<char>| after.contains(t) <==> (before.contains(t) || t == text@) by {
            if after.contains(t) {
                let k = choose|k: int| 0 <= k < after.len() && #[trigger] after[k] == t;
                if k < p {
                    assert(before[k] == t);
                } else if k > p {
                    assert(before[k - 1] == t);
                }
            }
            if before.contains(t) {
                let k = choose|k: int| 0 <= k < before.len() && #[trigger] before[k] == t;
                if k < p {
                    assert(after[k] == t);
                } else {
                    assert(after[k + 1] == t);
                }
            }
            if t == text@ {
                assert(after[p as int] == t);
            }
        }
    }
}

/// Toggles a tool in the selection: a selected tool is removed (its first
/// occurrence, the rest keeping their order); otherwise it is added and the
/// selection is sorted, with repeats removed.
pub fn toggle_tool_selection(selected: &mut Vec<String>, tool_id: &str)
    ensures
        texts(old(selected)@).contains(tool_id@) ==> exists|i: int|
            #[trigger] is_first_position(texts(old(selected)@), tool_id@, i) && texts(
                final(selected)@,
            ) == texts(old(selected)@).remove(i),
        !texts(old(selected)@).contains(tool_id@) ==> strictly_sorted(texts(final(selected)@))
            && forall|t: Seq<char>|
            texts(final(selected)@).contains(t) <==> (texts(old(selected)@).contains(t) || t
                == tool_id@),
{
    let ghost old_texts = texts(selected@);
    let mut i: usize = 0;
    while i < selected.len()
        invariant
            i <= selected@.len(),
            old_texts == texts(old(selected)@),
            texts(selected@) == old_texts,
            forall|k: int| 0 <= k < i ==> old_texts[k] != tool_id@,
        decreases selected@.len() - i,
    {
        if same_text(selected[i].as_str(), tool_id) {
            proof {
                assert(old_texts[i as int] == selected@[i as int]@);
                assert(is_first_position(old_texts, tool_id@, i as int));
                assert(old_texts.contains(tool_id@));
            }
            selected.remove(i);
            proof {
                assert(texts(selected@) =~= old_texts.remove(i as int));
            }
            return ;
        }
        i += 1;
    }
    proof {
        assert(!old_texts.contains(tool_id@)) by {
            if old_texts.contains(tool_id@) {
                let j = choose|j: int| 0 <= j < old_texts.len() && #[trigger] old_texts[j] == tool_id@;
                assert(old_texts[j] == selected@[j]@);
            }
        }
    }
    let mut sorted: Vec<String> = Vec::new();
    let mut k: usize = 0;
    while k < selected.len()
        invariant
            k <= selected@.len(),
            old_texts == texts(old(selected)@),
            texts(selected@) == old_texts,
            strictly_sorted(texts(sorted@)),
            forall|t: Seq<char>|
                texts(sorted@).contains(t) <==> old_texts.take(k as int).contains(t),
        decreases selected@.len() - k,
    {
        let ghost sorted_before = texts(sorted@);
        insert_text(&mut sorted, selected[k].as_str());
        proof {
            assert(old_texts[k as int] == selected@[k as int]@);
            assert(forall|t: Seq<char>|
                texts(sorted@).contains(t) <==> (sorted_before.contains(t) || t
                    == old_texts[k as int]));
            assert forall|t: Seq<char>|
                old_texts.take(k + 1).contains(t) <==> (old_texts.take(k as int).contains(t) || t
                    == old_texts[k as int]) by {
                if old_texts.take(k + 1).contains(t) {
                    let j = choose|j: int| 0 <= j < k + 1 && #[trigger] old_texts.take(k + 1)[j] == t;
                    if j < k {
                        assert(old_texts.take(k as int)[j] == t);
                    }
                }
                if old_texts.take(k as int).contains(t) {
                    let j = choose|j: int| 0 <= j < k && #[trigger] old_texts.take(k as int)[j] == t;
                    assert(old_texts.take(k + 1)[j] == t);
                }
                if t == old_texts[k as int] {
                    assert(old_texts.take(k + 1)[k as int] == t);
                }
            }
            assert forall|t: Seq<char>|
                texts(sorted@).contains(t) <==> old_texts.take(k + 1).contains(t) by {
                assert(sorted_before.contains(t) <==> old_texts.take(k as int).contains(t));
            }
        }
        k += 1;
    }
    insert_text(&mut sorted, tool_id);
    proof {
        assert(old_texts.take(old_texts.len() as int) =~= old_texts);
    }
    *selected = sorted;
}

} // verus!
