//! The item selector: the per-cycle work set.
//!
//! One cycle works the union of the overlap-qualified items, the owned
//! inventory and the user whitelist, without duplicates and without the
//! empty name, sorted ascending by name so that every cycle iterates the
//! same set in the same order.

use vstd::prelude::*;

use crate::types::{chars_lt, list_contains, str_lt, string_eq, OverlapRow};

verus! {

/// The names of a run of analytics rows.
pub open spec fn names_of_rows(rows: Seq<OverlapRow>) -> Seq<String> {
    Seq::new(rows.len(), |i: int| rows[i].name)
}

/// The distinct nonempty names of a run, each at its first appearance.
pub open spec fn dedup_nonempty(s: Seq<String>) -> Seq<Seq<char>>
    decreases s.len(),
{
    if s.len() == 0 {
        Seq::empty()
    } else {
        let rest = dedup_nonempty(s.drop_last());
        let v = s.last()@;
        if v == Seq::<char>::empty() || rest.contains(v) {
            rest
        } else {
            rest.push(v)
        }
    }
}

/// A name placed into an ascending run: after every name it does not
/// sort strictly before, before the first it does.
pub open spec fn insert_name(v: Seq<char>, s: Seq<Seq<char>>) -> Seq<Seq<char>>
    decreases s.len(),
{
    if s.len() == 0 {
        seq![v]
    } else if !chars_lt(v, s[0]) {
        seq![s[0]] + insert_name(v, s.drop_first())
    } else {
        seq![v] + s
    }
}

/// The names sorted ascending by code point, stably.
pub open spec fn sort_names(s: Seq<Seq<char>>) -> Seq<Seq<char>>
    decreases s.len(),
{
    if s.len() == 0 {
        Seq::empty()
    } else {
        insert_name(s.last(), sort_names(s.drop_last()))
    }
}

/// The work set of one cycle: overlap-row names, inventory names and the
/// whitelist, deduplicated, without the empty name, sorted ascending.
pub open spec fn work_set(
    rows: Seq<OverlapRow>,
    inventory_names: Seq<String>,
    whitelist: Seq<String>,
) -> Seq<Seq<char>> {
    sort_names(dedup_nonempty(names_of_rows(rows) + inventory_names + whitelist))
}

/// The strings carry exactly the listed names.
pub open spec fn names_match(ss: Seq<String>, vs: Seq<Seq<char>>) -> bool {
    &&& ss.len() == vs.len()
    &&& forall|i: int| 0 <= i < ss.len() ==> (#[trigger] ss[i])@ == vs[i]
}

/// An insertion at the first position that sorts after the name equals
/// the specification's insertion.
proof fn lemma_insert_name_at(v: Seq<char>, s: Seq<Seq<char>>, p: int)
    requires
        0 <= p <= s.len(),
        forall|k: int| 0 <= k < p ==> !chars_lt(v, #[trigger] s[k]),
        p < s.len() ==> chars_lt(v, s[p]),
    ensures
        insert_name(v, s) == s.subrange(0, p) + seq![v] + s.subrange(p, s.len() as int),
    decreases s.len(),
{
    if s.len() == 0 {
        assert(insert_name(v, s) =~= s.subrange(0, p) + seq![v] + s.subrange(p, s.len() as int));
    } else if p == 0 {
        assert(chars_lt(v, s[0]));
        assert(insert_name(v, s) =~= s.subrange(0, 0) + seq![v] + s.subrange(0, s.len() as int));
    } else {
        assert(!chars_lt(v, s[0]));
        let df = s.drop_first();
        assert forall|k: int| 0 <= k < p - 1 implies !chars_lt(v, #[trigger] df[k]) by {
            assert(df[k] == s[k + 1]);
        }
        if p - 1 < df.len() {
            assert(df[p - 1] == s[p]);
        }
        lemma_insert_name_at(v, df, p - 1);
        assert(insert_name(v, s) =~= s.subrange(0, p) + seq![v] + s.subrange(p, s.len() as int))
            by {
            assert(insert_name(v, s) == seq![s[0]] + (df.subrange(0, p - 1) + seq![v]
                + df.subrange(p - 1, df.len() as int)));
            assert forall|k: int| 0 <= k < df.len() implies #[trigger] df[k] == s[k + 1] by {}
        }
    }
}

/// The name order never puts a run before itself.
pub proof fn lemma_chars_lt_irrefl(a: Seq<char>)
    ensures
        !chars_lt(a, a),
    decreases a.len(),
{
    if a.len() > 0 {
        lemma_chars_lt_irrefl(a.drop_first());
    }
}

/// The name order chains: what sorts before an earlier name sorts
/// before a later one.
pub proof fn lemma_chars_lt_trans(a: Seq<char>, b: Seq<char>, c: Seq<char>)
    requires
        chars_lt(a, b),
        chars_lt(b, c),
    ensures
        chars_lt(a, c),
    decreases a.len(),
{
    if a.len() > 0 && b.len() > 0 && c.len() > 0 {
        if a[0] as u32 == b[0] as u32 && b[0] as u32 == c[0] as u32 {
            lemma_chars_lt_trans(a.drop_first(), b.drop_first(), c.drop_first());
        }
    }
}

/// A run of names in ascending order: no later name sorts before an
/// earlier one.
pub open spec fn names_sorted(s: Seq<Seq<char>>) -> bool {
    forall|a: int, b: int| 0 <= a < b < s.len() ==> !chars_lt(#[trigger] s[b], #[trigger] s[a])
}

/// Every entry of an insertion's result is the new name or one of the
/// old ones.
proof fn lemma_insert_name_membership(v: Seq<char>, s: Seq<Seq<char>>, at: int)
    requires
        0 <= at < insert_name(v, s).len(),
    ensures
        insert_name(v, s)[at] == v || exists|k: int|
            0 <= k < s.len() && #[trigger] s[k] == insert_name(v, s)[at],
    decreases s.len(),
{
    if s.len() == 0 {
    } else if !chars_lt(v, s[0]) {
        if at == 0 {
        } else {
            lemma_insert_name_membership(v, s.drop_first(), at - 1);
            if insert_name(v, s)[at] != v {
                let k = choose|k: int|
                    0 <= k < s.drop_first().len() && #[trigger] s.drop_first()[k] == insert_name(
                        v,
                        s,
                    )[at];
                assert(s[k + 1] == insert_name(v, s)[at]);
            }
        }
    } else {
        if at == 0 {
        } else {
            assert(s[at - 1] == insert_name(v, s)[at]);
        }
    }
}

/// Inserting a name keeps the run in ascending order.
proof fn lemma_insert_name_sorted(v: Seq<char>, s: Seq<Seq<char>>)
    requires
        names_sorted(s),
    ensures
        names_sorted(insert_name(v, s)),
    decreases s.len(),
{
    let out = insert_name(v, s);
    if s.len() == 0 {
    } else if !chars_lt(v, s[0]) {
        let df = s.drop_first();
        assert forall|a: int, b: int| 0 <= a < b < df.len() implies !chars_lt(
            #[trigger] df[b],
            #[trigger] df[a],
        ) by {
            assert(df[a] == s[a + 1]);
            assert(df[b] == s[b + 1]);
        }
        lemma_insert_name_sorted(v, df);
        let inner = insert_name(v, df);
        assert forall|a: int, b: int| 0 <= a < b < out.len() implies !chars_lt(
            #[trigger] out[b],
            #[trigger] out[a],
        ) by {
            if a == 0 {
                assert(out[b] == inner[b - 1]);
                lemma_insert_name_membership(v, df, b - 1);
                if inner[b - 1] == v {
                } else {
                    let k = choose|k: int|
                        0 <= k < df.len() && #[trigger] df[k] == inner[b - 1];
                    assert(df[k] == s[k + 1]);
                    assert(!chars_lt(s[k + 1], s[0]));
                }
            } else {
                assert(out[a] == inner[a - 1]);
                assert(out[b] == inner[b - 1]);
            }
        }
    } else {
        assert forall|a: int, b: int| 0 <= a < b < out.len() implies !chars_lt(
            #[trigger] out[b],
            #[trigger] out[a],
        ) by {
            if a == 0 {
                assert(out[b] == s[b - 1]);
                if chars_lt(s[b - 1], v) {
                    lemma_chars_lt_trans(s[b - 1], v, s[0]);
                    if b - 1 == 0 {
                        lemma_chars_lt_irrefl(s[0]);
                    }
                }
            }
        }
    }
}

/// The sorted names stand in ascending order.
proof fn lemma_sort_names_sorted(s: Seq<Seq<char>>)
    ensures
        names_sorted(sort_names(s)),
    decreases s.len(),
{
    if s.len() > 0 {
        lemma_sort_names_sorted(s.drop_last());
        lemma_insert_name_sorted(s.last(), sort_names(s.drop_last()));
    }
}

/// The work set is sorted ascending by name.
pub proof fn lemma_work_set_sorted(
    rows: Seq<OverlapRow>,
    inventory_names: Seq<String>,
    whitelist: Seq<String>,
)
    ensures
        names_sorted(work_set(rows, inventory_names, whitelist)),
{
    lemma_sort_names_sorted(
        dedup_nonempty(names_of_rows(rows) + inventory_names + whitelist),
    );
}

/// Builds the per-cycle work set: the union of overlap-qualified items,
/// owned inventory and whitelist, without duplicates and without the
/// empty name, sorted ascending by name.
pub fn select_work_items(
    rows: &Vec<OverlapRow>,
    inventory_names: &Vec<String>,
    whitelist: &Vec<String>,
) -> (r: Vec<String>)
    ensures
        names_match(r@, work_set(rows@, inventory_names@, whitelist@)),
        names_sorted(work_set(rows@, inventory_names@, whitelist@)),
{
    proof {
        lemma_work_set_sorted(rows@, inventory_names@, whitelist@);
    }
    let mut combined: Vec<String> = Vec::new();
    let mut i: usize = 0;
    while i < rows.len()
        invariant
            i <= rows@.len(),
            combined@.len() == i,
            forall|k: int| 0 <= k < i ==> #[trigger] combined@[k] == rows@[k].name,
        decreases rows@.len() - i,
    {
        combined.push(rows[i].name.clone());
        i = i + 1;
    }
    let mut i: usize = 0;
    while i < inventory_names.len()
        invariant
            i <= inventory_names@.len(),
            combined@.len() == rows@.len() + i,
            forall|k: int| 0 <= k < rows@.len() ==> #[trigger] combined@[k] == rows@[k].name,
            forall|k: int|
                0 <= k < i ==> #[trigger] combined@[rows@.len() + k] == inventory_names@[k],
        decreases inventory_names@.len() - i,
    {
        combined.push(inventory_names[i].clone());
        i = i + 1;
    }
    let mut i: usize = 0;
    while i < whitelist.len()
        invariant
            i <= whitelist@.len(),
            combined@.len() == rows@.len() + inventory_names@.len() + i,
            forall|k: int| 0 <= k < rows@.len() ==> #[trigger] combined@[k] == rows@[k].name,
            forall|k: int|
                0 <= k < inventory_names@.len() ==> #[trigger] combined@[rows@.len() + k]
                    == inventory_names@[k],
            forall|k: int|
                0 <= k < i ==> #[trigger] combined@[rows@.len() + inventory_names@.len() + k]
                    == whitelist@[k],
        decreases whitelist@.len() - i,
    {
        combined.push(whitelist[i].clone());
        i = i + 1;
    }
    proof {
        let whole = names_of_rows(rows@) + inventory_names@ + whitelist@;
        assert forall|i: int| 0 <= i < combined@.len() implies #[trigger] combined@[i]
            == whole[i] by {
            if i < rows@.len() {
            } else if i < rows@.len() + inventory_names@.len() {
                let k = i - rows@.len();
                assert(combined@[rows@.len() + k] == inventory_names@[k]);
            } else {
                let k = i - rows@.len() - inventory_names@.len();
                assert(combined@[rows@.len() + inventory_names@.len() + k] == whitelist@[k]);
            }
        }
        assert(combined@ =~= whole);
    }
    let ghost all = combined@;
    let empty_name = String::new();
    let mut out: Vec<String> = Vec::new();
    let mut j: usize = 0;
    while j < combined.len()
        invariant
            j <= combined@.len(),
            combined@ == all,
            empty_name@ == Seq::<char>::empty(),
            names_match(out@, dedup_nonempty(all.subrange(0, j as int))),
        decreases combined@.len() - j,
    {
        let ghost prefix = all.subrange(0, j as int);
        let ghost rest = dedup_nonempty(prefix);
        let name = &combined[j];
        let is_empty = string_eq(name, &empty_name);
        let seen = list_contains(&out, name);
        proof {
            if seen {
                let i = choose|i: int| 0 <= i < out@.len() && #[trigger] out@[i]@ == name@;
                assert(rest[i] == name@);
                assert(rest.contains(name@));
            } else if rest.contains(name@) {
                let i = choose|i: int| 0 <= i < rest.len() && #[trigger] rest[i] == name@;
                assert(out@[i]@ == name@);
                assert(false);
            }
        }
        if !is_empty && !seen {
            out.push(name.clone());
        }
        j = j + 1;
        proof {
            assert(all.subrange(0, j as int).drop_last() =~= prefix);
            assert(all.subrange(0, j as int).last() == all[j - 1]);
        }
    }
    proof {
        assert(all.subrange(0, all.len() as int) =~= all);
    }
    let ghost deduped = dedup_nonempty(all);
    let mut sorted: Vec<String> = Vec::new();
    let mut j: usize = 0;
    while j < out.len()
        invariant
            j <= out@.len(),
            names_match(out@, deduped),
            names_match(sorted@, sort_names(deduped.subrange(0, j as int))),
        decreases out@.len() - j,
    {
        let ghost prefix = deduped.subrange(0, j as int);
        let ghost placed = sort_names(prefix);
        let name = &out[j];
        let mut p: usize = 0;
        while p < sorted.len() && !str_lt(name.as_str(), sorted[p].as_str())
            invariant
                p <= sorted@.len(),
                j < out@.len(),
                names_match(out@, deduped),
                names_match(sorted@, placed),
                name == out@[j as int],
                forall|k: int| 0 <= k < p ==> !chars_lt(name@, #[trigger] placed[k]),
            decreases sorted@.len() - p,
        {
            p = p + 1;
        }
        proof {
            if p < sorted@.len() {
                assert(chars_lt(name@, placed[p as int]));
            }
            lemma_insert_name_at(name@, placed, p as int);
        }
        let ghost pre = sorted@;
        sorted.insert(p, name.clone());
        proof {
            let spliced = placed.subrange(0, p as int) + seq![name@] + placed.subrange(
                p as int,
                placed.len() as int,
            );
            assert forall|k: int| 0 <= k < sorted@.len() implies (#[trigger] sorted@[k])@
                == spliced[k] by {
                if k < p {
                    assert(sorted@[k] == pre[k]);
                } else if k == p {
                } else {
                    assert(sorted@[k] == pre[k - 1]);
                }
            }
            assert(names_match(sorted@, insert_name(name@, placed)));
            assert(deduped.subrange(0, j + 1).drop_last() =~= prefix);
            assert(deduped.subrange(0, j + 1).last() == deduped[j as int]);
            assert(deduped[j as int] == name@);
        }
        j = j + 1;
    }
    proof {
        assert(deduped.subrange(0, deduped.len() as int) =~= deduped);
    }
    sorted
}

} // verus!
