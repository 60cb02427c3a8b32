//! The user list of each channel.
//!
//! A channel's users are kept as a set of nicks with their status prefixes
//! (`@alice`, `+bob`), in string order, as a `BTreeSet<String>` keeps them.
//! One person appears once: a new variant of a nick replaces the old one.
use vstd::prelude::*;
use crate::complete::{key_le, key_le_exec};
use crate::model::strings_view;
use crate::text::{chars_of, eq_chars, lower_chars, lowercase, string_of};
use crate::util::{
    display_chars, has_status_place, higher_status_ranks_higher, rank_chars, spec_nick_display, spec_nick_rank,
};

verus! {

// ---------------------------------------------------------------------------
// Sets of nicks in string order
// ---------------------------------------------------------------------------

/// `s` with `x` added in order, unless it is already there: what
/// `BTreeSet::insert` does to an ordered set.
pub open spec fn set_insert(s: Seq<Seq<char>>, x: Seq<char>) -> Seq<Seq<char>>
    decreases s.len(),
{
    if s.len() == 0 {
        seq![x]
    } else if s.last() == x {
        s
    } else if key_le(s.last(), x) {
        s.push(x)
    } else {
        set_insert(s.drop_last(), x).push(s.last())
    }
}

/// Where `set_insert` puts `x`, and whether it finds it already there.
pub open spec fn set_pos(s: Seq<Seq<char>>, x: Seq<char>) -> (int, bool)
    decreases s.len(),
{
    if s.len() == 0 {
        (0, false)
    } else if s.last() == x {
        (s.len() - 1, true)
    } else if key_le(s.last(), x) {
        (s.len() as int, false)
    } else {
        set_pos(s.drop_last(), x)
    }
}

proof fn lemma_set_pos(s: Seq<Seq<char>>, x: Seq<char>)
    ensures
        0 <= set_pos(s, x).0 <= s.len(),
        set_pos(s, x).1 ==> set_pos(s, x).0 < s.len() && s[set_pos(s, x).0] == x && set_insert(s, x)
            == s,
        !set_pos(s, x).1 ==> set_insert(s, x) == s.take(set_pos(s, x).0).push(x) + s.skip(
            set_pos(s, x).0,
        ),
    decreases s.len(),
{
    if s.len() == 0 {
        assert(s.skip(0) =~= Seq::<Seq<char>>::empty());
        assert(s.take(0).push(x) =~= seq![x]);
    } else if s.last() == x {
    } else if key_le(s.last(), x) {
        assert(s.take(s.len() as int) == s);
        assert(s.skip(s.len() as int) =~= Seq::<Seq<char>>::empty());
    } else {
        let d = s.drop_last();
        lemma_set_pos(d, x);
        let p = set_pos(d, x).0;
        if set_pos(d, x).1 {
            assert(set_insert(s, x) == d.push(s.last()));
            assert(d.push(s.last()) =~= s);
            assert(d[p] == s[p]);
        } else {
            assert(d.take(p) == s.take(p));
            assert(s.skip(p) =~= d.skip(p).push(s.last()));
            assert(set_insert(s, x) =~= s.take(p).push(x) + s.skip(p));
        }
    }
}

/// Everything in `set_insert(s, x)` was in `s` or is `x`.
proof fn lemma_set_insert_members(s: Seq<Seq<char>>, x: Seq<char>)
    ensures
        forall|k: int| 0 <= k < set_insert(s, x).len() ==> (#[trigger] set_insert(s, x)[k] == x
            || s.contains(set_insert(s, x)[k])),
    decreases s.len(),
{
    lemma_set_pos(s, x);
    let p = set_pos(s, x).0;
    let r = set_insert(s, x);
    assert forall|k: int| 0 <= k < r.len() implies (#[trigger] r[k] == x || s.contains(r[k])) by {
        if set_pos(s, x).1 {
            assert(r[k] == s[k]);
        } else if k < p {
            assert(r[k] == s[k]);
        } else if k > p {
            assert(r[k] == s[k - 1]);
        }
    }
}

/// Adds `x` to the ordered set `v`.
pub fn insert_nick(v: &mut Vec<String>, x: String)
    ensures
        strings_view(final(v)@) == set_insert(strings_view(old(v)@), x@),
{
    let ghost s = strings_view(v@);
    let xv = chars_of(x.as_str());
    let mut j = v.len();
    proof {
        assert(s.take(j as int) == s);
    }
    while j > 0 && !eq_chars(&chars_of(v[j - 1].as_str()), &xv) && !key_le_exec(
        &chars_of(v[j - 1].as_str()),
        &xv,
    )
        invariant
            j <= v.len(),
            s == strings_view(v@),
            xv@ == x@,
            set_pos(s.take(j as int), x@) == set_pos(s, x@),
        decreases j,
    {
        assert(s.take(j as int).last() == s[j - 1]);
        assert(s.take(j as int).drop_last() == s.take(j - 1));
        j -= 1;
    }
    proof {
        lemma_set_pos(s, x@);
        if j > 0 {
            assert(s.take(j as int).last() == s[j - 1]);
        }
    }
    if j > 0 && eq_chars(&chars_of(v[j - 1].as_str()), &xv) {
        assert(set_pos(s, x@) == (j - 1, true));
        return;
    }
    assert(set_pos(s, x@) == (j as int, false));
    v.insert(j, x);
    assert(strings_view(v@) =~= s.take(j as int).push(x@) + s.skip(j as int));
}

/// `s` folded into an ordered set, one insertion at a time.
pub open spec fn set_of(vals: Seq<Seq<char>>) -> Seq<Seq<char>>
    decreases vals.len(),
{
    if vals.len() == 0 {
        seq![]
    } else {
        set_insert(set_of(vals.drop_last()), vals.last())
    }
}

proof fn lemma_set_of_members(vals: Seq<Seq<char>>)
    ensures
        forall|k: int| 0 <= k < set_of(vals).len() ==> vals.contains(#[trigger] set_of(vals)[k]),
    decreases vals.len(),
{
    if vals.len() > 0 {
        let d = vals.drop_last();
        lemma_set_of_members(d);
        lemma_set_insert_members(set_of(d), vals.last());
        assert forall|k: int| 0 <= k < set_of(vals).len() implies vals.contains(#[trigger] set_of(vals)[k]) by {
            let y = set_of(vals)[k];
            if y == vals.last() {
                assert(vals[vals.len() - 1] == y);
            } else {
                assert(set_of(d).contains(y));
                let i = choose|i: int| 0 <= i < set_of(d).len() && set_of(d)[i] == y;
                assert(d.contains(y));
                let j = choose|j: int| 0 <= j < d.len() && d[j] == y;
                assert(vals[j] == y);
            }
        }
    }
}

/// Whether a nick is not shown as `display`.
pub open spec fn not_shown_as(display: Seq<char>) -> spec_fn(Seq<char>) -> bool {
    |x: Seq<char>| spec_nick_display(x) != display
}

/// The set without the nicks shown as `display`.
pub fn retain_not_shown_as(v: &mut Vec<String>, display: &Vec<char>) -> (removed: bool)
    ensures
        strings_view(final(v)@) == strings_view(old(v)@).filter(not_shown_as(display@)),
        removed == (strings_view(final(v)@).len() < strings_view(old(v)@).len()),
{
    let ghost s = strings_view(v@);
    let mut kept: Vec<String> = Vec::new();
    let mut i: usize = 0;
    while i < v.len()
        invariant
            i <= v.len(),
            s == strings_view(v@),
            strings_view(kept@) == s.take(i as int).filter(not_shown_as(display@)),
        decreases v.len() - i,
    {
        let ghost pre = strings_view(kept@);
        assert(s.take(i + 1).drop_last() == s.take(i as int));
        assert(s.take(i + 1).last() == s[i as int]);
        proof {
            reveal(Seq::filter);
        }
        let d = display_chars(&chars_of(v[i].as_str()));
        if !eq_chars(&d, display) {
            kept.push(v[i].clone());
            assert(strings_view(kept@) =~= pre.push(s[i as int]));
        }
        i += 1;
    }
    assert(s.take(v.len() as int) == s);
    proof {
        s.lemma_filter_len(not_shown_as(display@));
    }
    let removed = kept.len() < v.len();
    *v = kept;
    removed
}

/// Whether a nick is not exactly `nick`.
pub open spec fn is_not(nick: Seq<char>) -> spec_fn(Seq<char>) -> bool {
    |x: Seq<char>| x != nick
}

/// The set without `nick` itself (its other variants stay).
pub fn remove_exact(v: &mut Vec<String>, nick: &Vec<char>)
    ensures
        strings_view(final(v)@) == strings_view(old(v)@).filter(is_not(nick@)),
{
    let ghost s = strings_view(v@);
    let mut kept: Vec<String> = Vec::new();
    let mut i: usize = 0;
    while i < v.len()
        invariant
            i <= v.len(),
            s == strings_view(v@),
            strings_view(kept@) == s.take(i as int).filter(is_not(nick@)),
        decreases v.len() - i,
    {
        let ghost pre = strings_view(kept@);
        assert(s.take(i + 1).drop_last() == s.take(i as int));
        assert(s.take(i + 1).last() == s[i as int]);
        proof {
            reveal(Seq::filter);
        }
        if !eq_chars(&chars_of(v[i].as_str()), nick) {
            kept.push(v[i].clone());
            assert(strings_view(kept@) =~= pre.push(s[i as int]));
        }
        i += 1;
    }
    assert(s.take(v.len() as int) == s);
    *v = kept;
}

// ---------------------------------------------------------------------------
// A NAMES reply, deduplicated
// ---------------------------------------------------------------------------

/// Who a nick is, for deduplication: its display form, lowercased.
pub open spec fn person(u: Seq<char>) -> Seq<char> {
    lowercase(spec_nick_display(u))
}

/// Index of the entry for `key`, or `b.len()`.
pub open spec fn assoc_index(b: Seq<(Seq<char>, Seq<char>)>, key: Seq<char>) -> int
    decreases b.len(),
{
    if b.len() == 0 {
        0
    } else if assoc_index(b.drop_last(), key) < b.len() - 1 {
        assoc_index(b.drop_last(), key)
    } else if b.last().0 == key {
        b.len() - 1
    } else {
        b.len() as int
    }
}

proof fn lemma_assoc_index(b: Seq<(Seq<char>, Seq<char>)>, key: Seq<char>)
    ensures
        0 <= assoc_index(b, key) <= b.len(),
        assoc_index(b, key) < b.len() ==> b[assoc_index(b, key)].0 == key,
        assoc_index(b, key) == b.len() ==> forall|k: int| 0 <= k < b.len() ==> (#[trigger] b[k]).0 != key,
    decreases b.len(),
{
    if b.len() > 0 {
        lemma_assoc_index(b.drop_last(), key);
        if assoc_index(b, key) == b.len() {
            assert forall|k: int| 0 <= k < b.len() implies (#[trigger] b[k]).0 != key by {
                if k < b.len() - 1 {
                    assert(b[k] == b.drop_last()[k]);
                }
            }
        }
    }
}

/// For each person in `list`, the first of their highest-ranked nicks,
/// keyed by person, in order of first appearance.
pub open spec fn best_of(list: Seq<Seq<char>>) -> Seq<(Seq<char>, Seq<char>)>
    decreases list.len(),
{
    if list.len() == 0 {
        seq![]
    } else {
        let b = best_of(list.drop_last());
        let u = list.last();
        let i = assoc_index(b, person(u));
        if i < b.len() {
            if spec_nick_rank(u) > spec_nick_rank(b[i].1) {
                b.update(i, (person(u), u))
            } else {
                b
            }
        } else {
            b.push((person(u), u))
        }
    }
}

pub open spec fn best_values(b: Seq<(Seq<char>, Seq<char>)>) -> Seq<Seq<char>> {
    b.map_values(|p: (Seq<char>, Seq<char>)| p.1)
}

/// A channel's user set after a NAMES reply listing `list`: one nick per
/// person, the first of their highest-ranked variants.
pub open spec fn spec_dedupe_users(list: Seq<Seq<char>>) -> Seq<Seq<char>> {
    set_of(best_values(best_of(list)))
}

/// The user set of a NAMES reply.
pub fn dedupe_users(list: Vec<String>) -> (r: Vec<String>)
    ensures
        strings_view(r@) == spec_dedupe_users(strings_view(list@)),
{
    let ghost l = strings_view(list@);
    let mut keys: Vec<Vec<char>> = Vec::new();
    let mut vals: Vec<String> = Vec::new();
    let mut i: usize = 0;
    while i < list.len()
        invariant
            i <= list.len(),
            l == strings_view(list@),
            keys@.len() == vals@.len(),
            forall|k: int| 0 <= k < keys@.len() ==> (#[trigger] best_of(l.take(i as int))[k]) == (
            keys@[k]@, vals@[k]@),
            best_of(l.take(i as int)).len() == keys@.len(),
        decreases list.len() - i,
    {
        let ghost b = best_of(l.take(i as int));
        assert(l.take(i + 1).drop_last() == l.take(i as int));
        assert(l.take(i + 1).last() == l[i as int]);
        let u = chars_of(list[i].as_str());
        let key = lower_chars(&display_chars(&u));
        let mut j: usize = 0;
        while j < keys.len() && !eq_chars(&keys[j], &key)
            invariant
                j <= keys@.len(),
                keys@.len() == vals@.len() == b.len(),
                forall|k: int| 0 <= k < keys@.len() ==> (#[trigger] b[k]) == (keys@[k]@, vals@[k]@),
                forall|k: int| 0 <= k < j ==> (#[trigger] b[k]).0 != key@,
            decreases keys@.len() - j,
        {
            j += 1;
        }
        proof {
            lemma_assoc_index(b, key@);
            if assoc_index(b, key@) < j {
                assert(b[assoc_index(b, key@)].0 == key@);
            }
            if j < keys@.len() {
                assert(b[j as int].0 == key@);
                if assoc_index(b, key@) > j {
                    assert(b[j as int].0 != key@) by {
                        lemma_assoc_index_first(b, key@, j as int);
                    }
                }
            }
        }
        if j < keys.len() {
            assert(assoc_index(b, key@) == j);
            if rank_chars(&u) > rank_chars(&chars_of(vals[j].as_str())) {
                vals.set(j, list[i].clone());
                keys.set(j, key);
            }
        } else {
            assert(assoc_index(b, key@) == b.len());
            keys.push(key);
            vals.push(list[i].clone());
        }
        i += 1;
    }
    assert(l.take(list.len() as int) == l);
    let ghost b = best_of(l);
    let ghost bv = best_values(b);
    let mut out: Vec<String> = Vec::new();
    let mut k: usize = 0;
    while k < vals.len()
        invariant
            k <= vals@.len(),
            vals@.len() == b.len(),
            forall|m: int| 0 <= m < vals@.len() ==> (#[trigger] vals@[m])@ == b[m].1,
            bv == best_values(b),
            strings_view(out@) == set_of(bv.take(k as int)),
        decreases vals@.len() - k,
    {
        assert(bv.take(k + 1).drop_last() == bv.take(k as int));
        assert(bv.take(k + 1).last() == vals@[k as int]@);
        insert_nick(&mut out, vals[k].clone());
        k += 1;
    }
    assert(bv.take(vals@.len() as int) == bv);
    out
}

/// No entry before the first one for `key` has that key.
proof fn lemma_assoc_index_first(b: Seq<(Seq<char>, Seq<char>)>, key: Seq<char>, j: int)
    requires
        0 <= j < assoc_index(b, key),
    ensures
        b[j].0 != key,
    decreases b.len(),
{
    if b.len() > 0 {
        let d = b.drop_last();
        if assoc_index(d, key) < b.len() - 1 {
            lemma_assoc_index_first(d, key, j);
            assert(d[j] == b[j]);
        } else {
            lemma_assoc_index(d, key);
            if j < b.len() - 1 {
                assert(d[j] == b[j]);
            }
        }
    }
}

/// The entries of `best_of` have different keys, each entry's nick is of
/// that person, and no nick of that person in the list outranks it.
proof fn lemma_best_of(list: Seq<Seq<char>>)
    ensures
        forall|i: int, j: int|
            0 <= i < best_of(list).len() && 0 <= j < best_of(list).len() && i != j ==> (#[trigger] best_of(
                list,
            )[i]).0 != (#[trigger] best_of(list)[j]).0,
        forall|i: int| 0 <= i < best_of(list).len() ==> (#[trigger] best_of(list)[i]).0 == person(best_of(list)[i].1),
        forall|i: int, k: int|
            0 <= i < best_of(list).len() && 0 <= k < list.len() && person(#[trigger] list[k]) == (
            #[trigger] best_of(list)[i]).0 ==> spec_nick_rank(list[k]) <= spec_nick_rank(best_of(list)[i].1),
        forall|i: int| 0 <= i < best_of(list).len() ==> list.contains(#[trigger] best_of(list)[i].1),
        forall|k: int| 0 <= k < list.len() ==> assoc_index(best_of(list), person(#[trigger] list[k]))
            < best_of(list).len(),
    decreases list.len(),
{
    if list.len() > 0 {
        let d = list.drop_last();
        lemma_best_of(d);
        let b = best_of(d);
        let u = list.last();
        lemma_assoc_index(b, person(u));
        let r = best_of(list);
        assert forall|k: int| 0 <= k < d.len() implies list[k] == #[trigger] d[k] by {}
        assert forall|i: int| 0 <= i < r.len() implies list.contains(#[trigger] r[i].1) by {
            if r[i].1 == u {
                assert(list[list.len() - 1] == u);
            } else {
                assert(r[i] == b[i]);
                let k = choose|k: int| 0 <= k < d.len() && d[k] == b[i].1;
                assert(list[k] == d[k]);
            }
        }
        let i0 = assoc_index(b, person(u));
        assert forall|i: int, k: int|
            0 <= i < r.len() && 0 <= k < list.len() && person(#[trigger] list[k]) == (#[trigger] r[i]).0 implies spec_nick_rank(
            list[k]) <= spec_nick_rank(r[i].1) by {
            if k < d.len() {
                assert(list[k] == d[k]);
                lemma_assoc_index(b, person(d[k]));
                let a = assoc_index(b, person(d[k]));
                assert(b[a].0 == person(d[k]));
                if i0 < b.len() {
                    if i == i0 {
                        assert(b[i0].0 == person(u));
                        assert(spec_nick_rank(d[k]) <= spec_nick_rank(b[i0].1));
                    } else {
                        assert(r[i] == b[i]);
                    }
                } else {
                    if i == b.len() {
                        assert(b[a].0 != person(u));
                    } else {
                        assert(r[i] == b[i]);
                    }
                }
            } else {
                assert(list[k] == u);
                if i0 < b.len() {
                    if i != i0 && i < b.len() {
                        assert(r[i] == b[i]);
                        assert(b[i].0 == person(u));
                        assert(b[i0].0 == person(u));
                    }
                } else {
                    if i < b.len() {
                        assert(r[i] == b[i]);
                    }
                }
            }
        }
        assert forall|k: int| 0 <= k < list.len() implies assoc_index(r, person(#[trigger] list[k])) < r.len() by {
            let key = person(list[k]);
            lemma_assoc_index(r, key);
            if k < d.len() {
                assert(list[k] == d[k]);
                lemma_assoc_index(b, key);
                let a = assoc_index(b, key);
                if i0 < b.len() && a == i0 {
                    assert(r[a].0 == key);
                } else if i0 < b.len() {
                    assert(r[a] == b[a]);
                } else {
                    assert(r[a] == b[a]);
                }
            } else {
                assert(list[k] == u);
                if i0 < b.len() {
                    assert(r[i0].0 == key);
                } else {
                    assert(r[b.len() as int].0 == key);
                }
            }
        }
    }
}

/// Whether `y` is the nick of one of the entries.
pub open spec fn kept_from(b: Seq<(Seq<char>, Seq<char>)>, y: Seq<char>) -> bool {
    exists|m: int| 0 <= m < b.len() && #[trigger] b[m].1 == y
}

/// A NAMES reply lists each person once: two users left in the set are
/// never the same person, and the nick kept for a person is the one with
/// the highest-ranked status prefix in the reply.
pub proof fn names_are_deduplicated_by_person(list: Seq<Seq<char>>)
    ensures
        forall|i: int, j: int|
            0 <= i < spec_dedupe_users(list).len() && 0 <= j < spec_dedupe_users(list).len() && person(
                #[trigger] spec_dedupe_users(list)[i],
            ) == person(#[trigger] spec_dedupe_users(list)[j]) ==> spec_dedupe_users(list)[i]
                == spec_dedupe_users(list)[j],
        forall|i: int, k: int|
            0 <= i < spec_dedupe_users(list).len() && 0 <= k < list.len() && person(#[trigger] list[k])
                == person(#[trigger] spec_dedupe_users(list)[i]) ==> spec_nick_rank(list[k])
                <= spec_nick_rank(spec_dedupe_users(list)[i]),
{
    let b = best_of(list);
    let bv = best_values(b);
    let r = spec_dedupe_users(list);
    lemma_best_of(list);
    lemma_set_of_members(bv);
    assert forall|i: int| 0 <= i < r.len() implies kept_from(b, #[trigger] r[i]) by {
        assert(bv.contains(r[i]));
        let m = choose|m: int| 0 <= m < bv.len() && bv[m] == r[i];
        assert(b[m].1 == r[i]);
    }
    assert forall|i: int, j: int|
        0 <= i < r.len() && 0 <= j < r.len() && person(#[trigger] r[i]) == person(#[trigger] r[j]) implies r[i] == r[j] by {
        assert(kept_from(b, r[i]));
        assert(kept_from(b, r[j]));
        let mi = choose|m: int| 0 <= m < b.len() && #[trigger] b[m].1 == r[i];
        let mj = choose|m: int| 0 <= m < b.len() && #[trigger] b[m].1 == r[j];
        assert(b[mi].0 == person(r[i]));
        assert(b[mj].0 == person(r[j]));
        if mi != mj {
            assert(b[mi].0 != b[mj].0);
        }
    }
    assert forall|i: int, k: int|
        0 <= i < r.len() && 0 <= k < list.len() && person(#[trigger] list[k]) == person(#[trigger] r[i]) implies spec_nick_rank(
        list[k]) <= spec_nick_rank(r[i]) by {
        assert(kept_from(b, r[i]));
        let m = choose|m: int| 0 <= m < b.len() && #[trigger] b[m].1 == r[i];
        assert(b[m].0 == person(r[i]));
    }
}


// ---------------------------------------------------------------------------
// The user list panel
// ---------------------------------------------------------------------------

/// The user list's order: higher status first, then by person.
pub open spec fn row_le(a: Seq<char>, b: Seq<char>) -> bool {
    spec_nick_rank(a) > spec_nick_rank(b) || (spec_nick_rank(a) == spec_nick_rank(b) && key_le(
        person(a),
        person(b),
    ))
}

/// One step of a stable insertion sort in user-list order.
pub open spec fn insert_row(r: Seq<Seq<char>>, x: Seq<char>) -> Seq<Seq<char>>
    decreases r.len(),
{
    if r.len() == 0 || row_le(r.last(), x) {
        r.push(x)
    } else {
        insert_row(r.drop_last(), x).push(r.last())
    }
}

/// `s` stably sorted in user-list order.
pub open spec fn sort_rows(s: Seq<Seq<char>>) -> Seq<Seq<char>>
    decreases s.len(),
{
    if s.len() == 0 {
        seq![]
    } else {
        insert_row(sort_rows(s.drop_last()), s.last())
    }
}

pub open spec fn row_at(r: Seq<Seq<char>>, x: Seq<char>) -> int
    decreases r.len(),
{
    if r.len() == 0 || row_le(r.last(), x) {
        r.len() as int
    } else {
        row_at(r.drop_last(), x)
    }
}

proof fn lemma_row_at(r: Seq<Seq<char>>, x: Seq<char>)
    ensures
        0 <= row_at(r, x) <= r.len(),
        insert_row(r, x) == r.take(row_at(r, x)).push(x) + r.skip(row_at(r, x)),
    decreases r.len(),
{
    if r.len() == 0 || row_le(r.last(), x) {
        assert(r.take(r.len() as int) == r);
        assert(r.skip(r.len() as int) =~= Seq::<Seq<char>>::empty());
    } else {
        let d = r.drop_last();
        lemma_row_at(d, x);
        let q = row_at(d, x);
        assert(d.take(q) == r.take(q));
        assert(r.skip(q) =~= d.skip(q).push(r.last()));
        assert(insert_row(r, x) =~= r.take(q).push(x) + r.skip(q));
    }
}

proof fn lemma_row_at_bounds(r: Seq<Seq<char>>, x: Seq<char>)
    ensures
        row_at(r, x) > 0 ==> row_le(r[row_at(r, x) - 1], x),
        forall|k: int| row_at(r, x) <= k < r.len() ==> !row_le(#[trigger] r[k], x),
    decreases r.len(),
{
    if !(r.len() == 0 || row_le(r.last(), x)) {
        let d = r.drop_last();
        lemma_row_at_bounds(d, x);
        lemma_row_at(d, x);
        assert forall|k: int| row_at(r, x) <= k < r.len() implies !row_le(#[trigger] r[k], x) by {
            if k < d.len() {
                assert(r[k] == d[k]);
            }
        }
        if row_at(r, x) > 0 {
            assert(r[row_at(r, x) - 1] == d[row_at(d, x) - 1]);
        }
    }
}

/// `sort_rows` lists the nicks by rank, highest first.
proof fn lemma_sort_rows_by_rank(s: Seq<Seq<char>>)
    ensures
        sort_rows(s).len() == s.len(),
        forall|p: int, q: int|
            0 <= p < q < sort_rows(s).len() ==> spec_nick_rank(#[trigger] sort_rows(s)[p]) >= spec_nick_rank(
                #[trigger] sort_rows(s)[q],
            ),
    decreases s.len(),
{
    if s.len() > 0 {
        let r = sort_rows(s.drop_last());
        let x = s.last();
        lemma_sort_rows_by_rank(s.drop_last());
        lemma_row_at(r, x);
        lemma_row_at_bounds(r, x);
        let q = row_at(r, x);
        let n = insert_row(r, x);
        assert(n == r.take(q).push(x) + r.skip(q));
        assert(n.len() == s.len());
        assert forall|k: int| 0 <= k < n.len() implies #[trigger] n[k] == (if k < q {
            r[k]
        } else if k == q {
            x
        } else {
            r[k - 1]
        }) by {}
        assert forall|k: int| 0 <= k < q implies spec_nick_rank(#[trigger] r[k]) >= spec_nick_rank(x) by {
            if k < q - 1 {
                assert(spec_nick_rank(r[k]) >= spec_nick_rank(r[q - 1]));
            }
        }
        assert forall|k: int| q <= k < r.len() implies spec_nick_rank(#[trigger] r[k]) <= spec_nick_rank(x) by {
            assert(!row_le(r[k], x));
        }
        assert forall|p: int, p2: int| 0 <= p < p2 < n.len() implies spec_nick_rank(#[trigger] n[p])
            >= spec_nick_rank(#[trigger] n[p2]) by {
            if p < q && p2 > q {
                assert(spec_nick_rank(r[p]) >= spec_nick_rank(r[p2 - 1]));
            } else if p > q {
                assert(spec_nick_rank(r[p - 1]) >= spec_nick_rank(r[p2 - 1]));
            } else if p2 < q {
                assert(spec_nick_rank(r[p]) >= spec_nick_rank(r[p2]));
            }
        }
    }
}

/// In the user list a nick with a higher status comes before one with a
/// lower status: owners, then admins, ops, half-ops, voiced users, and
/// users without a status.
pub proof fn higher_status_is_listed_first(set: Seq<Seq<char>>, x: int, y: int, i: int, j: int)
    requires
        0 <= x < set.len(),
        0 <= y < set.len(),
        0 <= i < j <= 5,
        has_status_place(sort_rows(set)[x], i),
        has_status_place(sort_rows(set)[y], j),
    ensures
        x < y,
{
    lemma_sort_rows_by_rank(set);
    higher_status_ranks_higher(sort_rows(set)[x], sort_rows(set)[y], i, j);
    if y < x {
        assert(spec_nick_rank(sort_rows(set)[y]) >= spec_nick_rank(sort_rows(set)[x]));
    }
}

fn row_le_exec(ra: u8, ka: &Vec<char>, rb: u8, kb: &Vec<char>) -> (r: bool)
    ensures
        r == (ra > rb || (ra == rb && key_le(ka@, kb@))),
{
    ra > rb || (ra == rb && key_le_exec(ka, kb))
}

/// The nicks of a channel in user-list order. A nick is shown as it is,
/// status prefix included.
pub fn sorted_rows(set: &Vec<String>) -> (r: Vec<String>)
    ensures
        strings_view(r@) == sort_rows(strings_view(set@)),
{
    let ghost s = strings_view(set@);
    let mut sorted: Vec<String> = Vec::new();
    let mut ranks: Vec<u8> = Vec::new();
    let mut keys: Vec<Vec<char>> = Vec::new();
    let mut n: usize = 0;
    while n < set.len()
        invariant
            n <= set.len(),
            s == strings_view(set@),
            strings_view(sorted@) == sort_rows(s.take(n as int)),
            ranks@.len() == sorted@.len() && keys@.len() == sorted@.len(),
            forall|k: int| 0 <= k < sorted@.len() ==> (#[trigger] ranks@[k]) == spec_nick_rank(sorted@[k]@),
            forall|k: int| 0 <= k < sorted@.len() ==> (#[trigger] keys@[k])@ == person(sorted@[k]@),
        decreases set.len() - n,
    {
        let ghost x = s[n as int];
        assert(s.take(n + 1).drop_last() == s.take(n as int));
        assert(s.take(n + 1).last() == x);
        let u = chars_of(set[n].as_str());
        let ru = rank_chars(&u);
        let ku = lower_chars(&display_chars(&u));
        let ghost before = strings_view(sorted@);
        assert(before.take(sorted.len() as int) == before);
        let mut j = sorted.len();
        while j > 0 && !row_le_exec(ranks[j - 1], &keys[j - 1], ru, &ku)
            invariant
                j <= sorted@.len(),
                ranks@.len() == sorted@.len() && keys@.len() == sorted@.len(),
                before == strings_view(sorted@),
                ru == spec_nick_rank(x),
                ku@ == person(x),
                forall|k: int| 0 <= k < sorted@.len() ==> (#[trigger] ranks@[k]) == spec_nick_rank(sorted@[k]@),
                forall|k: int| 0 <= k < sorted@.len() ==> (#[trigger] keys@[k])@ == person(sorted@[k]@),
                row_at(before.take(j as int), x) == row_at(before, x),
            decreases j,
        {
            assert(before.take(j as int).drop_last() == before.take(j - 1));
            assert(before.take(j as int).last() == before[j - 1]);
            j -= 1;
        }
        proof {
            if j > 0 {
                assert(before.take(j as int).last() == before[j - 1]);
            }
            assert(row_at(before.take(j as int), x) == j);
            lemma_row_at(before, x);
        }
        sorted.insert(j, set[n].clone());
        ranks.insert(j, ru);
        keys.insert(j, ku);
        assert(strings_view(sorted@) =~= before.take(j as int).push(x) + before.skip(j as int));
        n += 1;
    }
    assert(s.take(set.len() as int) == s);
    sorted
}

/// What the user list shows: users, or a line saying why there are none.
pub enum UserRows {
    Placeholder(String),
    Users(Vec<String>),
}

pub enum UserRowsV {
    Placeholder(Seq<char>),
    Users(Seq<Seq<char>>),
}

/// The user list panel: its title and its rows.
pub struct UserPanel {
    pub title: String,
    pub rows: UserRows,
}

pub open spec fn rows_view(r: UserRows) -> UserRowsV {
    match r {
        UserRows::Placeholder(s) => UserRowsV::Placeholder(s@),
        UserRows::Users(v) => UserRowsV::Users(strings_view(v@)),
    }
}

/// The user list for the active buffer `(conn_id, name)`, given the
/// channel's user set if one is known.
pub open spec fn spec_user_panel(conn_id: u64, name: Seq<char>, set: Option<Seq<Seq<char>>>) -> (
    Seq<char>,
    UserRowsV,
) {
    if conn_id == 0 || !(name.len() > 0 && name[0] == '#') {
        ("Users"@, UserRowsV::Placeholder("Select a channel tab to show users"@))
    } else {
        let count: nat = match set {
            Some(s) => s.len(),
            None => 0,
        };
        let title = "Users ["@ + crate::text::dec(count) + "] "@ + name;
        match set {
            None => (title, UserRowsV::Placeholder("Waiting for NAMES (353)…"@)),
            Some(s) => if s.len() == 0 {
                (title, UserRowsV::Placeholder("No users (yet)"@))
            } else {
                (title, UserRowsV::Users(sort_rows(s)))
            },
        }
    }
}

/// The user list panel for the active buffer.
pub fn user_panel(conn_id: u64, name: &str, set: Option<&Vec<String>>) -> (r: UserPanel)
    ensures
        (r.title@, rows_view(r.rows)) == spec_user_panel(
            conn_id,
            name@,
            match set {
                Some(v) => Some(strings_view(v@)),
                None => None,
            },
        ),
{
    let nv = chars_of(name);
    if conn_id == 0 || !(nv.len() > 0 && nv[0] == '#') {
        return UserPanel {
            title: "Users".to_owned(),
            rows: UserRows::Placeholder("Select a channel tab to show users".to_owned()),
        };
    }
    let count: usize = match set {
        Some(v) => v.len(),
        None => 0,
    };
    let mut t = chars_of("Users [");
    crate::text::extend(&mut t, &crate::text::u64_dec(count as u64));
    crate::text::extend_str(&mut t, "] ");
    crate::text::extend(&mut t, &nv);
    let title = string_of(&t);
    match set {
        None => UserPanel { title, rows: UserRows::Placeholder("Waiting for NAMES (353)…".to_owned()) },
        Some(v) => if v.len() == 0 {
            UserPanel { title, rows: UserRows::Placeholder("No users (yet)".to_owned()) }
        } else {
            UserPanel { title, rows: UserRows::Users(sorted_rows(v)) }
        },
    }
}

} // verus!
