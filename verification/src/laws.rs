//! The store's two governing laws, proved over the specification functions
//! that the load and save contracts use: loading and re-saving a tidy file
//! reproduces it, and saving the same record twice produces identical
//! content both times.

use vstd::prelude::*;
use crate::lines::{spec_lines, spec_render, no_nl, lemma_lines_no_nl, lemma_lines_of_render};
use crate::settings::{
    SettingsView,
    assigns,
    assign_line,
    starts_key,
    line_value,
    spec_scan,
    spec_set_line,
    spec_apply,
    spec_save,
    spec_load,
    spec_load_lines,
    username_key,
    goal_key,
    token_key,
    lemma_keys_distinct,
    lemma_set_line_replace,
    lemma_set_line_append,
};

verus! {

/// The lines are tidy for `key`: the load path and the save path agree on
/// which lines carry the key, such a line is written exactly as `key=value`
/// with the value it parses to, and at most one line carries the key.
pub open spec fn tidy_for(ls: Seq<Seq<char>>, key: Seq<char>) -> bool {
    &&& forall|i: int|
        0 <= i < ls.len() ==> (assigns(#[trigger] ls[i], key) <==> starts_key(ls[i], key))
    &&& forall|i: int|
        0 <= i < ls.len() && assigns(#[trigger] ls[i], key) ==> ls[i] == assign_line(
            key,
            line_value(ls[i]),
        )
    &&& forall|i: int, j: int|
        0 <= i < ls.len() && 0 <= j < ls.len() && i != j && assigns(#[trigger] ls[i], key)
            ==> !assigns(#[trigger] ls[j], key)
}

/// The lines are tidy for every recognized key.
pub open spec fn tidy(ls: Seq<Seq<char>>) -> bool {
    tidy_for(ls, username_key()) && tidy_for(ls, goal_key()) && tidy_for(ls, token_key())
}

/// A scanned value always comes from some assigning line.
proof fn lemma_scan_some(ls: Seq<Seq<char>>, key: Seq<char>)
    requires
        spec_scan(ls, key) is Some,
    ensures
        exists|i: int|
            0 <= i < ls.len() && assigns(#[trigger] ls[i], key) && line_value(ls[i]) == spec_scan(
                ls,
                key,
            )->0,
    decreases ls.len(),
{
    if assigns(ls.last(), key) {
        assert(assigns(ls[ls.len() - 1], key));
    } else {
        let dl = ls.drop_last();
        lemma_scan_some(dl, key);
        let i0 = choose|i: int|
            0 <= i < dl.len() && assigns(#[trigger] dl[i], key) && line_value(dl[i]) == spec_scan(
                dl,
                key,
            )->0;
        assert(ls[i0] == dl[i0]);
        assert(assigns(ls[i0], key));
    }
}

/// Under tidiness, writing back the value that scanning found changes
/// nothing.
proof fn lemma_set_line_tidy_id(ls: Seq<Seq<char>>, key: Seq<char>)
    requires
        tidy_for(ls, key),
        spec_scan(ls, key) is Some,
    ensures
        spec_set_line(ls, key, spec_scan(ls, key)->0) == ls,
{
    lemma_scan_some(ls, key);
    let v = spec_scan(ls, key)->0;
    let i = choose|i: int|
        0 <= i < ls.len() && assigns(#[trigger] ls[i], key) && line_value(ls[i]) == v;
    assert(ls[i] == assign_line(key, line_value(ls[i])));
    assert forall|j: int| 0 <= j < i implies !starts_key(#[trigger] ls[j], key) by {
        assert(!assigns(ls[j], key));
    }
    lemma_set_line_replace(ls, key, v, i);
    assert(ls.update(i, assign_line(key, v)) =~= ls);
}

/// Round-trip identity: loading a tidy file and saving the unchanged record
/// reproduces the file's content, up to trailing-newline normalization.
///
/// Tidiness is needed because loading trims and unquotes while saving
/// writes the bare parsed value: a file line such as `BEEMINDER_TOKEN="x"`
/// would deliberately be rewritten as `BEEMINDER_TOKEN=x`.
pub proof fn lemma_round_trip(c: Seq<char>)
    requires
        tidy(spec_lines(c)),
    ensures
        spec_save(spec_load(c), c) == spec_render(spec_lines(c)),
{
    let ls = spec_lines(c);
    let sv = spec_load(c);
    assert(sv == spec_load_lines(ls));
    if sv.username is Some {
        lemma_set_line_tidy_id(ls, username_key());
    }
    if sv.goal is Some {
        lemma_set_line_tidy_id(ls, goal_key());
    }
    if sv.token is Some {
        lemma_set_line_tidy_id(ls, token_key());
    }
    assert(spec_apply(ls, sv) == ls);
}

/// The two keys differ at some position within their common length, so no
/// line can open with both `k1=` and `k2=`.
pub open spec fn keys_differ(k1: Seq<char>, k2: Seq<char>) -> bool {
    exists|d: int| 0 <= d < k1.len() && d < k2.len() && k1[d] != k2[d]
}

/// A fresh line for one key never opens with a differing key.
proof fn lemma_cross_no_match(k1: Seq<char>, k2: Seq<char>, v2: Seq<char>)
    requires
        keys_differ(k1, k2),
    ensures
        !starts_key(assign_line(k2, v2), k1),
{
    let d = choose|d: int| 0 <= d < k1.len() && d < k2.len() && k1[d] != k2[d];
    let line = assign_line(k2, v2);
    if starts_key(line, k1) {
        assert(line.take(k1.len() as int + 1)[d] == line[d]);
        assert(line[d] == k2.push('=')[d]);
        assert(k2.push('=')[d] == k2[d]);
        assert(k1.push('=')[d] == k1[d]);
    }
}

/// A fresh line for a key opens with that key.
proof fn lemma_assign_starts(key: Seq<char>, v: Seq<char>)
    ensures
        starts_key(assign_line(key, v), key),
{
    assert(assign_line(key, v).take(key.len() as int + 1) =~= key.push('='));
}

/// Index of the first line that opens with `key=`, when one exists.
proof fn first_match(ls: Seq<Seq<char>>, key: Seq<char>) -> (i: int)
    requires
        exists|j: int| 0 <= j < ls.len() && starts_key(#[trigger] ls[j], key),
    ensures
        0 <= i < ls.len(),
        starts_key(ls[i], key),
        forall|j: int| 0 <= j < i ==> !starts_key(#[trigger] ls[j], key),
    decreases ls.len(),
{
    if starts_key(ls[0], key) {
        0
    } else {
        let j0 = choose|j: int| 0 <= j < ls.len() && starts_key(#[trigger] ls[j], key);
        assert(ls.skip(1)[j0 - 1] == ls[j0]);
        let i1 = first_match(ls.skip(1), key);
        assert forall|j: int| 0 <= j < i1 + 1 implies !starts_key(#[trigger] ls[j], key) by {
            if j > 0 {
                assert(ls.skip(1)[j - 1] == ls[j]);
            }
        }
        i1 + 1
    }
}

/// Some line of `ls` reads exactly `key=v`, and no earlier line opens with
/// `key=`: the line that a further save of the same value would hit, and
/// leave as it stands.
pub open spec fn canonical_at(ls: Seq<Seq<char>>, key: Seq<char>, v: Seq<char>) -> bool {
    exists|i: int|
        0 <= i < ls.len() && #[trigger] ls[i] == assign_line(key, v) && (forall|j: int|
            0 <= j < i ==> !starts_key(#[trigger] ls[j], key))
}

/// Setting a key leaves its line canonical.
proof fn lemma_set_line_canonical(ls: Seq<Seq<char>>, key: Seq<char>, v: Seq<char>)
    ensures
        canonical_at(spec_set_line(ls, key, v), key, v),
{
    let res = spec_set_line(ls, key, v);
    if exists|j: int| 0 <= j < ls.len() && starts_key(#[trigger] ls[j], key) {
        let i = first_match(ls, key);
        lemma_set_line_replace(ls, key, v, i);
        assert(res[i] == assign_line(key, v));
        assert forall|j: int| 0 <= j < i implies !starts_key(#[trigger] res[j], key) by {
            assert(res[j] == ls[j]);
        }
    } else {
        assert forall|j: int| 0 <= j < ls.len() implies !starts_key(#[trigger] ls[j], key) by {}
        lemma_set_line_append(ls, key, v);
        let i = ls.len() as int;
        assert(res[i] == assign_line(key, v));
        assert forall|j: int| 0 <= j < i implies !starts_key(#[trigger] res[j], key) by {
            assert(res[j] == ls[j]);
        }
    }
}

/// Setting a differing key preserves a canonical line.
proof fn lemma_canonical_preserved(
    ls: Seq<Seq<char>>,
    key: Seq<char>,
    v: Seq<char>,
    key2: Seq<char>,
    v2: Seq<char>,
)
    requires
        canonical_at(ls, key, v),
        keys_differ(key, key2),
        keys_differ(key2, key),
    ensures
        canonical_at(spec_set_line(ls, key2, v2), key, v),
{
    let res = spec_set_line(ls, key2, v2);
    let i = choose|i: int|
        0 <= i < ls.len() && #[trigger] ls[i] == assign_line(key, v) && (forall|j: int|
            0 <= j < i ==> !starts_key(#[trigger] ls[j], key));
    lemma_cross_no_match(key, key2, v2);
    lemma_cross_no_match(key2, key, v);
    if exists|j: int| 0 <= j < ls.len() && starts_key(#[trigger] ls[j], key2) {
        let m = first_match(ls, key2);
        lemma_set_line_replace(ls, key2, v2, m);
        assert(m != i);
        assert(res[i] == ls[i]);
        assert forall|j: int| 0 <= j < i implies !starts_key(#[trigger] res[j], key) by {
            if j == m {
                assert(res[j] == assign_line(key2, v2));
            } else {
                assert(res[j] == ls[j]);
            }
        }
        assert(canonical_at(res, key, v));
    } else {
        lemma_set_line_append(ls, key2, v2);
        assert(res[i] == ls[i]);
        assert forall|j: int| 0 <= j < i implies !starts_key(#[trigger] res[j], key) by {
            assert(res[j] == ls[j]);
        }
        assert(canonical_at(res, key, v));
    }
}

/// Setting a key whose canonical line already holds the value changes
/// nothing.
proof fn lemma_set_line_id(ls: Seq<Seq<char>>, key: Seq<char>, v: Seq<char>)
    requires
        canonical_at(ls, key, v),
    ensures
        spec_set_line(ls, key, v) == ls,
{
    let i = choose|i: int|
        0 <= i < ls.len() && #[trigger] ls[i] == assign_line(key, v) && (forall|j: int|
            0 <= j < i ==> !starts_key(#[trigger] ls[j], key));
    lemma_assign_starts(key, v);
    lemma_set_line_replace(ls, key, v, i);
    assert(ls.update(i, assign_line(key, v)) =~= ls);
}

/// A fresh assignment line contains no newline when the value contains
/// none.
proof fn lemma_assign_no_nl(key: Seq<char>, v: Seq<char>)
    requires
        no_nl(key),
        no_nl(v),
    ensures
        no_nl(assign_line(key, v)),
{
    let line = assign_line(key, v);
    assert forall|j: int| 0 <= j < line.len() implies line[j] != '\n' by {
        if j < key.len() {
            assert(line[j] == key.push('=')[j]);
            assert(key.push('=')[j] == key[j]);
        } else if j == key.len() {
            assert(line[j] == key.push('=')[j]);
        } else {
            assert(line[j] == v[j - key.len() - 1]);
        }
    }
}

/// Setting a key keeps every line free of newlines when the fresh line is.
proof fn lemma_set_line_no_nl(ls: Seq<Seq<char>>, key: Seq<char>, v: Seq<char>)
    requires
        forall|i: int| 0 <= i < ls.len() ==> no_nl(#[trigger] ls[i]),
        no_nl(assign_line(key, v)),
    ensures
        forall|i: int|
            0 <= i < spec_set_line(ls, key, v).len() ==> no_nl(#[trigger] spec_set_line(
                ls,
                key,
                v,
            )[i]),
    decreases ls.len(),
{
    let res = spec_set_line(ls, key, v);
    if ls.len() == 0 {
        assert(res[0] == assign_line(key, v));
    } else if starts_key(ls[0], key) {
        assert forall|i: int| 0 <= i < res.len() implies no_nl(#[trigger] res[i]) by {
            if i > 0 {
                assert(res[i] == ls[i]);
            }
        }
    } else {
        let tail = ls.skip(1);
        assert forall|i: int| 0 <= i < tail.len() implies no_nl(#[trigger] tail[i]) by {
            assert(tail[i] == ls[i + 1]);
        }
        lemma_set_line_no_nl(tail, key, v);
        let rec = spec_set_line(tail, key, v);
        assert forall|i: int| 0 <= i < res.len() implies no_nl(#[trigger] res[i]) by {
            if i > 0 {
                assert(res[i] == rec[i - 1]);
            }
        }
    }
}

/// No recognized key contains a newline.
proof fn lemma_keys_clean()
    ensures
        no_nl(username_key()),
        no_nl(goal_key()),
        no_nl(token_key()),
{
    reveal_strlit("BEEMINDER_USERNAME");
    reveal_strlit("BEEMINDER_GOAL");
    reveal_strlit("BEEMINDER_TOKEN");
}

/// Idempotent double save: saving a fully populated record twice in a row
/// produces byte-identical content both times, for values that contain no
/// newline.
pub proof fn lemma_save_idempotent(sv: SettingsView, c: Seq<char>)
    requires
        sv.username is Some,
        sv.goal is Some,
        sv.token is Some,
        no_nl(sv.username->0),
        no_nl(sv.goal->0),
        no_nl(sv.token->0),
    ensures
        spec_save(sv, spec_save(sv, c)) == spec_save(sv, c),
{
    let u = sv.username->0;
    let g = sv.goal->0;
    let t = sv.token->0;
    let uk = username_key();
    let gk = goal_key();
    let tk = token_key();
    lemma_keys_distinct();
    lemma_keys_clean();
    assert(keys_differ(uk, gk) && keys_differ(gk, uk)) by {
        assert(uk[10] != gk[10]);
    }
    assert(keys_differ(uk, tk) && keys_differ(tk, uk)) by {
        assert(uk[10] != tk[10]);
    }
    assert(keys_differ(gk, tk) && keys_differ(tk, gk)) by {
        assert(gk[10] != tk[10]);
    }
    lemma_assign_no_nl(uk, u);
    lemma_assign_no_nl(gk, g);
    lemma_assign_no_nl(tk, t);
    let ls0 = spec_lines(c);
    lemma_lines_no_nl(c);
    let l1 = spec_set_line(ls0, uk, u);
    lemma_set_line_no_nl(ls0, uk, u);
    lemma_set_line_canonical(ls0, uk, u);
    let l2 = spec_set_line(l1, gk, g);
    lemma_set_line_no_nl(l1, gk, g);
    lemma_set_line_canonical(l1, gk, g);
    lemma_canonical_preserved(l1, uk, u, gk, g);
    let l3 = spec_set_line(l2, tk, t);
    lemma_set_line_no_nl(l2, tk, t);
    lemma_set_line_canonical(l2, tk, t);
    lemma_canonical_preserved(l2, uk, u, tk, t);
    lemma_canonical_preserved(l2, gk, g, tk, t);
    assert(spec_apply(ls0, sv) == l3);
    let out1 = spec_render(l3);
    lemma_lines_of_render(l3);
    assert(spec_lines(out1) == l3);
    lemma_set_line_id(l3, uk, u);
    lemma_set_line_id(l3, gk, g);
    lemma_set_line_id(l3, tk, t);
    assert(spec_apply(l3, sv) == l3);
}

} // verus!
