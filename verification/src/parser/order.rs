//! The order of names, and what sorting declarations by name achieves.
use vstd::prelude::*;
use crate::ast::NameDeclV;
use crate::parser::plan::{first_duplicate, insert_decl, sorted_decls};
use crate::text::lex_lt;

verus! {

/// Whether `a` does not sort after `b`.
pub open spec fn lex_le(a: Seq<char>, b: Seq<char>) -> bool {
    !lex_lt(b, a)
}

pub proof fn lemma_lex_irreflexive(a: Seq<char>)
    ensures
        !lex_lt(a, a),
    decreases a.len(),
{
    if a.len() > 0 {
        lemma_lex_irreflexive(a.drop_first());
    }
}

/// Of two different names one sorts before the other.
pub proof fn lemma_lex_connected(a: Seq<char>, b: Seq<char>)
    ensures
        a == b || lex_lt(a, b) || lex_lt(b, a),
    decreases a.len(),
{
    if a.len() == 0 || b.len() == 0 {
        if a.len() == 0 && b.len() == 0 {
            assert(a =~= b);
        }
    } else if a[0] == b[0] {
        lemma_lex_connected(a.drop_first(), b.drop_first());
        if a.drop_first() == b.drop_first() {
            assert(a =~= seq![a[0]] + a.drop_first());
            assert(b =~= seq![b[0]] + b.drop_first());
        } else if lex_lt(a.drop_first(), b.drop_first()) {
            assert(lex_lt(a, b));
        } else {
            assert(lex_lt(b, a));
        }
    } else {
        assert(a[0] < b[0] || b[0] < a[0]);
    }
}

pub proof fn lemma_lex_asymmetric(a: Seq<char>, b: Seq<char>)
    ensures
        !(lex_lt(a, b) && lex_lt(b, a)),
    decreases a.len(),
{
    if a.len() > 0 && b.len() > 0 && a[0] == b[0] {
        lemma_lex_asymmetric(a.drop_first(), b.drop_first());
    }
}

pub proof fn lemma_lex_transitive(a: Seq<char>, b: Seq<char>, c: Seq<char>)
    requires
        lex_lt(a, b),
        lex_lt(b, c),
    ensures
        lex_lt(a, c),
    decreases a.len(),
{
    if a.len() > 0 && b.len() > 0 && c.len() > 0 && a[0] == b[0] && b[0] == c[0] {
        lemma_lex_transitive(a.drop_first(), b.drop_first(), c.drop_first());
    }
}

pub proof fn lemma_le_transitive(a: Seq<char>, b: Seq<char>, c: Seq<char>)
    requires
        lex_le(a, b),
        lex_le(b, c),
    ensures
        lex_le(a, c),
{
    if lex_lt(c, a) {
        lemma_lex_connected(a, b);
        if lex_lt(a, b) {
            lemma_lex_transitive(c, a, b);
        }
    }
}

pub proof fn lemma_le_antisymmetric(a: Seq<char>, b: Seq<char>)
    requires
        lex_le(a, b),
        lex_le(b, a),
    ensures
        a == b,
{
    lemma_lex_connected(a, b);
}

/// Whether no declaration of `s` sorts after a later one.
pub open spec fn ordered(s: Seq<NameDeclV>) -> bool {
    forall|i: int, j: int|
        0 <= i < j < s.len() ==> lex_le(#[trigger] s[i].id.name, #[trigger] s[j].id.name)
}

/// Whether `s` declares `name`.
pub open spec fn has_name(s: Seq<NameDeclV>, name: Seq<char>) -> bool {
    exists|k: int| 0 <= k < s.len() && (#[trigger] s[k]).id.name == name
}

/// Whether `s` declares some name twice.
pub open spec fn has_duplicate(s: Seq<NameDeclV>) -> bool {
    exists|i: int, j: int|
        0 <= i < j < s.len() && (#[trigger] s[i]).id.name == (#[trigger] s[j]).id.name
}

/// Where `d` goes in the ordered `s`: behind every declaration that does not
/// sort after it, before every one that does.
pub open spec fn slot(s: Seq<NameDeclV>, d: NameDeclV, j: int) -> bool {
    &&& 0 <= j <= s.len()
    &&& insert_decl(s, d) == s.take(j).push(d) + s.skip(j)
    &&& forall|k: int| 0 <= k < j ==> lex_le((#[trigger] s[k]).id.name, d.id.name)
    &&& forall|k: int| j <= k < s.len() ==> lex_lt(d.id.name, (#[trigger] s[k]).id.name)
}

#[verifier::rlimit(40)]
pub proof fn lemma_insert_slot(s: Seq<NameDeclV>, d: NameDeclV) -> (j: int)
    requires
        ordered(s),
    ensures
        slot(s, d, j),
    decreases s.len(),
{
    if s.len() == 0 {
        assert(insert_decl(s, d) =~= s.take(0).push(d) + s.skip(0));
        0
    } else if lex_lt(d.id.name, s.last().id.name) {
        let rest = s.drop_last();
        assert(ordered(rest)) by {
            assert forall|i: int, j: int| 0 <= i < j < rest.len() implies lex_le(
                #[trigger] rest[i].id.name,
                #[trigger] rest[j].id.name,
            ) by {
                assert(rest[i] == s[i] && rest[j] == s[j]);
            }
        }
        let j = lemma_insert_slot(rest, d);
        assert(rest.take(j) =~= s.take(j));
        assert((rest.take(j).push(d) + rest.skip(j)).push(s.last()) =~= s.take(j).push(d) + s.skip(j));
        assert forall|k: int| 0 <= k < j implies lex_le((#[trigger] s[k]).id.name, d.id.name) by {
            assert(rest[k] == s[k]);
        }
        assert forall|k: int| j <= k < s.len() implies lex_lt(
            d.id.name,
            (#[trigger] s[k]).id.name,
        ) by {
            if k < rest.len() {
                assert(rest[k] == s[k]);
            }
        }
        j
    } else {
        let j = s.len() as int;
        assert(s.take(j) =~= s);
        assert(s.push(d) =~= s.take(j).push(d) + s.skip(j));
        assert forall|k: int| 0 <= k < j implies lex_le((#[trigger] s[k]).id.name, d.id.name) by {
            if k < j - 1 {
                assert(lex_le(s[k].id.name, s[j - 1].id.name));
            } else {
                lemma_lex_irreflexive(s[k].id.name);
            }
            lemma_le_transitive(s[k].id.name, s.last().id.name, d.id.name);
        }
        j
    }
}

/// Putting a declaration into an ordered list leaves the list ordered.
pub proof fn lemma_insert_ordered(s: Seq<NameDeclV>, d: NameDeclV)
    requires
        ordered(s),
    ensures
        ordered(insert_decl(s, d)),
{
    let j = lemma_insert_slot(s, d);
    let r = insert_decl(s, d);
    assert forall|a: int, b: int| 0 <= a < b < r.len() implies lex_le(
        #[trigger] r[a].id.name,
        #[trigger] r[b].id.name,
    ) by {
        if b < j {
            assert(r[a] == s[a] && r[b] == s[b]);
        } else if b == j {
            assert(r[a] == s[a] && r[b] == d);
        } else if a < j {
            assert(r[a] == s[a] && r[b] == s[b - 1]);
            if b - 1 > a {
                assert(lex_le(s[a].id.name, s[b - 1].id.name));
            } else {
                lemma_lex_irreflexive(s[a].id.name);
            }
        } else if a == j {
            assert(r[a] == d && r[b] == s[b - 1]);
            lemma_lex_asymmetric(d.id.name, s[b - 1].id.name);
        } else {
            assert(r[a] == s[a - 1] && r[b] == s[b - 1]);
        }
    }
}

/// Sorting orders.
pub proof fn lemma_sorted_ordered(decls: Seq<NameDeclV>)
    ensures
        ordered(sorted_decls(decls)),
    decreases decls.len(),
{
    if decls.len() > 0 {
        lemma_sorted_ordered(decls.drop_last());
        lemma_insert_ordered(sorted_decls(decls.drop_last()), decls.last());
    }
}

/// Putting a declaration into a list adds its name and no other, and makes a
/// duplicate exactly where the name was there before.
#[verifier::rlimit(40)]
pub proof fn lemma_insert_names(s: Seq<NameDeclV>, d: NameDeclV)
    requires
        ordered(s),
    ensures
        forall|name: Seq<char>| #[trigger]
            has_name(insert_decl(s, d), name) <==> has_name(s, name) || name == d.id.name,
        has_duplicate(insert_decl(s, d)) <==> has_duplicate(s) || has_name(s, d.id.name),
{
    let j = lemma_insert_slot(s, d);
    let r = insert_decl(s, d);
    // where each declaration of `s` stands in `r`, and back
    let up = |k: int|
        if k < j {
            k
        } else {
            k + 1
        };
    let down = |k: int|
        if k < j {
            k
        } else {
            k - 1
        };
    assert(r[j] == d);
    assert forall|k: int| 0 <= k < s.len() implies r[up(k)] == s[k] by {}
    assert forall|k: int| 0 <= k < r.len() && k != j implies r[k] == s[down(k)] by {}
    assert forall|name: Seq<char>| #[trigger]
        has_name(r, name) <==> has_name(s, name) || name == d.id.name by {
        if has_name(r, name) {
            let k = choose|k: int| 0 <= k < r.len() && (#[trigger] r[k]).id.name == name;
            if k != j {
                assert(s[down(k)].id.name == name);
            }
        }
        if has_name(s, name) {
            let k = choose|k: int| 0 <= k < s.len() && (#[trigger] s[k]).id.name == name;
            assert(r[up(k)].id.name == name);
        }
        if name == d.id.name {
            assert(r[j].id.name == name);
        }
    }
    if has_duplicate(r) {
        let (a, b) = choose|a: int, b: int|
            0 <= a < b < r.len() && (#[trigger] r[a]).id.name == (#[trigger] r[b]).id.name;
        if a == j {
            assert(s[down(b)].id.name == d.id.name);
        } else if b == j {
            assert(s[down(a)].id.name == d.id.name);
        } else {
            assert(s[down(a)].id.name == s[down(b)].id.name);
            assert(down(a) < down(b));
        }
    }
    if has_duplicate(s) {
        let (a, b) = choose|a: int, b: int|
            0 <= a < b < s.len() && (#[trigger] s[a]).id.name == (#[trigger] s[b]).id.name;
        assert(r[up(a)].id.name == r[up(b)].id.name);
        assert(up(a) < up(b));
    }
    if has_name(s, d.id.name) {
        let k = choose|k: int| 0 <= k < s.len() && (#[trigger] s[k]).id.name == d.id.name;
        if up(k) < j {
            assert(r[up(k)].id.name == r[j].id.name);
        } else {
            assert(r[j].id.name == r[up(k)].id.name);
        }
    }
}

/// Sorting keeps the names, and keeps whether a name comes twice.
#[verifier::rlimit(40)]
pub proof fn lemma_sorted_names(decls: Seq<NameDeclV>)
    ensures
        forall|name: Seq<char>| #[trigger]
            has_name(sorted_decls(decls), name) <==> has_name(decls, name),
        has_duplicate(sorted_decls(decls)) <==> has_duplicate(decls),
    decreases decls.len(),
{
    if decls.len() > 0 {
        let rest = decls.drop_last();
        let d = decls.last();
        lemma_sorted_names(rest);
        lemma_sorted_ordered(rest);
        lemma_insert_names(sorted_decls(rest), d);
        assert forall|name: Seq<char>| #[trigger]
            has_name(decls, name) <==> has_name(rest, name) || name == d.id.name by {
            if has_name(decls, name) {
                let k = choose|k: int| 0 <= k < decls.len() && (#[trigger] decls[k]).id.name == name;
                if k < rest.len() {
                    assert(rest[k].id.name == name);
                }
            }
            if has_name(rest, name) {
                let k = choose|k: int| 0 <= k < rest.len() && (#[trigger] rest[k]).id.name == name;
                assert(decls[k].id.name == name);
            }
            if name == d.id.name {
                assert(decls[decls.len() - 1].id.name == name);
            }
        }
        if has_duplicate(decls) {
            let (a, b) = choose|a: int, b: int|
                0 <= a < b < decls.len() && (#[trigger] decls[a]).id.name == (
                #[trigger] decls[b]).id.name;
            if b < rest.len() {
                assert(rest[a].id.name == rest[b].id.name);
            } else {
                assert(rest[a].id.name == d.id.name);
            }
        }
        if has_duplicate(rest) {
            let (a, b) = choose|a: int, b: int|
                0 <= a < b < rest.len() && (#[trigger] rest[a]).id.name == (
                #[trigger] rest[b]).id.name;
            assert(decls[a].id.name == decls[b].id.name);
        }
        if has_name(rest, d.id.name) {
            let k = choose|k: int| 0 <= k < rest.len() && (#[trigger] rest[k]).id.name == d.id.name;
            assert(decls[k].id.name == decls[decls.len() - 1].id.name);
        }
    } else {
        assert(!has_duplicate(decls));
        assert forall|name: Seq<char>| !has_name(decls, name) by {}
    }
}

/// Two neighbours of the same name at or after `from` are found.
pub proof fn lemma_neighbours_found(s: Seq<NameDeclV>, from: int, at: int)
    requires
        0 <= from <= at,
        at + 1 < s.len(),
        s[at].id.name == s[at + 1].id.name,
    ensures
        first_duplicate(s, from) is Some,
    decreases at - from,
{
    if from < at && s[from].id.name != s[from + 1].id.name {
        lemma_neighbours_found(s, from + 1, at);
    }
}

/// In an ordered list a name that comes twice comes twice in a row.
pub proof fn lemma_duplicate_adjacent(s: Seq<NameDeclV>)
    requires
        ordered(s),
        has_duplicate(s),
    ensures
        first_duplicate(s, 0) is Some,
{
    let (a, b) = choose|a: int, b: int|
        0 <= a < b < s.len() && (#[trigger] s[a]).id.name == (#[trigger] s[b]).id.name;
    if a + 1 < b {
        assert(lex_le(s[a].id.name, s[a + 1].id.name));
        assert(lex_le(s[a + 1].id.name, s[b].id.name));
        lemma_le_antisymmetric(s[a].id.name, s[a + 1].id.name);
    }
    lemma_neighbours_found(s, 0, a);
}

/// Uniqueness: the declarations of a `new` are found to hold a duplicate
/// exactly if two of them bear the same name, wherever in the list they
/// stand.
pub proof fn lemma_duplicates_found(decls: Seq<NameDeclV>)
    ensures
        first_duplicate(sorted_decls(decls), 0) is Some <==> has_duplicate(decls),
{
    let sorted = sorted_decls(decls);
    lemma_sorted_ordered(decls);
    lemma_sorted_names(decls);
    if has_duplicate(decls) {
        lemma_duplicate_adjacent(sorted);
    }
    if first_duplicate(sorted, 0) is Some {
        crate::parser::plan::lemma_first_duplicate(sorted, 0);
        let i = first_duplicate(sorted, 0)->0;
        assert(sorted[i].id.name == sorted[i + 1].id.name);
    }
}

} // verus!
