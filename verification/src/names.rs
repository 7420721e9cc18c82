//! The contract names that the driver lists: ascending, each once.
use vstd::prelude::*;
use vstd::string::*;

use crate::outside::{ascending, at_most, dedup, join, joined, sorted, without_repeats};
use crate::protocol::{namespace_views, ContractInfo, NamespaceInfo, NamespaceView};
use crate::text::texts;

verus! {

/// Whether `a` comes before `b` in the order of strings.
pub open spec fn before(a: Seq<char>, b: Seq<char>) -> bool {
    at_most(a, b) && a != b
}

/// Whether every text of the list comes before each later one.
pub open spec fn strictly_ascending(list: Seq<Seq<char>>) -> bool {
    forall|i: int, j: int| 0 <= i < j < list.len() ==> #[trigger] before(list[i], list[j])
}

/// An ascending list with `name` put where it belongs, unless it is there.
pub open spec fn insert_name(list: Seq<Seq<char>>, name: Seq<char>) -> Seq<Seq<char>>
    decreases list.len(),
{
    if list.len() == 0 {
        seq![name]
    } else if list.last() == name {
        list
    } else if at_most(list.last(), name) {
        list.push(name)
    } else {
        insert_name(list.drop_last(), name).push(list.last())
    }
}

/// The names in ascending order, each once.
pub open spec fn name_listing(names: Seq<Seq<char>>) -> Seq<Seq<char>>
    decreases names.len(),
{
    if names.len() == 0 {
        Seq::empty()
    } else {
        insert_name(name_listing(names.drop_last()), names.last())
    }
}

/// The names of the concrete contracts, in order.
pub open spec fn concrete_of(contracts: Seq<ContractInfo>) -> Seq<Seq<char>>
    decreases contracts.len(),
{
    if contracts.len() == 0 {
        Seq::empty()
    } else {
        let front = concrete_of(contracts.drop_last());
        if contracts.last().is_concrete {
            front.push(contracts.last().name@)
        } else {
            front
        }
    }
}

/// The names of the concrete contracts of all files, in order.
pub open spec fn concrete_names(namespaces: Seq<NamespaceView>) -> Seq<Seq<char>>
    decreases namespaces.len(),
{
    if namespaces.len() == 0 {
        Seq::empty()
    } else {
        concrete_names(namespaces.drop_last()) + concrete_of(namespaces.last().contracts)
    }
}

/// Whether `name` is that of a concrete contract of one of the files.
pub open spec fn is_concrete_name(namespaces: Seq<NamespaceInfo>, name: Seq<char>) -> bool {
    exists|n: int, c: int|
        0 <= n < namespaces.len() && 0 <= c < namespaces[n].contracts@.len() && (
        #[trigger] namespaces[n].contracts@[c]).is_concrete && namespaces[n].contracts@[c].name@
            == name
}

proof fn concrete_of_holds(contracts: Seq<ContractInfo>, name: Seq<char>)
    ensures
        concrete_of(contracts).contains(name) <==> exists|c: int|
            0 <= c < contracts.len() && (#[trigger] contracts[c]).is_concrete && contracts[c].name@
                == name,
    decreases contracts.len(),
{
    if contracts.len() > 0 {
        let front = contracts.drop_last();
        let last = contracts.len() - 1;
        concrete_of_holds(front, name);
        let held = concrete_of(front);
        let whole = concrete_of(contracts);
        if held.contains(name) {
            let c = choose|c: int|
                0 <= c < front.len() && (#[trigger] front[c]).is_concrete && front[c].name@ == name;
            assert(contracts[c].is_concrete);
            let k = held.index_of(name);
            assert(whole[k] == name);
        }
        if contracts.last().is_concrete && contracts.last().name@ == name {
            assert(contracts[last].is_concrete);
            assert(whole[held.len() as int] == name);
        }
        if whole.contains(name) && !held.contains(name) {
            let k = whole.index_of(name);
            if k < held.len() {
                assert(held[k] == name);
            }
            assert(contracts[last].is_concrete);
        }
        if exists|c: int|
            0 <= c < contracts.len() && (#[trigger] contracts[c]).is_concrete && contracts[c].name@
                == name {
            let c = choose|c: int|
                0 <= c < contracts.len() && (#[trigger] contracts[c]).is_concrete
                    && contracts[c].name@ == name;
            if c < last {
                assert(front[c].is_concrete);
            }
        }
    }
}

/// The names collected are exactly those of the concrete contracts of the files.
pub proof fn concrete_names_are_those_of_concrete_contracts(
    namespaces: Seq<NamespaceView>,
    name: Seq<char>,
)
    ensures
        concrete_names(namespaces).contains(name) <==> exists|n: int, c: int|
            0 <= n < namespaces.len() && 0 <= c < namespaces[n].contracts.len() && (
            #[trigger] namespaces[n].contracts[c]).is_concrete && namespaces[n].contracts[c].name@
                == name,
    decreases namespaces.len(),
{
    if namespaces.len() > 0 {
        let front = namespaces.drop_last();
        let last = namespaces.len() - 1;
        let mine = concrete_of(namespaces.last().contracts);
        let theirs = concrete_names(front);
        let whole = concrete_names(namespaces);
        concrete_names_are_those_of_concrete_contracts(front, name);
        concrete_of_holds(namespaces.last().contracts, name);
        if theirs.contains(name) {
            let (n, c) = choose|n: int, c: int|
                0 <= n < front.len() && 0 <= c < front[n].contracts.len() && (
                #[trigger] front[n].contracts[c]).is_concrete && front[n].contracts[c].name@
                    == name;
            assert(namespaces[n].contracts[c].is_concrete);
            let k = theirs.index_of(name);
            assert(whole[k] == name);
        }
        if mine.contains(name) {
            let contracts = namespaces.last().contracts;
            let c = choose|c: int|
                0 <= c < contracts.len() && (#[trigger] contracts[c]).is_concrete
                    && contracts[c].name@ == name;
            assert(namespaces[last].contracts[c].is_concrete);
            let k = mine.index_of(name);
            assert(whole[theirs.len() + k] == name);
        }
        if whole.contains(name) {
            let k = whole.index_of(name);
            if k < theirs.len() {
                assert(theirs[k] == name);
            } else {
                assert(mine[k - theirs.len()] == name);
            }
        }
        if exists|n: int, c: int|
            0 <= n < namespaces.len() && 0 <= c < namespaces[n].contracts.len() && (
            #[trigger] namespaces[n].contracts[c]).is_concrete && namespaces[n].contracts[c].name@
                == name {
            let (n, c) = choose|n: int, c: int|
                0 <= n < namespaces.len() && 0 <= c < namespaces[n].contracts.len() && (
                #[trigger] namespaces[n].contracts[c]).is_concrete
                    && namespaces[n].contracts[c].name@ == name;
            if n < last {
                assert(front[n].contracts[c].is_concrete);
            } else {
                assert(namespaces.last().contracts[c].is_concrete);
            }
        }
    }
}

/// One text is at most another where it begins it, or where at the first place in which they differ
/// its code point is the smaller one.
pub proof fn order_goes_by_the_first_difference(a: Seq<char>, b: Seq<char>)
    ensures
        at_most(a, b) <==> a.is_prefix_of(b) || exists|i: int|
            0 <= i < a.len() && i < b.len() && a.take(i) == b.take(i) && (
            #[trigger] a[i] as int) < (b[i] as int),
    decreases a.len(),
{
    if a.len() > 0 && b.len() > 0 {
        let x = a.drop_first();
        let y = b.drop_first();
        order_goes_by_the_first_difference(x, y);
        if a[0] == b[0] {
            assert(a.is_prefix_of(b) <==> x.is_prefix_of(y)) by {
                if x.is_prefix_of(y) {
                    assert forall|i: int| 0 <= i < a.len() implies a[i] == b.subrange(
                        0,
                        a.len() as int,
                    )[i] by {
                        if i > 0 {
                            assert(x[i - 1] == y.subrange(0, x.len() as int)[i - 1]);
                        }
                    }
                    assert(a =~= b.subrange(0, a.len() as int));
                }
                if a.is_prefix_of(b) {
                    assert forall|i: int| 0 <= i < x.len() implies x[i] == y.subrange(
                        0,
                        x.len() as int,
                    )[i] by {
                        assert(a[i + 1] == b.subrange(0, a.len() as int)[i + 1]);
                    }
                    assert(x =~= y.subrange(0, x.len() as int));
                }
            }
            if exists|i: int|
                0 <= i < x.len() && i < y.len() && x.take(i) == y.take(i) && (
                #[trigger] x[i] as int) < (y[i] as int) {
                let i = choose|i: int|
                    0 <= i < x.len() && i < y.len() && x.take(i) == y.take(i) && (
                    #[trigger] x[i] as int) < (y[i] as int);
                assert(a.take(i + 1) =~= seq![a[0]] + x.take(i));
                assert(b.take(i + 1) =~= seq![b[0]] + y.take(i));
                assert((a[i + 1] as int) < (b[i + 1] as int));
            }
            if exists|i: int|
                0 <= i < a.len() && i < b.len() && a.take(i) == b.take(i) && (
                #[trigger] a[i] as int) < (b[i] as int) {
                let i = choose|i: int|
                    0 <= i < a.len() && i < b.len() && a.take(i) == b.take(i) && (
                    #[trigger] a[i] as int) < (b[i] as int);
                assert(x.take(i - 1) =~= a.take(i).drop_first());
                assert(y.take(i - 1) =~= b.take(i).drop_first());
                assert((x[i - 1] as int) < (y[i - 1] as int));
            }
        } else {
            assert(a.take(0) =~= b.take(0));
            if a.is_prefix_of(b) {
                assert(a[0] == b.subrange(0, a.len() as int)[0]);
            }
            if exists|i: int|
                0 <= i < a.len() && i < b.len() && a.take(i) == b.take(i) && (
                #[trigger] a[i] as int) < (b[i] as int) {
                let i = choose|i: int|
                    0 <= i < a.len() && i < b.len() && a.take(i) == b.take(i) && (
                    #[trigger] a[i] as int) < (b[i] as int);
                if i > 0 {
                    assert(a.take(i)[0] == b.take(i)[0]);
                }
            }
        }
    } else if a.len() == 0 {
        assert(a =~= b.subrange(0, 0));
    }
}

/// The order of strings goes one way or the other.
pub proof fn order_is_total(a: Seq<char>, b: Seq<char>)
    ensures
        at_most(a, b) || at_most(b, a),
    decreases a.len(),
{
    if a.len() > 0 && b.len() > 0 && a[0] == b[0] {
        order_is_total(a.drop_first(), b.drop_first());
    }
}

/// Texts that are at most each other are the same.
pub proof fn order_is_antisymmetric(a: Seq<char>, b: Seq<char>)
    requires
        at_most(a, b),
        at_most(b, a),
    ensures
        a == b,
    decreases a.len(),
{
    if a.len() > 0 && b.len() > 0 {
        assert(a[0] == b[0]);
        order_is_antisymmetric(a.drop_first(), b.drop_first());
        assert(a =~= seq![a[0]] + a.drop_first());
        assert(b =~= seq![b[0]] + b.drop_first());
    } else {
        assert(a =~= b);
    }
}

/// The order of strings carries over.
pub proof fn order_is_transitive(a: Seq<char>, b: Seq<char>, c: Seq<char>)
    requires
        at_most(a, b),
        at_most(b, c),
    ensures
        at_most(a, c),
    decreases a.len(),
{
    if a.len() > 0 && a[0] == b[0] && b[0] == c[0] {
        order_is_transitive(a.drop_first(), b.drop_first(), c.drop_first());
    }
}

/// Putting a name into a strictly ascending list keeps it so and adds just that name.
proof fn insert_name_keeps_order(list: Seq<Seq<char>>, name: Seq<char>)
    requires
        strictly_ascending(list),
    ensures
        strictly_ascending(insert_name(list, name)),
        forall|x: Seq<char>| #[trigger]
            insert_name(list, name).contains(x) <==> list.contains(x) || x == name,
    decreases list.len(),
{
    let r = insert_name(list, name);
    if list.len() == 0 {
        assert(r[0] == name);
    } else if list.last() == name {
        assert(list[list.len() - 1] == name);
    } else if at_most(list.last(), name) {
        let n = list.len() as int;
        assert forall|i: int, j: int| 0 <= i < j < r.len() implies #[trigger] before(r[i], r[j]) by {
            if j == n {
                if i < n - 1 {
                    assert(before(list[i], list[n - 1]));
                    order_is_transitive(list[i], list.last(), name);
                    if list[i] == name {
                        order_is_antisymmetric(list.last(), name);
                    }
                }
            } else {
                assert(before(list[i], list[j]));
            }
        }
        assert forall|x: Seq<char>| #[trigger] r.contains(x) <==> list.contains(x) || x == name by {
            if list.contains(x) {
                let k = list.index_of(x);
                assert(r[k] == x);
            }
            assert(r[n] == name);
        }
    } else {
        let front = list.drop_last();
        let n = list.len() as int;
        assert forall|i: int, j: int| 0 <= i < j < front.len() implies #[trigger] before(
            front[i],
            front[j],
        ) by {
            assert(before(list[i], list[j]));
        }
        insert_name_keeps_order(front, name);
        let inner = insert_name(front, name);
        order_is_total(list.last(), name);
        assert forall|i: int, j: int| 0 <= i < j < r.len() implies #[trigger] before(r[i], r[j]) by {
            if j == inner.len() {
                assert(inner.contains(inner[i]));
                if inner[i] != name {
                    let k = front.index_of(inner[i]);
                    assert(before(list[k], list[n - 1]));
                }
            } else {
                assert(before(inner[i], inner[j]));
            }
        }
        assert forall|x: Seq<char>| #[trigger] r.contains(x) <==> list.contains(x) || x == name by {
            if list.contains(x) {
                let k = list.index_of(x);
                if k < n - 1 {
                    assert(front[k] == x);
                    assert(inner.contains(x));
                    let m = inner.index_of(x);
                    assert(r[m] == x);
                } else {
                    assert(r[inner.len() as int] == x);
                }
            }
            if x == name {
                assert(inner.contains(x));
                let m = inner.index_of(x);
                assert(r[m] == x);
            }
            if r.contains(x) {
                let m = r.index_of(x);
                if m < inner.len() {
                    assert(inner[m] == x);
                    assert(inner.contains(x));
                    if x != name {
                        assert(front.contains(x));
                        let k = front.index_of(x);
                        assert(list[k] == x);
                    }
                } else {
                    assert(list[n - 1] == x);
                }
            }
        }
    }
}

/// A listing is strictly ascending and holds exactly the names listed.
pub proof fn listing_is_ascending_and_complete(names: Seq<Seq<char>>)
    ensures
        strictly_ascending(name_listing(names)),
        forall|x: Seq<char>| #[trigger] name_listing(names).contains(x) <==> names.contains(x),
    decreases names.len(),
{
    if names.len() > 0 {
        let front = names.drop_last();
        listing_is_ascending_and_complete(front);
        insert_name_keeps_order(name_listing(front), names.last());
        assert forall|x: Seq<char>| #[trigger] name_listing(names).contains(x) <==> names.contains(
            x,
        ) by {
            if names.contains(x) && x != names.last() {
                let k = names.index_of(x);
                assert(front[k] == x);
                assert(name_listing(front).contains(x));
            }
            if x == names.last() {
                assert(names[names.len() - 1] == x);
            }
            if name_listing(front).contains(x) {
                assert(front.contains(x));
                let k = front.index_of(x);
                assert(names[k] == x);
            }
        }
    }
}

/// Two strictly ascending lists of the same texts are the same list.
pub proof fn ascending_list_is_unique(a: Seq<Seq<char>>, b: Seq<Seq<char>>)
    requires
        strictly_ascending(a),
        strictly_ascending(b),
        forall|x: Seq<char>| #[trigger] a.contains(x) <==> b.contains(x),
    ensures
        a == b,
    decreases a.len(),
{
    if a.len() == 0 {
        if b.len() > 0 {
            assert(b.contains(b[0]));
            assert(a.contains(b[0]));
        }
        assert(a =~= b);
    } else {
        assert(a.contains(a[0]));
        assert(b.contains(a[0]));
        let m = a.len() - 1;
        let n = b.len() - 1;
        assert(a.contains(a[m]));
        assert(b.contains(b[n]));
        assert(b.contains(a[m]) && a.contains(b[n]));
        let i = b.index_of(a[m]);
        let j = a.index_of(b[n]);
        assert(b[i] == a[m] && a[j] == b[n]);
        if i < n && j < m {
            assert(before(b[i], b[n]));
            assert(before(a[j], a[m]));
            order_is_antisymmetric(a[m], b[n]);
        }
        assert(a[m] == b[n]);
        let x = a.drop_last();
        let y = b.drop_last();
        assert forall|p: int, q: int| 0 <= p < q < x.len() implies #[trigger] before(
            x[p],
            x[q],
        ) by {
            assert(before(a[p], a[q]));
        }
        assert forall|p: int, q: int| 0 <= p < q < y.len() implies #[trigger] before(
            y[p],
            y[q],
        ) by {
            assert(before(b[p], b[q]));
        }
        assert forall|t: Seq<char>| #[trigger] x.contains(t) <==> y.contains(t) by {
            if x.contains(t) {
                let k = x.index_of(t);
                assert(a[k] == t);
                assert(a.contains(t));
                assert(b.contains(t));
                assert(before(a[k], a[m]));
                let l = b.index_of(t);
                assert(y[l] == t);
            }
            if y.contains(t) {
                let k = y.index_of(t);
                assert(b[k] == t);
                assert(b.contains(t));
                assert(a.contains(t));
                assert(before(b[k], b[n]));
                let l = a.index_of(t);
                assert(x[l] == t);
            }
        }
        ascending_list_is_unique(x, y);
        assert(a =~= x.push(a[m]));
        assert(b =~= y.push(b[n]));
    }
}

/// Cutting the repeats out of an ascending list makes it strictly ascending and loses no text.
proof fn repeats_cut_from_ascending(list: Seq<Seq<char>>)
    requires
        ascending(list),
    ensures
        strictly_ascending(without_repeats(list)),
        forall|x: Seq<char>| #[trigger] without_repeats(list).contains(x) <==> list.contains(x),
        list.len() > 0 ==> without_repeats(list).len() > 0 && without_repeats(list).last()
            == list.last(),
    decreases list.len(),
{
    if list.len() > 1 {
        let front = list.drop_last();
        let n = list.len() - 1;
        assert forall|i: int, j: int| 0 <= i < j < front.len() implies #[trigger] at_most(
            front[i],
            front[j],
        ) by {
            assert(at_most(list[i], list[j]));
        }
        repeats_cut_from_ascending(front);
        let inner = without_repeats(front);
        let r = without_repeats(list);
        assert(front.last() == list[n - 1]);
        assert(at_most(list[n - 1], list[n]));
        if list[n - 1] != list.last() {
            assert forall|i: int, j: int| 0 <= i < j < r.len() implies #[trigger] before(
                r[i],
                r[j],
            ) by {
                if j == inner.len() {
                    if i < inner.len() - 1 {
                        assert(before(inner[i], inner[inner.len() - 1]));
                        order_is_transitive(inner[i], list[n - 1], list[n]);
                        if inner[i] == list[n] {
                            order_is_antisymmetric(list[n - 1], list[n]);
                        }
                    }
                } else {
                    assert(before(inner[i], inner[j]));
                }
            }
        }
        assert forall|x: Seq<char>| #[trigger] r.contains(x) <==> list.contains(x) by {
            if list.contains(x) {
                let k = list.index_of(x);
                if k < n {
                    assert(front[k] == x);
                    assert(inner.contains(x));
                    let m = inner.index_of(x);
                    assert(r[m] == x);
                } else {
                    assert(r.last() == x);
                    assert(r[r.len() - 1] == x);
                }
            }
            if r.contains(x) {
                let m = r.index_of(x);
                if m < inner.len() {
                    assert(inner[m] == x);
                    assert(inner.contains(x));
                    assert(front.contains(x));
                    let k = front.index_of(x);
                    assert(list[k] == x);
                } else {
                    assert(list[n] == x);
                }
            }
        }
    }
}

/// The names of the concrete contracts of all files, in order.
fn collect_names(namespaces: &Vec<NamespaceInfo>) -> (r: Vec<String>)
    ensures
        texts(r@) == concrete_names(namespace_views(namespaces@)),
{
    let ghost files = namespace_views(namespaces@);
    let mut names: Vec<String> = Vec::new();
    assert(texts(names@) =~= Seq::<Seq<char>>::empty());
    let mut n: usize = 0;
    while n < namespaces.len()
        invariant
            n <= namespaces@.len(),
            files == namespace_views(namespaces@),
            texts(names@) == concrete_names(files.take(n as int)),
        decreases namespaces@.len() - n,
    {
        let contracts = &namespaces[n].contracts;
        let ghost start = texts(names@);
        assert(contracts@.take(0) =~= Seq::<ContractInfo>::empty());
        assert(start + concrete_of(contracts@.take(0)) =~= start);
        let mut c: usize = 0;
        while c < contracts.len()
            invariant
                c <= contracts@.len(),
                texts(names@) == start + concrete_of(contracts@.take(c as int)),
            decreases contracts@.len() - c,
        {
            let ghost upto = contracts@.take(c + 1);
            assert(upto.drop_last() =~= contracts@.take(c as int));
            let ghost so_far = names@;
            if contracts[c].is_concrete {
                names.push(contracts[c].name.clone());
                assert(texts(names@) =~= texts(so_far).push(contracts@[c as int].name@));
            }
            assert(upto.last() == contracts@[c as int]);
            assert(texts(names@) =~= start + concrete_of(upto));
            c = c + 1;
        }
        assert(contracts@.take(c as int) =~= contracts@);
        assert(files.take(n + 1).drop_last() =~= files.take(n as int));
        n = n + 1;
    }
    assert(files.take(n as int) =~= files);
    names
}

/// Lists the names of the concrete contracts of all files in ascending order, each once, with a
/// comma and a space between neighbours.
pub fn list_names(namespaces: &Vec<NamespaceInfo>) -> (r: String)
    ensures
        r@ == joined(name_listing(concrete_names(namespace_views(namespaces@))), ", "@),
        exists|list: Seq<Seq<char>>| #[trigger]
            joined(list, ", "@) == r@ && strictly_ascending(list) && forall|x: Seq<char>| #[trigger]
                list.contains(x) <==> is_concrete_name(namespaces@, x),
{
    let names = collect_names(namespaces);
    let ghost all = texts(names@);
    let ordered = sorted(names);
    let ghost ordered_texts = texts(ordered@);
    let listed = dedup(ordered);
    proof {
        repeats_cut_from_ascending(ordered_texts);
        listing_is_ascending_and_complete(all);
        all.to_multiset_ensures();
        ordered_texts.to_multiset_ensures();
        assert forall|x: Seq<char>| #[trigger]
            without_repeats(ordered_texts).contains(x) <==> name_listing(all).contains(x) by {
            assert(ordered_texts.to_multiset().count(x) == all.to_multiset().count(x));
            assert(ordered_texts.contains(x) <==> ordered_texts.to_multiset().count(x) > 0);
            assert(all.contains(x) <==> all.to_multiset().count(x) > 0);
        }
        ascending_list_is_unique(without_repeats(ordered_texts), name_listing(all));
        let list = name_listing(all);
        let files = namespace_views(namespaces@);
        assert forall|x: Seq<char>| #[trigger] list.contains(x) <==> is_concrete_name(
            namespaces@,
            x,
        ) by {
            concrete_names_are_those_of_concrete_contracts(files, x);
            assert(forall|n: int| 0 <= n < files.len() ==> (#[trigger] files[n]).contracts
                == namespaces@[n].contracts@);
            if list.contains(x) {
                let (n, c) = choose|n: int, c: int|
                    0 <= n < files.len() && 0 <= c < files[n].contracts.len() && (
                    #[trigger] files[n].contracts[c]).is_concrete && files[n].contracts[c].name@
                        == x;
                assert(namespaces@[n].contracts@[c].is_concrete);
            }
            if is_concrete_name(namespaces@, x) {
                let (n, c) = choose|n: int, c: int|
                    0 <= n < namespaces@.len() && 0 <= c < namespaces@[n].contracts@.len() && (
                    #[trigger] namespaces@[n].contracts@[c]).is_concrete
                        && namespaces@[n].contracts@[c].name@ == x;
                assert(files[n].contracts[c].is_concrete);
            }
        }
    }
    join(&listed, ", ")
}

} // verus!
