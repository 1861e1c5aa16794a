use vstd::prelude::*;

verus! {

/// The position of the first of the first `n` names that equals `name`.
pub open spec fn first_index_in(names: Seq<Seq<char>>, name: Seq<char>, n: nat) -> Option<int>
    decreases n,
{
    if n == 0 {
        None
    } else {
        match first_index_in(names, name, (n - 1) as nat) {
            Some(i) => Some(i),
            None => if names[n - 1] == name {
                Some(n - 1)
            } else {
                None
            },
        }
    }
}

/// The position of the first name in `names` that equals `name`.
pub open spec fn first_index(names: Seq<Seq<char>>, name: Seq<char>) -> Option<int> {
    first_index_in(names, name, names.len())
}

/// What `first_index` means: the least position holding `name`, or none
/// when no position holds it.
pub proof fn lemma_first_index(names: Seq<Seq<char>>, name: Seq<char>)
    ensures
        first_index(names, name) matches Some(i) ==> 0 <= i < names.len() && names[i] == name && (
        forall|j: int| 0 <= j < i ==> names[j] != name),
        first_index(names, name) is None ==> forall|j: int| 0 <= j < names.len() ==> names[j] != name,
{
    lemma_first_index_in(names, name, names.len());
}

proof fn lemma_first_index_in(names: Seq<Seq<char>>, name: Seq<char>, n: nat)
    requires
        n <= names.len(),
    ensures
        first_index_in(names, name, n) matches Some(i) ==> 0 <= i < n && names[i] == name && (
        forall|j: int| 0 <= j < i ==> names[j] != name),
        first_index_in(names, name, n) is None ==> forall|j: int| 0 <= j < n ==> names[j] != name,
    decreases n,
{
    if n > 0 {
        lemma_first_index_in(names, name, (n - 1) as nat);
    }
}

/// No two of the names are equal.
pub open spec fn names_distinct(names: Seq<Seq<char>>) -> bool {
    forall|i: int, j: int| 0 <= i < j < names.len() ==> names[i] != names[j]
}

/// With distinct names, a name is found exactly at the one position that
/// holds it.
pub proof fn lemma_first_index_distinct(names: Seq<Seq<char>>, i: int)
    requires
        names_distinct(names),
        0 <= i < names.len(),
    ensures
        first_index(names, names[i]) == Some(i),
{
    lemma_first_index(names, names[i]);
    if let Some(k) = first_index(names, names[i]) {
        if k != i {
            if k < i {
                assert(names[k] != names[i]);
            } else {
                assert(names[i] != names[i]);
            }
        }
    }
}

/// Once a match is found below `m`, looking further does not change it.
pub proof fn lemma_first_index_stable(names: Seq<Seq<char>>, name: Seq<char>, m: nat, n: nat)
    requires
        m <= n,
        first_index_in(names, name, m) is Some,
    ensures
        first_index_in(names, name, n) == first_index_in(names, name, m),
    decreases n - m,
{
    if n > m {
        lemma_first_index_stable(names, name, m, (n - 1) as nat);
    }
}


/// The first item, in order, for which `predicate` answered `true`: every
/// earlier item was answered `false`. `None` when every item was answered
/// `false`.
pub open spec fn is_first_found<T, P: Fn(&T) -> bool>(
    items: Seq<T>,
    predicate: P,
    res: Option<T>,
) -> bool {
    match res {
        Some(found) => exists|i: int|
            0 <= i < items.len() && found == items[i] && call_ensures(
                predicate,
                (&items[i],),
                true,
            ) && forall|j: int|
                0 <= j < i ==> call_ensures(predicate, (#[trigger] &items[j],), false),
        None => forall|j: int|
            0 <= j < items.len() ==> call_ensures(predicate, (#[trigger] &items[j],), false),
    }
}

/// Takes items from the front until `predicate` accepts one.
pub fn find_first<T, P: Fn(&T) -> bool>(items: Vec<T>, predicate: P) -> (res: Option<T>)
    requires
        forall|t: &T| call_requires(predicate, (t,)),
    ensures
        is_first_found(items@, predicate, res),
{
    let ghost all = items@;
    let mut rest = items;
    let ghost mut taken: int = 0;
    while rest.len() > 0
        invariant
            forall|t: &T| call_requires(predicate, (t,)),
            0 <= taken <= all.len(),
            all == items@,
            rest@ == all.subrange(taken, all.len() as int),
            forall|j: int| 0 <= j < taken ==> call_ensures(predicate, (#[trigger] &all[j],), false),
        decreases rest.len(),
    {
        let item = rest.remove(0);
        assert(item == all[taken]);
        if predicate(&item) {
            assert(call_ensures(predicate, (&all[taken],), true));
            assert(0 <= taken < all.len() && item == all[taken]);
            assert(forall|j: int| 0 <= j < taken ==> call_ensures(predicate, (#[trigger] &all[j],), false));
            assert(is_first_found(all, predicate, Some(item)));
            return Some(item);
        }
        proof {
            taken = taken + 1;
        }
        assert(rest@ =~= all.subrange(taken, all.len() as int));
    }
    None
}


/// No name below `n` matches, so there is no first match below `n`.
pub proof fn lemma_first_index_none(names: Seq<Seq<char>>, name: Seq<char>, n: nat)
    requires
        n <= names.len(),
        forall|j: int| 0 <= j < n ==> names[j] != name,
    ensures
        first_index_in(names, name, n) is None,
    decreases n,
{
    if n > 0 {
        lemma_first_index_none(names, name, (n - 1) as nat);
    }
}

} // verus!
