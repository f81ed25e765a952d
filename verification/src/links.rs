//! Links between products and categories or tags, kept as a list of pairs
//! in which no pair occurs twice. The first of a pair is the product.

use vstd::prelude::*;

verus! {

/// The pair is one of the links.
pub open spec fn linked(links: Seq<(u128, u128)>, product: u128, other: u128) -> bool {
    links.contains((product, other))
}

/// What a product is linked to.
pub open spec fn linked_to(links: Seq<(u128, u128)>, product: u128) -> Set<u128> {
    Set::new(|other: u128| linked(links, product, other))
}

/// Whether some link is one of `product`.
pub fn mentions(links: &Vec<(u128, u128)>, product: u128) -> (r: bool)
    ensures
        r == exists|other: u128| linked(links@, product, other),
{
    let mut i: usize = 0;
    while i < links.len()
        invariant
            i <= links.len(),
            forall|j: int| 0 <= j < i ==> links@[j].0 != product,
        decreases links.len() - i,
    {
        if links[i].0 == product {
            proof {
                assert(links@[i as int] == (product, links@[i as int].1));
                assert(linked(links@, product, links@[i as int].1));
            }
            return true;
        }
        i += 1;
    }
    proof {
        assert forall|other: u128| !linked(links@, product, other) by {
            if linked(links@, product, other) {
                let j = choose|j: int| 0 <= j < links@.len() && links@[j] == (product, other);
                assert(links@[j].0 == product);
            }
        }
    }
    false
}

/// Whether the pair is one of the links.
pub fn has_link(links: &Vec<(u128, u128)>, product: u128, other: u128) -> (r: bool)
    ensures
        r == linked(links@, product, other),
{
    let mut i: usize = 0;
    while i < links.len()
        invariant
            i <= links.len(),
            forall|j: int| 0 <= j < i ==> links@[j] != (product, other),
        decreases links.len() - i,
    {
        if links[i].0 == product && links[i].1 == other {
            proof {
                assert(links@[i as int] == (product, other));
            }
            return true;
        }
        i += 1;
    }
    false
}

/// The links without those of `product`.
pub fn without(links: &Vec<(u128, u128)>, product: u128) -> (r: Vec<(u128, u128)>)
    requires
        links@.no_duplicates(),
    ensures
        r@.no_duplicates(),
        forall|l: (u128, u128)| r@.contains(l) <==> links@.contains(l) && l.0 != product,
{
    let mut kept: Vec<(u128, u128)> = Vec::new();
    let mut i: usize = 0;
    while i < links.len()
        invariant
            i <= links.len(),
            links@.no_duplicates(),
            kept@.no_duplicates(),
            forall|l: (u128, u128)|
                kept@.contains(l) <==> (exists|j: int| 0 <= j < i && links@[j] == l) && l.0
                    != product,
        decreases links.len() - i,
    {
        let link = links[i];
        let ghost before = kept@;
        if link.0 != product {
            proof {
                if before.contains(link) {
                    let j = choose|j: int| 0 <= j < i && links@[j] == link;
                    assert(links@[j] == links@[i as int]);
                }
            }
            kept.push(link);
            proof {
                assert forall|l: (u128, u128)|
                    kept@.contains(l) <==> (exists|j: int| 0 <= j < i + 1 && links@[j] == l) && l.0
                        != product by {
                    if kept@.contains(l) {
                        let k = choose|k: int| 0 <= k < kept@.len() && kept@[k] == l;
                        if k < before.len() {
                            assert(before[k] == l);
                            assert(before.contains(l));
                            let j = choose|j: int| 0 <= j < i && links@[j] == l;
                            assert(0 <= j < i + 1 && links@[j] == l);
                        } else {
                            assert(links@[i as int] == l);
                        }
                    }
                    if (exists|j: int| 0 <= j < i + 1 && links@[j] == l) && l.0 != product {
                        let j = choose|j: int| 0 <= j < i + 1 && links@[j] == l;
                        if j < i {
                            assert(before.contains(l));
                            let k = choose|k: int| 0 <= k < before.len() && before[k] == l;
                            assert(kept@[k] == l);
                        } else {
                            assert(kept@[before.len() as int] == l);
                        }
                    }
                }
            }
        } else {
            proof {
                assert forall|l: (u128, u128)|
                    kept@.contains(l) <==> (exists|j: int| 0 <= j < i + 1 && links@[j] == l) && l.0
                        != product by {
                    if kept@.contains(l) {
                        let j = choose|j: int| 0 <= j < i && links@[j] == l;
                        assert(0 <= j < i + 1 && links@[j] == l);
                    }
                    if (exists|j: int| 0 <= j < i + 1 && links@[j] == l) && l.0 != product {
                        let j = choose|j: int| 0 <= j < i + 1 && links@[j] == l;
                        assert(j < i);
                    }
                }
            }
        }
        i += 1;
    }
    proof {
        assert forall|l: (u128, u128)| kept@.contains(l) <==> links@.contains(l) && l.0
            != product by {
            if links@.contains(l) {
                let j = choose|j: int| 0 <= j < links@.len() && links@[j] == l;
                assert(0 <= j < i && links@[j] == l);
            }
        }
    }
    kept
}

/// The links in which `product` is linked to exactly `others`; the links of
/// other products stay.
pub fn replaced(links: &Vec<(u128, u128)>, product: u128, others: &Vec<u128>) -> (r: Vec<
    (u128, u128),
>)
    requires
        links@.no_duplicates(),
    ensures
        r@.no_duplicates(),
        forall|l: (u128, u128)|
            r@.contains(l) <==> (if l.0 == product {
                others@.contains(l.1)
            } else {
                links@.contains(l)
            }),
{
    let mut out = without(links, product);
    let ghost kept = out@;
    let mut i: usize = 0;
    while i < others.len()
        invariant
            i <= others.len(),
            out@.no_duplicates(),
            forall|l: (u128, u128)| kept.contains(l) <==> links@.contains(l) && l.0 != product,
            forall|l: (u128, u128)|
                out@.contains(l) <==> (if l.0 == product {
                    exists|j: int| 0 <= j < i && others@[j] == l.1
                } else {
                    kept.contains(l)
                }),
        decreases others.len() - i,
    {
        let other = others[i];
        let ghost before = out@;
        if !has_link(&out, product, other) {
            out.push((product, other));
            proof {
                assert forall|l: (u128, u128)|
                    out@.contains(l) <==> (if l.0 == product {
                        exists|j: int| 0 <= j < i + 1 && others@[j] == l.1
                    } else {
                        kept.contains(l)
                    }) by {
                    if out@.contains(l) {
                        let k = choose|k: int| 0 <= k < out@.len() && out@[k] == l;
                        if k < before.len() {
                            assert(before[k] == l);
                            assert(before.contains(l));
                            if l.0 == product {
                                let j = choose|j: int| 0 <= j < i && others@[j] == l.1;
                                assert(0 <= j < i + 1 && others@[j] == l.1);
                            }
                        } else {
                            assert(l == (product, other));
                            assert(0 <= i < i + 1 && others@[i as int] == l.1);
                        }
                    }
                    if l.0 == product {
                        if exists|j: int| 0 <= j < i + 1 && others@[j] == l.1 {
                            let j = choose|j: int| 0 <= j < i + 1 && others@[j] == l.1;
                            if j < i {
                                assert(before.contains(l));
                                let k = choose|k: int| 0 <= k < before.len() && before[k] == l;
                                assert(out@[k] == l);
                            } else {
                                assert(out@[before.len() as int] == l);
                            }
                        }
                    } else {
                        if kept.contains(l) {
                            assert(before.contains(l));
                            let k = choose|k: int| 0 <= k < before.len() && before[k] == l;
                            assert(out@[k] == l);
                        }
                    }
                }
            }
        } else {
            proof {
                assert forall|l: (u128, u128)|
                    out@.contains(l) <==> (if l.0 == product {
                        exists|j: int| 0 <= j < i + 1 && others@[j] == l.1
                    } else {
                        kept.contains(l)
                    }) by {
                    if l.0 == product {
                        if out@.contains(l) {
                            let j = choose|j: int| 0 <= j < i && others@[j] == l.1;
                            assert(0 <= j < i + 1 && others@[j] == l.1);
                        }
                        if exists|j: int| 0 <= j < i + 1 && others@[j] == l.1 {
                            let j = choose|j: int| 0 <= j < i + 1 && others@[j] == l.1;
                            if j == i {
                                assert(l == (product, other));
                            }
                        }
                    }
                }
            }
        }
        i += 1;
    }
    proof {
        assert forall|l: (u128, u128)|
            out@.contains(l) <==> (if l.0 == product {
                others@.contains(l.1)
            } else {
                links@.contains(l)
            }) by {
            if l.0 == product && others@.contains(l.1) {
                let j = choose|j: int| 0 <= j < others@.len() && others@[j] == l.1;
                assert(0 <= j < i && others@[j] == l.1);
            }
        }
    }
    out
}

/// The number of links of `product`.
pub fn count(links: &Vec<(u128, u128)>, product: u128) -> (n: usize)
    requires
        links@.no_duplicates(),
    ensures
        n == linked_to(links@, product).len(),
        linked_to(links@, product).finite(),
{
    let mut n: usize = 0;
    let mut i: usize = 0;
    let ghost mut seen: Set<u128> = Set::empty();
    while i < links.len()
        invariant
            i <= links.len(),
            links@.no_duplicates(),
            n <= i,
            seen.finite(),
            n == seen.len(),
            forall|other: u128|
                seen.contains(other) <==> exists|j: int| 0 <= j < i && links@[j] == (product, other),
        decreases links.len() - i,
    {
        let ghost before = seen;
        if links[i].0 == product {
            let ghost other = links@[i as int].1;
            proof {
                if before.contains(other) {
                    let j = choose|j: int| 0 <= j < i && links@[j] == (product, other);
                    assert(links@[j] == links@[i as int]);
                }
                seen = before.insert(other);
                assert forall|o: u128|
                    seen.contains(o) <==> exists|j: int|
                        0 <= j < i + 1 && links@[j] == (product, o) by {
                    if before.contains(o) {
                        let j = choose|j: int| 0 <= j < i && links@[j] == (product, o);
                        assert(0 <= j < i + 1 && links@[j] == (product, o));
                    }
                    if o == other {
                        assert(0 <= i < i + 1 && links@[i as int] == (product, o));
                    }
                    if exists|j: int| 0 <= j < i + 1 && links@[j] == (product, o) {
                        let j = choose|j: int| 0 <= j < i + 1 && links@[j] == (product, o);
                        if j < i {
                            assert(before.contains(o));
                        }
                    }
                }
            }
            n += 1;
        } else {
            proof {
                assert forall|o: u128|
                    seen.contains(o) <==> exists|j: int|
                        0 <= j < i + 1 && links@[j] == (product, o) by {
                    if seen.contains(o) {
                        let j = choose|j: int| 0 <= j < i && links@[j] == (product, o);
                        assert(0 <= j < i + 1 && links@[j] == (product, o));
                    }
                    if exists|j: int| 0 <= j < i + 1 && links@[j] == (product, o) {
                        let j = choose|j: int| 0 <= j < i + 1 && links@[j] == (product, o);
                        assert(j < i);
                    }
                }
            }
        }
        i += 1;
    }
    proof {
        assert(seen =~= linked_to(links@, product)) by {
            assert forall|o: u128| seen.contains(o) <==> linked_to(links@, product).contains(o) by {
                if linked(links@, product, o) {
                    let j = choose|j: int| 0 <= j < links@.len() && links@[j] == (product, o);
                    assert(0 <= j < i && links@[j] == (product, o));
                }
            }
        }
    }
    n
}

/// What a product is linked to, in the order in which the links stand.
pub fn others_of(links: &Vec<(u128, u128)>, product: u128) -> (r: Vec<u128>)
    requires
        links@.no_duplicates(),
    ensures
        r@.no_duplicates(),
        r@.to_set() == linked_to(links@, product),
{
    let mut out: Vec<u128> = Vec::new();
    let mut i: usize = 0;
    while i < links.len()
        invariant
            i <= links.len(),
            links@.no_duplicates(),
            out@.no_duplicates(),
            forall|other: u128|
                out@.contains(other) <==> exists|j: int|
                    0 <= j < i && links@[j] == (product, other),
        decreases links.len() - i,
    {
        let ghost before = out@;
        if links[i].0 == product {
            let other = links[i].1;
            proof {
                if before.contains(other) {
                    let j = choose|j: int| 0 <= j < i && links@[j] == (product, other);
                    assert(links@[j] == links@[i as int]);
                }
            }
            out.push(other);
            proof {
                assert forall|o: u128|
                    out@.contains(o) <==> exists|j: int|
                        0 <= j < i + 1 && links@[j] == (product, o) by {
                    if out@.contains(o) {
                        let k = choose|k: int| 0 <= k < out@.len() && out@[k] == o;
                        if k < before.len() {
                            assert(before[k] == o);
                            assert(before.contains(o));
                            let j = choose|j: int| 0 <= j < i && links@[j] == (product, o);
                            assert(0 <= j < i + 1 && links@[j] == (product, o));
                        } else {
                            assert(0 <= i < i + 1 && links@[i as int] == (product, o));
                        }
                    }
                    if exists|j: int| 0 <= j < i + 1 && links@[j] == (product, o) {
                        let j = choose|j: int| 0 <= j < i + 1 && links@[j] == (product, o);
                        if j < i {
                            assert(before.contains(o));
                            let k = choose|k: int| 0 <= k < before.len() && before[k] == o;
                            assert(out@[k] == o);
                        } else {
                            assert(out@[before.len() as int] == o);
                        }
                    }
                }
            }
        } else {
            proof {
                assert forall|o: u128|
                    out@.contains(o) <==> exists|j: int|
                        0 <= j < i + 1 && links@[j] == (product, o) by {
                    if out@.contains(o) {
                        let j = choose|j: int| 0 <= j < i && links@[j] == (product, o);
                        assert(0 <= j < i + 1 && links@[j] == (product, o));
                    }
                    if exists|j: int| 0 <= j < i + 1 && links@[j] == (product, o) {
                        let j = choose|j: int| 0 <= j < i + 1 && links@[j] == (product, o);
                        assert(j < i);
                    }
                }
            }
        }
        i += 1;
    }
    proof {
        assert(out@.to_set() =~= linked_to(links@, product)) by {
            assert forall|o: u128| out@.to_set().contains(o) <==> linked_to(
                links@,
                product,
            ).contains(o) by {
                if linked(links@, product, o) {
                    let j = choose|j: int| 0 <= j < links@.len() && links@[j] == (product, o);
                    assert(0 <= j < i && links@[j] == (product, o));
                }
            }
        }
    }
    out
}

} // verus!
