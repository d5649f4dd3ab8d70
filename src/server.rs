use vstd::prelude::*;

use crate::collector::{distinct, has_name, names_view};

verus! {

/// Number of events the broadcast channel holds for a slow subscriber.
pub const BROADCAST_CAPACITY: usize = 16;

/// The services that the transport server hosts.
#[derive(PartialEq, Eq, Structural, Clone, Copy, Debug)]
pub enum ServiceKind {
    /// Schema-independent operations; always hosted.
    Common,
    /// Runtime discovery of the generated surface.
    Reflection,
    /// Calls shaped by the compiled descriptor.
    Typed,
}

/// The services to register, in order: the common service always, reflection
/// and the typed service only in dynamic mode.
pub fn services(dynamic: bool) -> (r: Vec<ServiceKind>)
    ensures
        !dynamic ==> r@ == seq![ServiceKind::Common],
        dynamic ==> r@ == seq![ServiceKind::Common, ServiceKind::Reflection, ServiceKind::Typed],
{
    let mut r: Vec<ServiceKind> = Vec::new();
    r.push(ServiceKind::Common);
    if dynamic {
        r.push(ServiceKind::Reflection);
        r.push(ServiceKind::Typed);
    }
    r
}

/// The names of `s`, each once, in the order of its first occurrence.
pub open spec fn first_occurrences(s: Seq<Seq<char>>) -> Seq<Seq<char>>
    decreases s.len(),
{
    if s.len() == 0 {
        Seq::empty()
    } else {
        let prefix = first_occurrences(s.drop_last());
        if prefix.contains(s.last()) {
            prefix
        } else {
            prefix.push(s.last())
        }
    }
}

/// A list of distinct names is its own first occurrences.
pub proof fn lemma_first_occurrences_of_distinct(s: Seq<Seq<char>>)
    requires
        distinct(s),
    ensures
        first_occurrences(s) == s,
    decreases s.len(),
{
    if s.len() > 0 {
        let init = s.drop_last();
        assert(distinct(init));
        lemma_first_occurrences_of_distinct(init);
        if init.contains(s.last()) {
            let k = choose|k: int| 0 <= k < init.len() && init[k] == s.last();
            assert(s[k] == s[s.len() - 1]);
        }
        assert(init.push(s.last()) =~= s);
    }
}

/// The registration set of a list of endpoint names: each name once, in the
/// order of its first occurrence.
pub fn registration(endpoints: &Vec<String>) -> (r: Vec<String>)
    ensures
        distinct(names_view(r@)),
        forall|n: Seq<char>| has_name(r@, n) <==> has_name(endpoints@, n),
        names_view(r@) == first_occurrences(names_view(endpoints@)),
        distinct(names_view(endpoints@)) ==> names_view(r@) == names_view(endpoints@),
{
    let mut r: Vec<String> = Vec::new();
    let mut j: usize = 0;
    while j < endpoints.len()
        invariant
            j <= endpoints@.len(),
            distinct(names_view(r@)),
            forall|n: Seq<char>| has_name(r@, n) <==> has_name(endpoints@.take(j as int), n),
            names_view(r@) == first_occurrences(names_view(endpoints@).take(j as int)),
        decreases endpoints@.len() - j,
    {
        let name = &endpoints[j];
        let mut seen = false;
        let mut i: usize = 0;
        while i < r.len()
            invariant
                j < endpoints@.len(),
                name == endpoints@[j as int],
                distinct(names_view(r@)),
                forall|n: Seq<char>| has_name(r@, n) <==> has_name(endpoints@.take(j as int), n),
                names_view(r@) == first_occurrences(names_view(endpoints@).take(j as int)),
                i <= r@.len(),
                seen ==> has_name(r@, name@),
                !seen ==> forall|a: int| 0 <= a < i ==> (#[trigger] r@[a])@ != name@,
            decreases r@.len() - i,
        {
            if r[i] == *name {
                seen = true;
            }
            i = i + 1;
        }
        let ghost before = r@;
        let ghost nv = names_view(endpoints@);
        proof {
            assert(nv.take(j + 1).drop_last() =~= nv.take(j as int));
            assert(nv.take(j + 1).last() == name@);
            if seen {
                let a = choose|a: int| 0 <= a < r@.len() && (#[trigger] r@[a])@ == name@;
                assert(names_view(r@)[a] == name@);
                assert(first_occurrences(nv.take(j as int)).contains(name@));
            } else {
                assert forall|a: int| 0 <= a < names_view(r@).len() implies names_view(r@)[a]
                    != name@ by {
                    assert(names_view(r@)[a] == r@[a]@);
                }
                assert(!first_occurrences(nv.take(j as int)).contains(name@));
            }
        }
        let ghost pre = endpoints@.take(j as int);
        let ghost post = endpoints@.take(j + 1);
        if !seen {
            r.push(name.clone());
            proof {
                assert(names_view(r@) =~= names_view(before).push(name@));
                assert forall|a: int, b: int| 0 <= a < b < r@.len() implies names_view(r@)[a]
                    != names_view(r@)[b] by {
                    assert(names_view(before)[a] == r@[a]@);
                    if b < before.len() {
                        assert(names_view(before)[b] == r@[b]@);
                    }
                }
            }
        }
        proof {
            assert forall|n: Seq<char>| has_name(r@, n) <==> has_name(post, n) by {
                if has_name(r@, n) {
                    let i = choose|i: int| 0 <= i < r@.len() && (#[trigger] r@[i])@ == n;
                    if i < before.len() {
                        assert(before[i] == r@[i]);
                        assert(has_name(before, n));
                        assert(has_name(pre, n));
                        let k = choose|k: int| 0 <= k < pre.len() && (#[trigger] pre[k])@ == n;
                        assert(post[k] == pre[k]);
                    } else {
                        assert(post[j as int] == endpoints@[j as int]);
                    }
                }
                if has_name(post, n) {
                    let k = choose|k: int| 0 <= k < post.len() && (#[trigger] post[k])@ == n;
                    if k < j {
                        assert(pre[k] == post[k]);
                        assert(has_name(pre, n));
                        assert(has_name(before, n));
                        let i = choose|i: int| 0 <= i < before.len() && (#[trigger] before[i])@ == n;
                        assert(r@[i] == before[i]);
                    } else if seen {
                        assert(post[k] == endpoints@[j as int]);
                    } else {
                        assert(post[k] == endpoints@[j as int]);
                        assert(r@[before.len() as int]@ == n);
                    }
                }
            }
        }
        j = j + 1;
    }
    assert(endpoints@.take(j as int) =~= endpoints@);
    assert(names_view(endpoints@).take(j as int) =~= names_view(endpoints@));
    proof {
        if distinct(names_view(endpoints@)) {
            lemma_first_occurrences_of_distinct(names_view(endpoints@));
        }
    }
    r
}

} // verus!
