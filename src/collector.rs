use vstd::prelude::*;

use crate::events::{announced_schema, announces, last_announced, ApiEvent, PipelineRequest, SchemaDef};

verus! {

/// The names that `names` holds, as character sequences.
pub open spec fn names_view(names: Seq<String>) -> Seq<Seq<char>> {
    names.map_values(|s: String| s@)
}

/// Whether one of `names` is `n`.
pub open spec fn has_name(names: Seq<String>, n: Seq<char>) -> bool {
    exists|i: int| 0 <= i < names.len() && (#[trigger] names[i])@ == n
}

/// No name occurs twice.
pub open spec fn distinct(names: Seq<Seq<char>>) -> bool {
    forall|i: int, j: int| 0 <= i < j < names.len() ==> names[i] != names[j]
}

/// Each registered name has had a schema announced among `evs`.
pub open spec fn complete_for(names: Seq<Seq<char>>, evs: Seq<PipelineRequest>) -> bool {
    forall|i: int| 0 <= i < names.len() ==> (#[trigger] last_announced(evs, names[i])) is Some
}

/// The schema mapping after `evs`: for each registered name, in order, its
/// most recently announced schema.
pub open spec fn slots_after(names: Seq<Seq<char>>, evs: Seq<PipelineRequest>) -> Seq<
    Option<SchemaDef>,
> {
    Seq::new(names.len(), |i: int| last_announced(evs, names[i]))
}

/// A finished schema mapping: one schema for each registered endpoint, at the
/// same position as its name.
#[derive(Debug)]
pub struct SchemaMapping {
    pub names: Vec<String>,
    pub schemas: Vec<SchemaDef>,
}

impl SchemaMapping {
    pub open spec fn wf(&self) -> bool {
        &&& self.names@.len() == self.schemas@.len()
        &&& distinct(names_view(self.names@))
    }

    /// Whether this mapping is the one that `evs` give the registered names
    /// `names`.
    pub open spec fn is_mapping_after(&self, names: Seq<Seq<char>>, evs: Seq<PipelineRequest>) -> bool {
        &&& names_view(self.names@) == names
        &&& self.schemas@.len() == names.len()
        &&& forall|i: int|
            0 <= i < names.len() ==> last_announced(evs, names[i]) == Some(
                #[trigger] self.schemas@[i],
            )
    }
}

/// Gathers the announced schemas of a fixed set of endpoints from a stream of
/// pipeline events, one event at a time.
pub struct SchemaCollector {
    names: Vec<String>,
    slots: Vec<Option<SchemaDef>>,
    seen: Ghost<Seq<PipelineRequest>>,
}

impl SchemaCollector {
    /// The registered endpoint names.
    pub closed spec fn registered(&self) -> Seq<Seq<char>> {
        names_view(self.names@)
    }

    /// The events observed so far, in order.
    pub closed spec fn seen(&self) -> Seq<PipelineRequest> {
        self.seen@
    }

    /// The current mapping: for each registered name, its latest schema.
    pub closed spec fn mapping(&self) -> Seq<Option<SchemaDef>> {
        self.slots@
    }

    pub closed spec fn wf(&self) -> bool {
        &&& distinct(self.registered())
        &&& self.slots@ == slots_after(self.registered(), self.seen@)
    }

    /// A collector for the endpoints `names`, which has seen no event yet.
    pub fn new(names: Vec<String>) -> (r: Self)
        requires
            distinct(names_view(names@)),
        ensures
            r.wf(),
            r.registered() == names_view(names@),
            r.seen() == Seq::<PipelineRequest>::empty(),
            r.mapping() == slots_after(r.registered(), r.seen()),
    {
        let mut slots: Vec<Option<SchemaDef>> = Vec::new();
        let n = names.len();
        while slots.len() < n
            invariant
                n == names@.len(),
                slots@.len() <= n,
                forall|k: int| 0 <= k < slots@.len() ==> slots@[k] is None,
            decreases n - slots@.len(),
        {
            slots.push(None);
        }
        let r = SchemaCollector { names, slots, seen: Ghost(Seq::empty()) };
        assert(r.slots@ =~= slots_after(r.registered(), r.seen@));
        r
    }

    /// Position of `name` among the registered names.
    fn position(&self, name: &String) -> (r: Option<usize>)
        ensures
            r matches Some(i) ==> i < self.registered().len() && self.registered()[i as int]
                == name@,
            r is None ==> forall|i: int|
                0 <= i < self.registered().len() ==> self.registered()[i] != name@,
    {
        let mut i: usize = 0;
        while i < self.names.len()
            invariant
                i <= self.names@.len(),
                forall|k: int| 0 <= k < i ==> self.registered()[k] != name@,
            decreases self.names@.len() - i,
        {
            if self.names[i] == *name {
                return Some(i);
            }
            i = i + 1;
        }
        None
    }

    /// Takes in the next event: a schema announced for a registered endpoint
    /// replaces what was known of it; any other event changes nothing.
    pub fn observe(&mut self, event: PipelineRequest)
        requires
            old(self).wf(),
        ensures
            final(self).wf(),
            final(self).registered() == old(self).registered(),
            final(self).seen() == old(self).seen().push(event),
            final(self).mapping() == slots_after(final(self).registered(), final(self).seen()),
    {
        let ghost evs = self.seen@.push(event);
        let ghost names = self.registered();
        proof {
            assert(evs.drop_last() =~= self.seen@);
        }
        let pos = self.position(&event.endpoint);
        match pos {
            Some(i) => {
                match event.api_event {
                    Some(ApiEvent::Schema(s)) => {
                        proof {
                            assert forall|k: int| 0 <= k < names.len() && k != i implies !announces(
                                event,
                                names[k],
                            ) by {
                                assert(names[k] != names[i as int]);
                            }
                        }
                        self.slots.set(i, Some(s));
                    },
                    _ => {},
                }
            },
            None => {},
        }
        self.seen = Ghost(evs);
        assert(self.slots@ =~= slots_after(names, evs));
    }

    /// Whether every registered endpoint has had its schema announced.
    pub fn is_complete(&self) -> (r: bool)
        requires
            self.wf(),
        ensures
            r == complete_for(self.registered(), self.seen()),
    {
        let mut i: usize = 0;
        while i < self.slots.len()
            invariant
                self.wf(),
                i <= self.slots@.len(),
                forall|k: int| 0 <= k < i ==> (#[trigger] self.slots@[k]) is Some,
            decreases self.slots@.len() - i,
        {
            if self.slots[i].is_none() {
                assert(last_announced(self.seen(), self.registered()[i as int]) is None);
                return false;
            }
            i = i + 1;
        }
        proof {
            assert forall|k: int| 0 <= k < self.registered().len() implies (#[trigger] last_announced(
                self.seen(),
                self.registered()[k],
            )) is Some by {
                assert(self.slots@[k] is Some);
            }
        }
        true
    }

    /// The finished mapping, once every registered endpoint has a schema.
    pub fn into_mapping(self) -> (r: SchemaMapping)
        requires
            self.wf(),
            complete_for(self.registered(), self.seen()),
        ensures
            r.wf(),
            r.is_mapping_after(self.registered(), self.seen()),
    {
        let ghost orig = self.slots@;
        let ghost names = self.registered();
        let ghost evs = self.seen@;
        let SchemaCollector { names: endpoint_names, mut slots, seen: _ } = self;
        let mut schemas: Vec<SchemaDef> = Vec::new();
        let n = slots.len();
        while slots.len() > 0
            invariant
                orig.len() == n,
                orig == slots_after(names, evs),
                complete_for(names, evs),
                schemas@.len() + slots@.len() == n,
                forall|k: int| 0 <= k < schemas@.len() ==> orig[k] == Some(#[trigger] schemas@[k]),
                forall|k: int|
                    0 <= k < slots@.len() ==> #[trigger] slots@[k] == orig[schemas@.len() + k],
            decreases slots@.len(),
        {
            let ghost done = schemas@.len();
            let ghost before = slots@;
            let slot = slots.remove(0);
            assert(slot == orig[done as int]);
            assert(last_announced(evs, names[done as int]) is Some);
            match slot {
                Some(s) => {
                    schemas.push(s);
                },
                None => {},
            }
            assert forall|k: int| 0 <= k < slots@.len() implies #[trigger] slots@[k]
                == orig[schemas@.len() + k] by {
                assert(slots@[k] == before[k + 1]);
            }
        }
        SchemaMapping { names: endpoint_names, schemas }
    }
}

/// Runs a collector for `names` over `events`, in order, and stops at the
/// first point where every name has a schema. Returns how many events that
/// took, with the finished mapping, or `None` where the events run out first.
pub fn collect(names: Vec<String>, events: Vec<PipelineRequest>) -> (r: Option<(usize, SchemaMapping)>)
    requires
        distinct(names_view(names@)),
    ensures
        match r {
            Some((k, m)) => {
                &&& k <= events@.len()
                &&& complete_for(names_view(names@), events@.take(k as int))
                &&& forall|j: int|
                    0 <= j < k ==> !complete_for(names_view(names@), #[trigger] events@.take(j))
                &&& m.wf()
                &&& m.is_mapping_after(names_view(names@), events@.take(k as int))
            },
            None => forall|j: int|
                0 <= j <= events@.len() ==> !complete_for(
                    names_view(names@),
                    #[trigger] events@.take(j),
                ),
        },
{
    let ghost all = events@;
    let ghost nv = names_view(names@);
    let total = events.len();
    let mut rest = events;
    let mut collector = SchemaCollector::new(names);
    let mut i: usize = 0;
    assert(all.take(0) =~= Seq::<PipelineRequest>::empty());
    if collector.is_complete() {
        return Some((0, collector.into_mapping()));
    }
    while rest.len() > 0
        invariant
            collector.wf(),
            collector.registered() == nv,
            nv == names_view(names@),
            all == events@,
            i <= all.len(),
            collector.seen() == all.take(i as int),
            rest@ == all.skip(i as int),
            i + rest@.len() == all.len(),
            all.len() == total,
            forall|j: int| 0 <= j <= i ==> !complete_for(nv, #[trigger] all.take(j)),
        decreases rest@.len(),
    {
        let e = rest.remove(0);
        assert(all.take(i as int).push(e) =~= all.take(i + 1));
        collector.observe(e);
        i = i + 1;
        assert(rest@ =~= all.skip(i as int));
        if collector.is_complete() {
            return Some((i, collector.into_mapping()));
        }
    }
    None
}

/// Whether some event of `evs` announces a schema for `name`.
pub open spec fn ever_announced(evs: Seq<PipelineRequest>, name: Seq<char>) -> bool {
    exists|j: int| 0 <= j < evs.len() && announces(#[trigger] evs[j], name)
}

/// An endpoint has a schema in the mapping exactly when some event announced
/// one for it.
pub proof fn lemma_last_announced_iff_ever(evs: Seq<PipelineRequest>, name: Seq<char>)
    ensures
        last_announced(evs, name) is Some <==> ever_announced(evs, name),
    decreases evs.len(),
{
    if evs.len() > 0 {
        let init = evs.drop_last();
        lemma_last_announced_iff_ever(init, name);
        if ever_announced(init, name) {
            let j = choose|j: int| 0 <= j < init.len() && announces(#[trigger] init[j], name);
            assert(evs[j] == init[j]);
        }
        if ever_announced(evs, name) && !announces(evs.last(), name) {
            let j = choose|j: int| 0 <= j < evs.len() && announces(#[trigger] evs[j], name);
            assert(init[j] == evs[j]);
        }
    }
}

/// Collection is complete exactly when a schema has been announced for every
/// registered name, in whatever order the announcements came and however
/// often each was repeated: two event streams that announce the same names
/// complete alike.
pub proof fn lemma_completion_depends_only_on_announced_names(
    names: Seq<Seq<char>>,
    a: Seq<PipelineRequest>,
    b: Seq<PipelineRequest>,
)
    requires
        forall|n: Seq<char>| ever_announced(a, n) == ever_announced(b, n),
    ensures
        complete_for(names, a) <==> (forall|i: int|
            0 <= i < names.len() ==> ever_announced(a, #[trigger] names[i])),
        complete_for(names, a) == complete_for(names, b),
{
    assert forall|i: int| 0 <= i < names.len() implies (last_announced(a, names[i]) is Some
        <==> ever_announced(a, #[trigger] names[i])) && (last_announced(b, names[i]) is Some
        <==> ever_announced(b, names[i])) by {
        lemma_last_announced_iff_ever(a, names[i]);
        lemma_last_announced_iff_ever(b, names[i]);
    }
}

/// Removing an event that is about another endpoint, wherever it stands,
/// leaves the latest schema of `name` unchanged.
proof fn lemma_last_announced_without(
    a: Seq<PipelineRequest>,
    e: PipelineRequest,
    b: Seq<PipelineRequest>,
    name: Seq<char>,
)
    requires
        e.endpoint@ != name,
    ensures
        last_announced(a.push(e) + b, name) == last_announced(a + b, name),
    decreases b.len(),
{
    if b.len() == 0 {
        assert(a.push(e) + b =~= a.push(e));
        assert(a + b =~= a);
        assert(a.push(e).drop_last() =~= a);
    } else {
        let init = b.drop_last();
        lemma_last_announced_without(a, e, init, name);
        assert((a.push(e) + b).drop_last() =~= a.push(e) + init);
        assert((a + b).drop_last() =~= a + init);
        assert((a.push(e) + b).last() == b.last());
        assert((a + b).last() == b.last());
    }
}

/// An event about an endpoint that is not registered, inserted anywhere in a
/// stream, changes neither the mapping nor whether it is complete.
pub proof fn lemma_unregistered_event_ignored(
    names: Seq<Seq<char>>,
    a: Seq<PipelineRequest>,
    e: PipelineRequest,
    b: Seq<PipelineRequest>,
)
    requires
        forall|i: int| 0 <= i < names.len() ==> names[i] != e.endpoint@,
    ensures
        slots_after(names, a.push(e) + b) == slots_after(names, a + b),
        complete_for(names, a.push(e) + b) == complete_for(names, a + b),
{
    assert forall|i: int| 0 <= i < names.len() implies last_announced(a.push(e) + b, names[i])
        == last_announced(a + b, names[i]) by {
        lemma_last_announced_without(a, e, b, names[i]);
    }
    assert(slots_after(names, a.push(e) + b) =~= slots_after(names, a + b));
}

} // verus!
