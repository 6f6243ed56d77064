//! Query planning: the execution tree of a query, with identifiers for its
//! remote joins.

use vstd::prelude::*;
use vstd::string::*;

use super::remote_joins::{
    lemma_lookup_first, lemma_lookup_remove, lookup, pair, zipped, zips,
    lemma_entries_nodes_prefix_len, lemma_entries_nodes_push, lemma_entries_nodes_take, entries_nodes, entry_same_shape, jl_wf, keys_unique, location_nodes, nodes_of, opt_seq,
    same_shape, JoinId, JoinLocations, Location, MonotonicCounter, RemoteJoin, RemoteJoinView,
};
use crate::json::JsonValue;
use crate::metadata::resolved::data_connector::DataConnector;
use crate::metadata::resolved::subgraph::Qualified;
use crate::open_dds::commands::DataConnectorCommand;
use crate::open_dds::names::{CommandName, Role};
use crate::schema::graphql::TypeContainer;
use crate::schema::operations::{Error, InternalEngineError, InternalError};

verus! {

/// The remote joins met so far, each with the join id it was given.
pub struct RemoteJoinCounter<'s> {
    pub remote_joins: Vec<(&'s RemoteJoin, JoinId)>,
    pub counter: MonotonicCounter,
}

impl<'s> RemoteJoinCounter<'s> {
    pub fn new() -> (r: RemoteJoinCounter<'s>)
        ensures
            r.remote_joins@.len() == 0,
            r.counter.value() == 0,
            counter_wf(r),
    {
        RemoteJoinCounter { remote_joins: Vec::new(), counter: MonotonicCounter::new() }
    }
}

/// The joins met so far are pairwise different, the k-th got the id k + 1,
/// and the counter has handed out as many ids as there are joins.
pub open spec fn counter_wf(st: RemoteJoinCounter) -> bool {
    &&& st.counter.value() == st.remote_joins.len()
    &&& forall|k: int| 0 <= k < st.remote_joins.len() ==> #[trigger] st.remote_joins[k].1 == k + 1
    &&& forall|k1: int, k2: int|
        0 <= k1 < k2 < st.remote_joins.len() ==> st.remote_joins[k1].0@ != st.remote_joins[k2].0@
}

/// `id` is the join id recorded for a join equal to `v`.
pub open spec fn in_table(st: RemoteJoinCounter, v: RemoteJoinView, id: JoinId) -> bool {
    exists|k: int|
        0 <= k < st.remote_joins.len() && #[trigger] st.remote_joins[k].0@ == v && st.remote_joins[k].1
            == id
}

/// A join equal to `v` has been met.
pub open spec fn known(st: RemoteJoinCounter, v: RemoteJoinView) -> bool {
    exists|k: int| 0 <= k < st.remote_joins.len() && #[trigger] st.remote_joins[k].0@ == v
}

/// The joins recorded in a table, in order.
pub open spec fn table_views(st: RemoteJoinCounter) -> Seq<RemoteJoinView> {
    st.remote_joins@.map_values(|p: (&RemoteJoin, JoinId)| p.0@)
}

/// The table of distinct joins after meeting `nodes` in order: each join not
/// met before is added at the end.
pub open spec fn table_after(t: Seq<RemoteJoinView>, nodes: Seq<RemoteJoin>) -> Seq<RemoteJoinView>
    decreases nodes.len(),
{
    if nodes.len() == 0 {
        t
    } else {
        let t1 = table_after(t, nodes.drop_last());
        if t1.contains(nodes.last()@) {
            t1
        } else {
            t1.push(nodes.last()@)
        }
    }
}

/// The distinct joins of `nodes`, in the order they are first met.
pub open spec fn first_seen(nodes: Seq<RemoteJoin>) -> Seq<RemoteJoinView> {
    table_after(Seq::empty(), nodes)
}

/// Meeting joins never records one twice.
pub proof fn lemma_table_after_distinct(t: Seq<RemoteJoinView>, nodes: Seq<RemoteJoin>)
    requires
        forall|i: int, j: int| 0 <= i < j < t.len() ==> t[i] != t[j],
    ensures
        ({
            let r = table_after(t, nodes);
            forall|i: int, j: int| 0 <= i < j < r.len() ==> r[i] != r[j]
        }),
    decreases nodes.len(),
{
    if nodes.len() > 0 {
        lemma_table_after_distinct(t, nodes.drop_last());
        let t1 = table_after(t, nodes.drop_last());
        if !t1.contains(nodes.last()@) {
            let r = t1.push(nodes.last()@);
            assert forall|i: int, j: int| 0 <= i < j < r.len() implies r[i] != r[j] by {
                if j == t1.len() {
                    assert(r[i] == t1[i]);
                } else {
                    assert(r[i] == t1[i] && r[j] == t1[j]);
                }
            }
        }
    }
}

/// The distinct joins of a list, in the order first met, are distinct:
/// so the join ids given by `assign_with_join_ids` are fixed by the nodes.
pub proof fn lemma_first_seen_distinct(nodes: Seq<RemoteJoin>)
    ensures
        forall|i: int, j: int| 0 <= i < j < first_seen(nodes).len() ==> first_seen(nodes)[i] != first_seen(nodes)[j],
{
    lemma_table_after_distinct(Seq::empty(), nodes);
}

proof fn lemma_known_contains(st: RemoteJoinCounter, v: RemoteJoinView)
    ensures
        known(st, v) == table_views(st).contains(v),
{
    if known(st, v) {
        let k = choose|k: int| 0 <= k < st.remote_joins.len() && #[trigger] st.remote_joins[k].0@ == v;
        assert(table_views(st)[k] == v);
    }
    if table_views(st).contains(v) {
        let k = choose|k: int| 0 <= k < table_views(st).len() && table_views(st)[k] == v;
        assert(st.remote_joins[k].0@ == v);
    }
}

proof fn lemma_table_after_concat(t: Seq<RemoteJoinView>, a: Seq<RemoteJoin>, b: Seq<RemoteJoin>)
    ensures
        table_after(t, a + b) == table_after(table_after(t, a), b),
    decreases b.len(),
{
    if b.len() == 0 {
        assert(a + b =~= a);
    } else {
        assert((a + b).drop_last() =~= a + b.drop_last());
        assert((a + b).last() == b.last());
        lemma_table_after_concat(t, a, b.drop_last());
    }
}

proof fn lemma_table_after_opt(t: Seq<RemoteJoinView>, o: Option<RemoteJoin>)
    ensures
        table_after(t, opt_seq(o)) == match o {
            Some(n) => if t.contains(n@) {
                t
            } else {
                t.push(n@)
            },
            None => t,
        },
{
    assert(table_after(t, Seq::<RemoteJoin>::empty()) == t);
    if let Some(n) = o {
        assert(opt_seq(o).drop_last() =~= Seq::<RemoteJoin>::empty());
        assert(opt_seq(o).last() == n);
    } else {
        assert(opt_seq(o) =~= Seq::<RemoteJoin>::empty());
    }
}

/// `new` keeps all that `old` recorded, and may record more after it.
pub open spec fn extends(old: RemoteJoinCounter, new: RemoteJoinCounter) -> bool {
    &&& old.remote_joins@.len() <= new.remote_joins@.len()
    &&& new.remote_joins@.subrange(0, old.remote_joins@.len() as int) == old.remote_joins@
}

proof fn lemma_extends_keeps(old: RemoteJoinCounter, new: RemoteJoinCounter, v: RemoteJoinView, id: JoinId)
    requires
        extends(old, new),
        in_table(old, v, id),
    ensures
        in_table(new, v, id),
{
    let k = choose|k: int|
        0 <= k < old.remote_joins.len() && #[trigger] old.remote_joins[k].0@ == v && old.remote_joins[k].1
            == id;
    assert(new.remote_joins@.subrange(0, old.remote_joins@.len() as int)[k] == old.remote_joins@[k]);
    assert(new.remote_joins[k].0@ == v);
}

/// In a well-formed table, two joins got the same id exactly when they are
/// equal.
pub proof fn lemma_join_ids_agree(
    st: RemoteJoinCounter,
    v1: RemoteJoinView,
    id1: JoinId,
    v2: RemoteJoinView,
    id2: JoinId,
)
    requires
        counter_wf(st),
        in_table(st, v1, id1),
        in_table(st, v2, id2),
    ensures
        (v1 == v2) <==> (id1 == id2),
{
    let k1 = choose|k: int|
        0 <= k < st.remote_joins.len() && #[trigger] st.remote_joins[k].0@ == v1 && st.remote_joins[k].1
            == id1;
    let k2 = choose|k: int|
        0 <= k < st.remote_joins.len() && #[trigger] st.remote_joins[k].0@ == v2 && st.remote_joins[k].1
            == id2;
    assert(st.remote_joins[k1].1 == k1 + 1);
    assert(st.remote_joins[k2].1 == k2 + 1);
    if v1 == v2 && k1 != k2 {
        if k1 < k2 {
            assert(st.remote_joins[k1].0@ != st.remote_joins[k2].0@);
        } else {
            assert(st.remote_joins[k2].0@ != st.remote_joins[k1].0@);
        }
    }
}

/// Gives a join node its join id: the id of an equal join met before, else
/// the next id of the counter, recording the node with it.
pub fn assign_join_id<'s>(join_node: &'s RemoteJoin, state: &mut RemoteJoinCounter<'s>) -> (r: JoinId)
    requires
        counter_wf(*old(state)),
        !known(*old(state), join_node@) ==> old(state).remote_joins.len() < JoinId::MAX,
    ensures
        counter_wf(*final(state)),
        extends(*old(state), *final(state)),
        in_table(*final(state), join_node@, r),
        known(*old(state), join_node@) ==> final(state).remote_joins@ == old(state).remote_joins@,
        !known(*old(state), join_node@) ==> final(state).remote_joins@ == old(state).remote_joins@.push(
            (join_node, r),
        ),
        !known(*old(state), join_node@) ==> r == old(state).counter.value() + 1 && forall|k: int|
            0 <= k < old(state).remote_joins.len() ==> (#[trigger] old(state).remote_joins[k]).1 != r,
        table_views(*final(state)) == table_after(table_views(*old(state)), seq![*join_node]),
{
    let n = state.remote_joins.len();
    let mut i: usize = 0;
    while i < n
        invariant
            n == state.remote_joins.len(),
            i <= n,
            forall|k: int| 0 <= k < i ==> #[trigger] state.remote_joins[k].0@ != join_node@,
            *state == *old(state),
            counter_wf(*old(state)),
            !known(*old(state), join_node@) ==> old(state).remote_joins.len() < JoinId::MAX,
        decreases n - i,
    {
        if state.remote_joins[i].0.same(join_node) {
            let id = state.remote_joins[i].1;
            assert(state.remote_joins[i as int].0@ == join_node@);
            assert(in_table(*state, join_node@, id));
            assert(state.remote_joins@.subrange(0, state.remote_joins@.len() as int) =~= state.remote_joins@);
            proof {
                lemma_known_contains(*state, join_node@);
                lemma_table_after_opt(table_views(*state), Some(*join_node));
            }
            return id;
        }
        i = i + 1;
    }
    assert(!known(*state, join_node@));
    proof {
        lemma_known_contains(*state, join_node@);
        lemma_table_after_opt(table_views(*state), Some(*join_node));
    }
    let ghost old_views = table_views(*state);
    let ghost old_joins = state.remote_joins@;
    let next_id = state.counter.get_next();
    state.remote_joins.push((join_node, next_id));
    assert(state.remote_joins@.subrange(0, old_joins.len() as int) =~= old_joins);
    assert(state.remote_joins[n as int].0@ == join_node@);
    assert(table_views(*state) =~= old_views.push(join_node@));
    next_id
}

proof fn lemma_extends_trans(a: RemoteJoinCounter, b: RemoteJoinCounter, c: RemoteJoinCounter)
    requires
        extends(a, b),
        extends(b, c),
    ensures
        extends(a, c),
{
    assert(c.remote_joins@.subrange(0, a.remote_joins@.len() as int) =~= c.remote_joins@.subrange(
        0,
        b.remote_joins@.len() as int,
    ).subrange(0, a.remote_joins@.len() as int));
}

proof fn lemma_extends_refl(a: RemoteJoinCounter)
    ensures
        extends(a, a),
{
    assert(a.remote_joins@.subrange(0, a.remote_joins@.len() as int) =~= a.remote_joins@);
}

/// Every join node of `nodes` is recorded in the table with the id at the
/// same position of `ids`.
pub open spec fn ids_recorded(st: RemoteJoinCounter, nodes: Seq<RemoteJoin>, ids: Seq<JoinId>) -> bool {
    &&& nodes.len() == ids.len()
    &&& forall|k: int| 0 <= k < nodes.len() ==> in_table(st, #[trigger] nodes[k]@, ids[k])
}

proof fn lemma_ids_recorded_extends(
    a: RemoteJoinCounter,
    b: RemoteJoinCounter,
    nodes: Seq<RemoteJoin>,
    ids: Seq<JoinId>,
)
    requires
        extends(a, b),
        ids_recorded(a, nodes, ids),
    ensures
        ids_recorded(b, nodes, ids),
{
    assert forall|k: int| 0 <= k < nodes.len() implies in_table(b, #[trigger] nodes[k]@, ids[k]) by {
        lemma_extends_keeps(a, b, nodes[k]@, ids[k]);
    }
}

proof fn lemma_ids_recorded_concat(
    st: RemoteJoinCounter,
    n1: Seq<RemoteJoin>,
    i1: Seq<JoinId>,
    n2: Seq<RemoteJoin>,
    i2: Seq<JoinId>,
)
    requires
        ids_recorded(st, n1, i1),
        ids_recorded(st, n2, i2),
    ensures
        ids_recorded(st, n1 + n2, i1 + i2),
{
    assert forall|k: int| 0 <= k < (n1 + n2).len() implies in_table(st, #[trigger] (n1 + n2)[k]@, (i1 + i2)[k]) by {
        if k < n1.len() {
            assert((n1 + n2)[k] == n1[k]);
            assert((i1 + i2)[k] == i1[k]);
        } else {
            assert((n1 + n2)[k] == n2[k - n1.len()]);
            assert((i1 + i2)[k] == i2[k - n1.len()]);
        }
    }
}

/// Gives every join node of a tree its join id (see `assign_join_id`), in the
/// order of `nodes_of`. All the join nodes that are equal get the same join
/// id.
pub fn assign_join_ids<'s>(join_locations: &'s JoinLocations<RemoteJoin>, state: &mut RemoteJoinCounter<'s>) -> (r: JoinLocations<JoinId>)
    requires
        counter_wf(*old(state)),
        old(state).remote_joins.len() + nodes_of(*join_locations).len() <= JoinId::MAX,
    ensures
        counter_wf(*final(state)),
        extends(*old(state), *final(state)),
        final(state).remote_joins.len() <= old(state).remote_joins.len() + nodes_of(*join_locations).len(),
        same_shape(*join_locations, r),
        ids_recorded(*final(state), nodes_of(*join_locations), nodes_of(r)),
        table_views(*final(state)) == table_after(table_views(*old(state)), nodes_of(*join_locations)),
        nodes_of(r).len() == nodes_of(*join_locations).len(),
        forall|k1: int, k2: int|
            0 <= k1 < nodes_of(r).len() && 0 <= k2 < nodes_of(r).len() ==> ((#[trigger] nodes_of(*join_locations)[k1])@
                == (#[trigger] nodes_of(*join_locations)[k2])@ <==> nodes_of(r)[k1] == nodes_of(r)[k2]),
    decreases join_locations,
{
    let ghost es = join_locations.locations@;
    let n = join_locations.locations.len();
    let mut out: Vec<(String, Location<JoinId>)> = Vec::new();
    let mut i: usize = 0;
    proof {
        lemma_extends_refl(*state);
        assert(es.take(0) =~= Seq::<(String, Location<RemoteJoin>)>::empty());
        assert(entries_nodes(es.take(0)) =~= Seq::<RemoteJoin>::empty());
        assert(out@ =~= Seq::<(String, Location<JoinId>)>::empty());
    }
    while i < n
        invariant
            n == join_locations.locations.len(),
            es == join_locations.locations@,
            i <= n,
            counter_wf(*state),
            extends(*old(state), *state),
            out.len() == i,
            forall|k: int| 0 <= k < i ==> #[trigger] entry_same_shape(es[k], out[k]),
            ids_recorded(*state, entries_nodes(es.take(i as int)), entries_nodes(out@)),
            state.remote_joins.len() <= old(state).remote_joins.len() + entries_nodes(es.take(i as int)).len(),
            old(state).remote_joins.len() + nodes_of(*join_locations).len() <= JoinId::MAX,
            table_views(*state) == table_after(table_views(*old(state)), entries_nodes(es.take(i as int))),
        decreases n - i,
    {
        let ghost s0 = *state;
        let ghost out0 = out@;
        proof {
            lemma_entries_nodes_take(es, i as int);
            lemma_entries_nodes_prefix_len(es, i as int + 1);
        }
        let entry = &join_locations.locations[i];
        let location: &'s Location<RemoteJoin> = &entry.1;
        let new_node = match &location.join_node {
            Some(join_node) => Some(assign_join_id(join_node, state)),
            None => None,
        };
        let ghost s1 = *state;
        proof {
            if location.join_node is None {
                lemma_extends_refl(s0);
            }
            lemma_table_after_opt(table_views(s0), location.join_node);
            assert(decreases_to!(*join_locations => join_locations.locations[i as int].1.rest));
        }
        let new_rest = assign_join_ids(&location.rest, state);
        let ghost s2 = *state;
        let new_location = Location { join_node: new_node, rest: new_rest };
        out.push((entry.0.clone(), new_location));
        proof {
            lemma_extends_trans(s0, s1, s2);
            lemma_extends_trans(*old(state), s0, s2);
            lemma_ids_recorded_extends(s0, s2, entries_nodes(es.take(i as int)), entries_nodes(out0));
            assert(ids_recorded(s2, opt_seq(location.join_node), opt_seq(new_node))) by {
                if location.join_node is Some {
                    lemma_extends_keeps(s1, s2, location.join_node.unwrap()@, new_node.unwrap());
                    assert(opt_seq(location.join_node)[0] == location.join_node.unwrap());
                }
            }
            lemma_ids_recorded_concat(s2, opt_seq(location.join_node), opt_seq(new_node), nodes_of(location.rest), nodes_of(new_rest));
            lemma_ids_recorded_concat(
                s2,
                entries_nodes(es.take(i as int)),
                entries_nodes(out0),
                location_nodes(*location),
                location_nodes(new_location),
            );
            assert(out@ =~= out0.push(out@[i as int]));
            lemma_entries_nodes_push(out0, out@[i as int]);
            assert((entries_nodes(es.take(i as int)) + location_nodes(*location)) =~= entries_nodes(es.take(i as int + 1)));
            lemma_table_after_concat(table_views(s0), opt_seq(location.join_node), nodes_of(location.rest));
            lemma_table_after_concat(
                table_views(*old(state)),
                entries_nodes(es.take(i as int)),
                location_nodes(*location),
            );
            assert(entry_same_shape(es[i as int], out[i as int]));
            assert forall|k: int| 0 <= k < i + 1 implies #[trigger] entry_same_shape(es[k], out[k]) by {
                if k < i {
                    assert(out[k] == out0[k]);
                }
            }
        }
        i = i + 1;
    }
    let r = JoinLocations { locations: out };
    proof {
        assert(es.take(n as int) =~= es);
        assert forall|k: int|
            #![trigger join_locations.locations[k]]
            0 <= k < join_locations.locations.len() implies {
            &&& join_locations.locations[k].0@ == r.locations[k].0@
            &&& (join_locations.locations[k].1.join_node is Some <==> r.locations[k].1.join_node is Some)
            &&& same_shape(join_locations.locations[k].1.rest, r.locations[k].1.rest)
        } by {
            assert(entry_same_shape(es[k], out[k]));
            assert(join_locations.locations[k] == es[k]);
            assert(r.locations[k] == out[k]);
        }
        assert(join_locations.locations.len() == r.locations.len());
        assert(same_shape(*join_locations, r));
        lemma_recorded_ids_agree(*state, nodes_of(*join_locations), nodes_of(r));
    }
    r
}

/// In a well-formed table, two join nodes whose ids are recorded got the
/// same id exactly when they are equal.
pub proof fn lemma_recorded_ids_agree(st: RemoteJoinCounter, nodes: Seq<RemoteJoin>, ids: Seq<JoinId>)
    requires
        counter_wf(st),
        ids_recorded(st, nodes, ids),
    ensures
        forall|k1: int, k2: int|
            0 <= k1 < ids.len() && 0 <= k2 < ids.len() ==> ((#[trigger] nodes[k1])@ == (#[trigger] nodes[k2])@
                <==> ids[k1] == ids[k2]),
{
    assert forall|k1: int, k2: int| 0 <= k1 < ids.len() && 0 <= k2 < ids.len() implies ((#[trigger] nodes[k1])@
        == (#[trigger] nodes[k2])@ <==> ids[k1] == ids[k2]) by {
        lemma_join_ids_agree(st, nodes[k1]@, ids[k1], nodes[k2]@, ids[k2]);
    }
}

/// The description of the error for a key of a join tree missing in the
/// tree of its join ids.
pub open spec fn missing_join_id_message() -> Seq<char> {
    "unexpected; could not find {key} in join ids tree"@
}

/// Pairs each join node with the join id found under the same key at the
/// same level of `join_ids`. Fails when a key of `join_locations` is missing
/// from `join_ids`.
pub fn zip_with_join_ids(join_locations: JoinLocations<RemoteJoin>, join_ids: JoinLocations<JoinId>) -> (r: Result<
    JoinLocations<(RemoteJoin, JoinId)>,
    Error,
>)
    requires
        jl_wf(join_locations),
    ensures
        r is Ok <==> zips(join_locations, join_ids),
        r matches Ok(out) ==> zipped(join_locations, join_ids, out),
        r matches Err(e) ==> e matches Error::InternalError(
            crate::schema::operations::InternalError::Engine(InternalEngineError::InternalGeneric { description }),
        ) && description@ == missing_join_id_message(),
    decreases join_locations,
{
    let ghost a = join_locations;
    let ghost b = join_ids;
    let ghost ea = join_locations.locations@;
    let ghost eb = join_ids.locations@;
    let mut entries = join_locations.locations;
    let mut remaining = join_ids.locations;
    let mut new_locations: Vec<(String, Location<(RemoteJoin, JoinId)>)> = Vec::new();
    let n = entries.len();
    let mut i: usize = 0;
    while i < n
        invariant
            n == ea.len(),
            i <= n,
            a == join_locations,
            b == join_ids,
            ea == a.locations@,
            eb == b.locations@,
            jl_wf(a),
            entries@ == ea.subrange(i as int, n as int),
            new_locations.len() == i,
            forall|k: int|
                0 <= k < n ==> (forall|q: int| 0 <= q < i ==> ea[q].0@ != #[trigger] ea[k].0@) ==> lookup(
                    remaining@,
                    ea[k].0@,
                ) == lookup(eb, ea[k].0@),
            forall|k: int|
                #![trigger a.locations[k]]
                0 <= k < i ==> {
                    &&& lookup(eb, a.locations[k].0@) is Some
                    &&& zips(a.locations[k].1.rest, lookup(eb, a.locations[k].0@).unwrap().rest)
                    &&& new_locations[k].0 == a.locations[k].0
                    &&& new_locations[k].1.join_node == pair(
                        a.locations[k].1.join_node,
                        lookup(eb, a.locations[k].0@).unwrap().join_node,
                    )
                    &&& zipped(
                        a.locations[k].1.rest,
                        lookup(eb, a.locations[k].0@).unwrap().rest,
                        new_locations[k].1.rest,
                    )
                },
        decreases n - i,
    {
        let (key, location) = entries.remove(0);
        proof {
            assert(ea[i as int] == (key, location));
            assert(a.locations[i as int] == ea[i as int]);
            assert(keys_unique(ea));
            assert(forall|q: int| 0 <= q < i ==> ea[q].0@ != ea[i as int].0@);
            assert(lookup(remaining@, key@) == lookup(eb, key@));
        }
        let m = remaining.len();
        let mut j: usize = 0;
        while j < m
            invariant
                m == remaining.len(),
                j <= m,
                forall|k: int| 0 <= k < j ==> #[trigger] remaining@[k].0@ != key@,
            ensures
                j <= m,
                forall|k: int| 0 <= k < j ==> #[trigger] remaining@[k].0@ != key@,
                j < m ==> remaining@[j as int].0@ == key@,
            decreases m - j,
        {
            if remaining[j].0 == key {
                break;
            }
            j = j + 1;
        }
        if j == m {
            proof {
                lemma_lookup_first(remaining@, key@, m as int);
                assert(!zips(a, b)) by {
                    assert(a.locations[i as int] == ea[i as int]);
                }
            }
            return Err(
                Error::engine(
                    InternalEngineError::InternalGeneric {
                        description: String::from_str("unexpected; could not find {key} in join ids tree"),
                    },
                ),
            );
        }
        let ghost rem0 = remaining@;
        proof {
            lemma_lookup_first(rem0, key@, j as int);
        }
        let (_id_key, join_id_location) = remaining.remove(j);
        proof {
            assert(join_id_location == lookup(eb, key@).unwrap());
            assert(jl_wf(location.rest)) by {
                assert(a.locations[i as int].1.rest == location.rest);
            }
            assert(decreases_to!(join_locations => join_locations.locations[i as int].1.rest));
            assert(join_locations.locations[i as int].1.rest == location.rest);
            assert forall|k: int|
                0 <= k < n && (forall|q: int| 0 <= q < i + 1 ==> ea[q].0@ != #[trigger] ea[k].0@) implies lookup(
                remaining@,
                ea[k].0@,
            ) == lookup(eb, ea[k].0@) by {
                assert(ea[i as int].0@ != ea[k].0@);
                lemma_lookup_remove(rem0, ea[k].0@, j as int);
            }
        }
        let new_node = match (location.join_node, join_id_location.join_node) {
            (Some(rj), Some(join_id)) => Some((rj, join_id)),
            _ => None,
        };
        let new_rest = match zip_with_join_ids(location.rest, join_id_location.rest) {
            Ok(new_rest) => new_rest,
            Err(e) => {
                proof {
                    assert(!zips(a, b)) by {
                        assert(a.locations[i as int] == ea[i as int]);
                    }
                }
                return Err(e);
            },
        };
        new_locations.push((key, Location { join_node: new_node, rest: new_rest }));
        proof {
            assert forall|k: int|
                #![trigger a.locations[k]]
                0 <= k < i + 1 implies {
                    &&& lookup(eb, a.locations[k].0@) is Some
                    &&& zips(a.locations[k].1.rest, lookup(eb, a.locations[k].0@).unwrap().rest)
                    &&& new_locations[k].0 == a.locations[k].0
                    &&& new_locations[k].1.join_node == pair(
                        a.locations[k].1.join_node,
                        lookup(eb, a.locations[k].0@).unwrap().join_node,
                    )
                    &&& zipped(
                        a.locations[k].1.rest,
                        lookup(eb, a.locations[k].0@).unwrap().rest,
                        new_locations[k].1.rest,
                    )
                } by {
                if k == i {
                    assert(a.locations[k] == ea[k]);
                }
            }
            assert(entries@ =~= ea.subrange(i as int + 1, n as int));
        }
        i = i + 1;
    }
    let out = JoinLocations { locations: new_locations };
    proof {
        assert(zips(a, b));
        assert(zipped(a, b, out));
    }
    Ok(out)
}

/// The sequence of pairs of two sequences of the same length.
pub open spec fn zip_seqs<A, B>(x: Seq<A>, y: Seq<B>) -> Seq<(A, B)> {
    Seq::new(x.len(), |k: int| (x[k], y[k]))
}

proof fn lemma_zip_concat<A, B>(x1: Seq<A>, x2: Seq<A>, y1: Seq<B>, y2: Seq<B>)
    requires
        x1.len() == y1.len(),
        x2.len() == y2.len(),
    ensures
        zip_seqs(x1 + x2, y1 + y2) == zip_seqs(x1, y1) + zip_seqs(x2, y2),
{
    assert(zip_seqs(x1 + x2, y1 + y2) =~= zip_seqs(x1, y1) + zip_seqs(x2, y2));
}

/// Trees of the same shape with unique keys find each key at its own place.
proof fn lemma_same_shape_lookup<A, B>(a: JoinLocations<A>, b: JoinLocations<B>, i: int)
    requires
        same_shape(a, b),
        keys_unique(a.locations@),
        0 <= i < a.locations.len(),
    ensures
        lookup(b.locations@, a.locations[i].0@) == Some(b.locations[i].1),
{
    assert(a.locations[i].0@ == b.locations[i].0@);
    assert forall|k: int| 0 <= k < i implies #[trigger] b.locations@[k].0@ != a.locations[i].0@ by {
        assert(a.locations[k].0@ == b.locations[k].0@);
        assert(a.locations@[k].0@ != a.locations@[i].0@);
    }
    lemma_lookup_first(b.locations@, a.locations[i].0@, i);
}

/// Trees of the same shape, the first with unique keys, zip.
proof fn lemma_same_shape_zips<A, B>(a: JoinLocations<A>, b: JoinLocations<B>)
    requires
        same_shape(a, b),
        jl_wf(a),
    ensures
        zips(a, b),
    decreases a,
{
    assert forall|i: int|
        #![trigger a.locations[i]]
        0 <= i < a.locations.len() implies {
            &&& lookup(b.locations@, a.locations[i].0@) is Some
            &&& zips(a.locations[i].1.rest, lookup(b.locations@, a.locations[i].0@).unwrap().rest)
        } by {
        lemma_same_shape_lookup(a, b, i);
        assert(jl_wf(a.locations[i].1.rest));
        lemma_same_shape_zips(a.locations[i].1.rest, b.locations[i].1.rest);
    }
}

/// Zipping trees of the same shape, the first with unique keys, pairs their
/// join nodes in order.
proof fn lemma_same_shape_zipped_nodes<A, B>(a: JoinLocations<A>, b: JoinLocations<B>, out: JoinLocations<(A, B)>)
    requires
        same_shape(a, b),
        jl_wf(a),
        zipped(a, b, out),
    ensures
        nodes_of(a).len() == nodes_of(b).len(),
        nodes_of(out) == zip_seqs(nodes_of(a), nodes_of(b)),
    decreases a, a.locations.len() + 1,
{
    let n = a.locations.len() as int;
    lemma_zipped_prefix(a, b, out, n);
    assert(a.locations@.take(n) =~= a.locations@);
    assert(b.locations@.take(n) =~= b.locations@);
    assert(out.locations@.take(n) =~= out.locations@);
}

proof fn lemma_zipped_prefix<A, B>(a: JoinLocations<A>, b: JoinLocations<B>, out: JoinLocations<(A, B)>, i: int)
    requires
        same_shape(a, b),
        jl_wf(a),
        zipped(a, b, out),
        0 <= i <= a.locations.len(),
    ensures
        entries_nodes(a.locations@.take(i)).len() == entries_nodes(b.locations@.take(i)).len(),
        entries_nodes(out.locations@.take(i)) == zip_seqs(
            entries_nodes(a.locations@.take(i)),
            entries_nodes(b.locations@.take(i)),
        ),
    decreases a, i,
{
    let ea = a.locations@;
    let eb = b.locations@;
    let eo = out.locations@;
    if i == 0 {
        assert(ea.take(0) =~= Seq::<(String, Location<A>)>::empty());
        assert(eb.take(0) =~= Seq::<(String, Location<B>)>::empty());
        assert(eo.take(0) =~= Seq::<(String, Location<(A, B)>)>::empty());
        assert(zip_seqs(Seq::<A>::empty(), Seq::<B>::empty()) =~= Seq::<(A, B)>::empty());
    } else {
        let j = i - 1;
        lemma_zipped_prefix(a, b, out, j);
        lemma_entries_nodes_take(ea, j);
        lemma_entries_nodes_take(eb, j);
        lemma_entries_nodes_take(eo, j);
        assert(a.locations[j] == ea[j]);
        lemma_same_shape_lookup(a, b, j);
        let la = ea[j].1;
        let lb = eb[j].1;
        let lo = eo[j].1;
        assert(jl_wf(la.rest));
        assert(same_shape(la.rest, lb.rest));
        assert(zipped(la.rest, lb.rest, lo.rest));
        assert(decreases_to!(a => la.rest)) by {
            assert(a.locations[j].1 == la);
        }
        lemma_same_shape_zipped_nodes(la.rest, lb.rest, lo.rest);
        assert(opt_seq(lo.join_node) =~= zip_seqs(opt_seq(la.join_node), opt_seq(lb.join_node)));
        lemma_zip_concat(opt_seq(la.join_node), nodes_of(la.rest), opt_seq(lb.join_node), nodes_of(lb.rest));
        lemma_zip_concat(
            entries_nodes(ea.take(j)),
            location_nodes(la),
            entries_nodes(eb.take(j)),
            location_nodes(lb),
        );
    }
}

/// Gives the join nodes of a tree their join ids (see `assign_join_ids`) and
/// pairs each node with its id. Join nodes get the same join id exactly when
/// they are equal, and the distinct joins get the ids 1, 2, ... in the order
/// they are first met.
pub fn assign_with_join_ids(join_locations: JoinLocations<RemoteJoin>) -> (r: Result<
    JoinLocations<(RemoteJoin, JoinId)>,
    Error,
>)
    requires
        jl_wf(join_locations),
        nodes_of(join_locations).len() <= JoinId::MAX,
    ensures
        r matches Ok(out) && join_ids_assigned(nodes_of(join_locations), nodes_of(out)),
{
    let ghost orig = join_locations;
    let join_ids;
    let ghost ok_ids: bool;
    {
        let mut state = RemoteJoinCounter::new();
        assert(table_views(state) =~= Seq::<RemoteJoinView>::empty());
        join_ids = assign_join_ids(&join_locations, &mut state);
        proof {
            let nodes = nodes_of(join_locations);
            let ids = nodes_of(join_ids);
            assert(table_views(state) == first_seen(nodes));
            assert forall|k: int| 0 <= k < nodes.len() implies 1 <= #[trigger] ids[k] <= first_seen(nodes).len()
                && first_seen(nodes)[ids[k] - 1] == nodes[k]@ by {
                assert(in_table(state, nodes[k]@, ids[k]));
                let j = choose|j: int|
                    0 <= j < state.remote_joins.len() && #[trigger] state.remote_joins[j].0@ == nodes[k]@
                        && state.remote_joins[j].1 == ids[k];
                assert(state.remote_joins[j].1 == j + 1);
                assert(table_views(state)[j] == nodes[k]@);
            }
            assert forall|k1: int, k2: int|
                0 <= k1 < nodes.len() && 0 <= k2 < nodes.len() implies (#[trigger] nodes[k1]@ == #[trigger] nodes[k2]@)
                <==> (ids[k1] == ids[k2]) by {
                lemma_join_ids_agree(state, nodes[k1]@, ids[k1], nodes[k2]@, ids[k2]);
            }
            assert forall|k: int| 0 <= k < nodes.len() implies 1 <= #[trigger] ids[k] <= nodes.len() by {
                assert(in_table(state, nodes[k]@, ids[k]));
            }
        }
    }
    let r = zip_with_join_ids(join_locations, join_ids);
    proof {
        lemma_same_shape_zips(orig, join_ids);
        lemma_same_shape_zipped_nodes(orig, join_ids, r.unwrap());
    }
    r
}

/// The pairs of join nodes and join ids hold the given nodes in order, equal
/// nodes have equal ids and different nodes different ids, the ids run from
/// 1 to the number of nodes, and the join with id `k` is the `k`-th distinct
/// join in the order they are first met.
pub open spec fn join_ids_assigned(nodes: Seq<RemoteJoin>, pairs: Seq<(RemoteJoin, JoinId)>) -> bool {
    &&& pairs.len() == nodes.len()
    &&& forall|k: int| 0 <= k < pairs.len() ==> #[trigger] pairs[k].0 == nodes[k]
    &&& forall|k1: int, k2: int|
        0 <= k1 < pairs.len() && 0 <= k2 < pairs.len() ==> ((#[trigger] pairs[k1]).0@ == (#[trigger] pairs[k2]).0@ <==> pairs[k1].1 == pairs[k2].1)
    &&& forall|k: int| 0 <= k < pairs.len() ==> 1 <= (#[trigger] pairs[k]).1 <= pairs.len()
    &&& forall|k: int|
        0 <= k < pairs.len() ==> 1 <= (#[trigger] pairs[k]).1 <= first_seen(nodes).len() && first_seen(
            nodes,
        )[pairs[k].1 - 1] == pairs[k].0@
}

/// A query and the data connector it is sent to.
#[derive(Debug)]
pub struct ExecutionNode {
    pub query: JsonValue,
    pub data_connector: DataConnector,
}

/// A query, and the remote joins to run on its result, each with its join id.
#[derive(Debug)]
pub struct ExecutionTree {
    pub root_node: ExecutionNode,
    pub remote_executions: JoinLocations<(RemoteJoin, JoinId)>,
}

/// How the answer of a data connector is read: as one object, as a list,
/// or as the result of a command of the given type.
#[derive(Debug)]
pub enum ProcessResponseAs {
    Object,
    Array,
    CommandResponse { command_name: Qualified<CommandName>, type_container: TypeContainer },
}

/// The execution tree of a data connector query and the tree of remote joins
/// met while building it: the joins get their join ids as
/// `assign_with_join_ids` gives them.
pub fn generate_execution_tree(
    query: JsonValue,
    data_connector: DataConnector,
    join_locations: JoinLocations<RemoteJoin>,
) -> (r: Result<ExecutionTree, Error>)
    requires
        jl_wf(join_locations),
        nodes_of(join_locations).len() <= JoinId::MAX,
    ensures
        r matches Ok(t) && t.root_node.query == query && t.root_node.data_connector == data_connector
            && join_ids_assigned(nodes_of(join_locations), nodes_of(t.remote_executions)),
{
    let remote_executions = assign_with_join_ids(join_locations)?;
    Ok(ExecutionTree { root_node: ExecutionNode { query, data_connector }, remote_executions })
}

/// A model selection as sent to its data connector: the query, the data
/// connector, and the remote joins met while building the query.
#[derive(Debug)]
pub struct ModelSelection {
    pub query: JsonValue,
    pub data_connector: DataConnector,
    pub join_locations: JoinLocations<RemoteJoin>,
}

/// A call of a command as sent to its data connector: the field it answers,
/// the command, its result type, the function or procedure behind it, the
/// query, the data connector and the remote joins met.
#[derive(Debug)]
pub struct LoweredCommand {
    pub field_name: String,
    pub command_name: Qualified<CommandName>,
    pub type_container: TypeContainer,
    pub ndc_source: DataConnectorCommand,
    pub query: JsonValue,
    pub data_connector: DataConnector,
    pub join_locations: JoinLocations<RemoteJoin>,
}

/// A field of the query root once lowered: each request as its data
/// connector takes it.
#[derive(Debug)]
pub enum LoweredQueryField {
    TypeName { typename: String },
    TypeField { typename: String, role: Role },
    SchemaField { role: Role },
    ModelSelectOne { field_name: String, selection: ModelSelection },
    ModelSelectMany { field_name: String, selection: ModelSelection },
    NodeSelect(Option<ModelSelection>),
    CommandRepresentation(LoweredCommand),
}

/// A field of the mutation root once lowered.
#[derive(Debug)]
pub enum LoweredMutationField {
    TypeName { typename: String },
    CommandRepresentation(LoweredCommand),
}

/// A lowered field of either root.
#[derive(Debug)]
pub enum LoweredRootField {
    QueryRootField(LoweredQueryField),
    MutationRootField(LoweredMutationField),
}

/// A query to run, the span attributes it is traced under, and how its
/// answer is read.
#[derive(Debug)]
pub struct NDCQueryExecution {
    pub execution_tree: ExecutionTree,
    pub execution_span_attribute: String,
    pub field_span_attribute: String,
    pub process_response_as: ProcessResponseAs,
}

/// A mutation to run, with its remote joins, the data connector, the span
/// attributes and how its answer is read.
#[derive(Debug)]
pub struct NDCMutationExecution {
    pub query: JsonValue,
    pub join_locations: JoinLocations<(RemoteJoin, JoinId)>,
    pub data_connector: DataConnector,
    pub execution_span_attribute: String,
    pub field_span_attribute: String,
    pub process_response_as: ProcessResponseAs,
}

/// The plan of one root field.
#[derive(Debug)]
pub enum NodeQueryPlan {
    TypeName { typename: String },
    SchemaField { role: Role },
    TypeField { typename: String, role: Role },
    NDCQueryExecution(NDCQueryExecution),
    RelayNodeSelect(Option<NDCQueryExecution>),
    NDCMutationExecution(NDCMutationExecution),
}

/// The join tree can be given join ids: its keys are distinct at every
/// level and the ids do not run out.
pub open spec fn joins_plannable(jl: JoinLocations<RemoteJoin>) -> bool {
    jl_wf(jl) && nodes_of(jl).len() <= JoinId::MAX
}

/// The joins of a field can be given join ids.
pub open spec fn query_field_plannable(ir: LoweredQueryField) -> bool {
    match ir {
        LoweredQueryField::ModelSelectOne { selection, .. } => joins_plannable(selection.join_locations),
        LoweredQueryField::ModelSelectMany { selection, .. } => joins_plannable(selection.join_locations),
        LoweredQueryField::NodeSelect(Some(selection)) => joins_plannable(selection.join_locations),
        LoweredQueryField::CommandRepresentation(c) => joins_plannable(c.join_locations),
        _ => true,
    }
}

/// The joins of a field can be given join ids.
pub open spec fn mutation_field_plannable(ir: LoweredMutationField) -> bool {
    match ir {
        LoweredMutationField::CommandRepresentation(c) => joins_plannable(c.join_locations),
        _ => true,
    }
}

/// The execution tree runs the query on the data connector, with the
/// remote joins given their join ids.
pub open spec fn runs(t: ExecutionTree, query: JsonValue, dc: DataConnector, jl: JoinLocations<RemoteJoin>) -> bool {
    t.root_node.query == query && t.root_node.data_connector == dc && join_ids_assigned(
        nodes_of(jl),
        nodes_of(t.remote_executions),
    )
}

/// The execution runs the selection, traced under the given span attributes
/// and read as one object or as a list.
pub open spec fn executes_selection(
    e: NDCQueryExecution,
    sel: ModelSelection,
    execution_span: Seq<char>,
    field_span: Seq<char>,
    as_array: bool,
) -> bool {
    &&& runs(e.execution_tree, sel.query, sel.data_connector, sel.join_locations)
    &&& e.execution_span_attribute@ == execution_span
    &&& e.field_span_attribute@ == field_span
    &&& if as_array {
        e.process_response_as is Array
    } else {
        e.process_response_as is Object
    }
}

/// How the answer of a command is read: as the command's result type.
pub open spec fn reads_command(p: ProcessResponseAs, c: LoweredCommand) -> bool {
    p matches ProcessResponseAs::CommandResponse { command_name, type_container } && command_name
        == c.command_name && type_container == c.type_container
}

/// What is reported for a procedure asked for in the query root.
pub open spec fn procedure_in_query_message() -> Seq<char> {
    "unexpected procedure for command in Query root field"@
}

/// What is reported for a function asked for in the mutation root.
pub open spec fn function_in_mutation_message() -> Seq<char> {
    "unexpected function for command in Mutation root field"@
}

/// The error of a field that cannot be planned, if it is one.
pub open spec fn query_field_failure(ir: LoweredQueryField) -> Option<Seq<char>> {
    match ir {
        LoweredQueryField::CommandRepresentation(c) => match c.ndc_source {
            DataConnectorCommand::Procedure(_) => Some(procedure_in_query_message()),
            DataConnectorCommand::Function(_) => None,
        },
        _ => None,
    }
}

/// The error of a field that cannot be planned, if it is one.
pub open spec fn mutation_field_failure(ir: LoweredMutationField) -> Option<Seq<char>> {
    match ir {
        LoweredMutationField::CommandRepresentation(c) => match c.ndc_source {
            DataConnectorCommand::Function(_) => Some(function_in_mutation_message()),
            DataConnectorCommand::Procedure(_) => None,
        },
        _ => None,
    }
}

/// An error is the generic internal error with the description.
pub open spec fn generic_error(e: Error, description: Seq<char>) -> bool {
    e matches Error::InternalError(InternalError::Engine(InternalEngineError::InternalGeneric { description: d }))
        && d@ == description
}

/// The plan of a query root field that can be planned.
pub open spec fn query_planned(ir: LoweredQueryField, p: NodeQueryPlan) -> bool {
    match ir {
        LoweredQueryField::TypeName { typename } => p matches NodeQueryPlan::TypeName { typename: t } && t == typename,
        LoweredQueryField::TypeField { typename, role } => p matches NodeQueryPlan::TypeField { typename: t, role: r }
            && t == typename && r == role,
        LoweredQueryField::SchemaField { role } => p matches NodeQueryPlan::SchemaField { role: r } && r == role,
        LoweredQueryField::ModelSelectOne { field_name, selection } => p matches NodeQueryPlan::NDCQueryExecution(e)
            && executes_selection(e, selection, "execute_model_select_one"@, field_name@, false),
        LoweredQueryField::ModelSelectMany { field_name, selection } => p matches NodeQueryPlan::NDCQueryExecution(e)
            && executes_selection(e, selection, "execute_model_select_many"@, field_name@, true),
        LoweredQueryField::NodeSelect(None) => p matches NodeQueryPlan::RelayNodeSelect(None),
        LoweredQueryField::NodeSelect(Some(selection)) => p matches NodeQueryPlan::RelayNodeSelect(Some(e))
            && executes_selection(e, selection, "execute_node"@, "node"@, false),
        LoweredQueryField::CommandRepresentation(c) => p matches NodeQueryPlan::NDCQueryExecution(e) && runs(
            e.execution_tree,
            c.query,
            c.data_connector,
            c.join_locations,
        ) && e.execution_span_attribute@ == "execute_command"@ && e.field_span_attribute@ == c.field_name@
            && reads_command(e.process_response_as, c),
    }
}

/// The plan of a mutation root field that can be planned.
pub open spec fn mutation_planned(ir: LoweredMutationField, p: NodeQueryPlan) -> bool {
    match ir {
        LoweredMutationField::TypeName { typename } => p matches NodeQueryPlan::TypeName { typename: t } && t == typename,
        LoweredMutationField::CommandRepresentation(c) => p matches NodeQueryPlan::NDCMutationExecution(m)
            && m.query == c.query && m.data_connector == c.data_connector && join_ids_assigned(
            nodes_of(c.join_locations),
            nodes_of(m.join_locations),
        ) && m.execution_span_attribute@ == "execute_command"@ && m.field_span_attribute@ == c.field_name@
            && reads_command(m.process_response_as, c),
    }
}

fn plan_selection(
    selection: ModelSelection,
    execution_span: &str,
    field_span: String,
    as_array: bool,
) -> (r: NDCQueryExecution)
    requires
        joins_plannable(selection.join_locations),
    ensures
        executes_selection(r, selection, execution_span@, field_span@, as_array),
{
    let ghost sel = selection;
    let ModelSelection { query, data_connector, join_locations } = selection;
    let execution_tree = generate_execution_tree(query, data_connector, join_locations).unwrap();
    NDCQueryExecution {
        execution_tree,
        execution_span_attribute: String::from_str(execution_span),
        field_span_attribute: field_span,
        process_response_as: if as_array {
            ProcessResponseAs::Array
        } else {
            ProcessResponseAs::Object
        },
    }
}

/// The plan of a field of the query root: introspection fields are answered
/// from the schema; a model selection or a function becomes a query with its
/// remote joins given join ids; a node field whose global ID names no
/// selection becomes an empty node select. A procedure is an error.
pub fn plan_query(ir: LoweredQueryField) -> (r: Result<NodeQueryPlan, Error>)
    requires
        query_field_plannable(ir),
    ensures
        match query_field_failure(ir) {
            Some(d) => r matches Err(e) && generic_error(e, d),
            None => r matches Ok(p) && query_planned(ir, p),
        },
{
    let ghost orig = ir;
    match ir {
        LoweredQueryField::TypeName { typename } => Ok(NodeQueryPlan::TypeName { typename }),
        LoweredQueryField::TypeField { typename, role } => Ok(NodeQueryPlan::TypeField { typename, role }),
        LoweredQueryField::SchemaField { role } => Ok(NodeQueryPlan::SchemaField { role }),
        LoweredQueryField::ModelSelectOne { field_name, selection } => {
            let e = plan_selection(selection, "execute_model_select_one", field_name, false);
            proof {
                reveal_strlit("execute_model_select_one");
            }
            Ok(NodeQueryPlan::NDCQueryExecution(e))
        },
        LoweredQueryField::ModelSelectMany { field_name, selection } => {
            let e = plan_selection(selection, "execute_model_select_many", field_name, true);
            proof {
                reveal_strlit("execute_model_select_many");
            }
            Ok(NodeQueryPlan::NDCQueryExecution(e))
        },
        LoweredQueryField::NodeSelect(optional) => match optional {
            Some(selection) => {
                let e = plan_selection(selection, "execute_node", String::from_str("node"), false);
                proof {
                    reveal_strlit("execute_node");
                    reveal_strlit("node");
                }
                Ok(NodeQueryPlan::RelayNodeSelect(Some(e)))
            },
            None => Ok(NodeQueryPlan::RelayNodeSelect(None)),
        },
        LoweredQueryField::CommandRepresentation(c) => {
            let ghost cv = c;
            let LoweredCommand {
                field_name,
                command_name,
                type_container,
                ndc_source,
                query,
                data_connector,
                join_locations,
            } = c;
            match ndc_source {
                DataConnectorCommand::Procedure(_) => {
                    proof {
                        reveal_strlit("unexpected procedure for command in Query root field");
                    }
                    Err(
                        Error::engine(
                            InternalEngineError::InternalGeneric {
                                description: String::from_str(
                                    "unexpected procedure for command in Query root field",
                                ),
                            },
                        ),
                    )
                },
                DataConnectorCommand::Function(_) => {
                    let execution_tree = match generate_execution_tree(query, data_connector, join_locations) {
                        Ok(t) => t,
                        Err(e) => {
                            assert(false);
                            return Err(e);
                        },
                    };
                    proof {
                        reveal_strlit("execute_command");
                    }
                    Ok(
                        NodeQueryPlan::NDCQueryExecution(
                            NDCQueryExecution {
                                execution_tree,
                                execution_span_attribute: String::from_str("execute_command"),
                                field_span_attribute: field_name,
                                process_response_as: ProcessResponseAs::CommandResponse {
                                    command_name,
                                    type_container,
                                },
                            },
                        ),
                    )
                },
            }
        },
    }
}

/// The plan of a field of the mutation root: a procedure becomes a mutation
/// with its remote joins given join ids. A function is an error.
pub fn plan_mutation(ir: LoweredMutationField) -> (r: Result<NodeQueryPlan, Error>)
    requires
        mutation_field_plannable(ir),
    ensures
        match mutation_field_failure(ir) {
            Some(d) => r matches Err(e) && generic_error(e, d),
            None => r matches Ok(p) && mutation_planned(ir, p),
        },
{
    match ir {
        LoweredMutationField::TypeName { typename } => Ok(NodeQueryPlan::TypeName { typename }),
        LoweredMutationField::CommandRepresentation(c) => {
            let LoweredCommand {
                field_name,
                command_name,
                type_container,
                ndc_source,
                query,
                data_connector,
                join_locations,
            } = c;
            match ndc_source {
                DataConnectorCommand::Function(_) => {
                    proof {
                        reveal_strlit("unexpected function for command in Mutation root field");
                    }
                    Err(
                        Error::engine(
                            InternalEngineError::InternalGeneric {
                                description: String::from_str(
                                    "unexpected function for command in Mutation root field",
                                ),
                            },
                        ),
                    )
                },
                DataConnectorCommand::Procedure(_) => {
                    let join_locations = match assign_with_join_ids(join_locations) {
                        Ok(j) => j,
                        Err(e) => {
                            assert(false);
                            return Err(e);
                        },
                    };
                    proof {
                        reveal_strlit("execute_command");
                    }
                    Ok(
                        NodeQueryPlan::NDCMutationExecution(
                            NDCMutationExecution {
                                query,
                                join_locations,
                                data_connector,
                                execution_span_attribute: String::from_str("execute_command"),
                                field_span_attribute: field_name,
                                process_response_as: ProcessResponseAs::CommandResponse {
                                    command_name,
                                    type_container,
                                },
                            },
                        ),
                    )
                },
            }
        },
    }
}

/// The joins of a root field can be given join ids.
pub open spec fn root_field_plannable(f: LoweredRootField) -> bool {
    match f {
        LoweredRootField::QueryRootField(q) => query_field_plannable(q),
        LoweredRootField::MutationRootField(m) => mutation_field_plannable(m),
    }
}

/// The error of a root field that cannot be planned, if it is one.
pub open spec fn root_field_failure(f: LoweredRootField) -> Option<Seq<char>> {
    match f {
        LoweredRootField::QueryRootField(q) => query_field_failure(q),
        LoweredRootField::MutationRootField(m) => mutation_field_failure(m),
    }
}

/// The plan of a root field that can be planned.
pub open spec fn root_field_planned(f: LoweredRootField, p: NodeQueryPlan) -> bool {
    match f {
        LoweredRootField::QueryRootField(q) => query_planned(q, p),
        LoweredRootField::MutationRootField(m) => mutation_planned(m, p),
    }
}

/// `i` is the first field that cannot be planned.
pub open spec fn first_unplannable(ir: Seq<(String, LoweredRootField)>, i: int) -> bool {
    &&& 0 <= i < ir.len()
    &&& root_field_failure(ir[i].1) is Some
    &&& forall|j: int| 0 <= j < i ==> root_field_failure(#[trigger] ir[j].1) is None
}

/// The plan of each root field under its alias, in the order of the
/// request; the error of the first field that cannot be planned, if any.
pub fn generate_query_plan(ir: Vec<(String, LoweredRootField)>) -> (r: Result<Vec<(String, NodeQueryPlan)>, Error>)
    requires
        forall|i: int| 0 <= i < ir.len() ==> root_field_plannable(#[trigger] ir@[i].1),
    ensures
        match r {
            Ok(plan) => plan.len() == ir.len() && forall|i: int|
                0 <= i < ir.len() ==> (#[trigger] plan@[i]).0@ == ir@[i].0@ && root_field_failure(ir@[i].1) is None
                    && root_field_planned(ir@[i].1, plan@[i].1),
            Err(e) => exists|i: int| first_unplannable(ir@, i) && generic_error(e, root_field_failure(ir@[i].1)->Some_0),
        },
        (exists|i: int| 0 <= i < ir.len() && root_field_failure(#[trigger] ir@[i].1) is Some) ==> r is Err,
{
    let ghost orig = ir@;
    let mut rest = ir;
    let mut plan: Vec<(String, NodeQueryPlan)> = Vec::new();
    let ghost mut i: int = 0;
    while rest.len() > 0
        invariant
            0 <= i <= orig.len(),
            rest@ == orig.subrange(i, orig.len() as int),
            orig == ir@,
            plan.len() == i,
            forall|k: int| 0 <= k < orig.len() ==> root_field_plannable(#[trigger] orig[k].1),
            forall|k: int|
                0 <= k < i ==> (#[trigger] plan@[k]).0@ == orig[k].0@ && root_field_failure(orig[k].1) is None
                    && root_field_planned(orig[k].1, plan@[k].1),
        decreases rest.len(),
    {
        assert(rest@[0] == orig[i]);
        let (alias, field) = rest.remove(0);
        let ghost f0 = field;
        assert(f0 == orig[i].1);
        assert(alias@ == orig[i].0@);
        let field_plan = match field {
            LoweredRootField::QueryRootField(q) => plan_query(q),
            LoweredRootField::MutationRootField(m) => plan_mutation(m),
        };
        match field_plan {
            Ok(p) => {
                assert(root_field_failure(f0) is None);
                assert(root_field_planned(f0, p));
                let ghost before = plan@;
                plan.push((alias, p));
                proof {
                    assert forall|k: int| 0 <= k < i + 1 implies (#[trigger] plan@[k]).0@ == orig[k].0@
                        && root_field_failure(orig[k].1) is None && root_field_planned(orig[k].1, plan@[k].1) by {
                        if k < i {
                            assert(plan@[k] == before[k]);
                        }
                    }
                }
            },
            Err(e) => {
                assert(root_field_failure(f0) is Some);
                assert(generic_error(e, root_field_failure(f0)->Some_0));
                assert forall|j: int| 0 <= j < i implies root_field_failure(#[trigger] orig[j].1) is None by {
                    assert(plan@[j].0@ == orig[j].0@);
                }
                assert(first_unplannable(orig, i));
                assert(orig == ir@);
                return Err(e);
            },
        }
        proof {
            i = i + 1;
            assert(rest@ =~= orig.subrange(i, orig.len() as int));
        }
    }
    assert(i == orig.len());
    assert forall|k: int| 0 <= k < orig.len() implies root_field_failure(#[trigger] orig[k].1) is None by {
        assert(plan@[k].0@ == orig[k].0@);
    }
    Ok(plan)
}

} // verus!
