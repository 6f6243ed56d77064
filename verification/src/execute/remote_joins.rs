//! Remote joins: queries to other data connectors whose results are joined
//! into the response of a query, and the tree of places where they happen.

use vstd::prelude::*;
use vstd::string::*;

use crate::json::{json_eq, JsonValue, JsonView};
use crate::metadata::resolved::data_connector::{DataConnector, DataConnectorView};

verus! {

/// The identifier given to a remote join.
pub type JoinId = u32;

/// A counter that hands out 1, 2, 3, ... in turn.
#[derive(Debug)]
pub struct MonotonicCounter {
    id: JoinId,
}

impl MonotonicCounter {
    /// The last value handed out (0 before the first).
    pub closed spec fn value(&self) -> nat {
        self.id as nat
    }

    pub fn new() -> (r: MonotonicCounter)
        ensures
            r.value() == 0,
    {
        MonotonicCounter { id: 0 }
    }

    /// Hands out the next value.
    pub fn get_next(&mut self) -> (r: JoinId)
        requires
            old(self).value() < JoinId::MAX,
        ensures
            final(self).value() == old(self).value() + 1,
            r == final(self).value(),
    {
        self.id = self.id + 1;
        self.id
    }
}

/// A query to run on another data connector, and the columns that join its
/// rows to the rows of the query it belongs to.
#[derive(Debug)]
pub struct RemoteJoin {
    /// The NDC query request to send to the target data connector.
    pub target_ndc_ir: JsonValue,
    /// The data connector the query is sent to.
    pub target_data_connector: DataConnector,
    /// For each join field: the phantom column alias of the source and the
    /// target column.
    pub join_columns: Vec<(String, (String, String))>,
}

/// The abstract value of a remote join.
pub struct RemoteJoinView {
    pub target_ndc_ir: JsonView,
    pub target_data_connector: DataConnectorView,
    pub join_columns: Seq<(Seq<char>, (Seq<char>, Seq<char>))>,
}

pub open spec fn join_column_view(c: (String, (String, String))) -> (Seq<char>, (Seq<char>, Seq<char>)) {
    (c.0@, (c.1.0@, c.1.1@))
}

impl View for RemoteJoin {
    type V = RemoteJoinView;

    open spec fn view(&self) -> RemoteJoinView {
        RemoteJoinView {
            target_ndc_ir: self.target_ndc_ir@,
            target_data_connector: self.target_data_connector@,
            join_columns: self.join_columns@.map_values(|c: (String, (String, String))| join_column_view(c)),
        }
    }
}

fn join_columns_eq(a: &Vec<(String, (String, String))>, b: &Vec<(String, (String, String))>) -> (r: bool)
    ensures
        r == (a@.map_values(|c: (String, (String, String))| join_column_view(c)) == b@.map_values(
            |c: (String, (String, String))| join_column_view(c),
        )),
{
    let ghost va = a@.map_values(|c: (String, (String, String))| join_column_view(c));
    let ghost vb = b@.map_values(|c: (String, (String, String))| join_column_view(c));
    if a.len() != b.len() {
        assert(va.len() != vb.len());
        return false;
    }
    let mut i: usize = 0;
    while i < a.len()
        invariant
            i <= a.len(),
            a.len() == b.len(),
            va == a@.map_values(|c: (String, (String, String))| join_column_view(c)),
            vb == b@.map_values(|c: (String, (String, String))| join_column_view(c)),
            forall|j: int| 0 <= j < i ==> #[trigger] va[j] == vb[j],
        decreases a.len() - i,
    {
        let x = a[i].0 == b[i].0;
        let y = a[i].1.0 == b[i].1.0;
        let z = a[i].1.1 == b[i].1.1;
        if !(x && y && z) {
            assert(va[i as int] != vb[i as int]);
            return false;
        }
        assert(va[i as int] == vb[i as int]);
        i = i + 1;
    }
    assert(va =~= vb);
    true
}

impl RemoteJoin {
    /// Whether two remote joins are the same.
    pub fn same(&self, other: &RemoteJoin) -> (r: bool)
        ensures
            r == (self@ == other@),
    {
        let a = json_eq(&self.target_ndc_ir, &other.target_ndc_ir);
        let b = self.target_data_connector.same(&other.target_data_connector);
        let c = join_columns_eq(&self.join_columns, &other.join_columns);
        a && b && c
    }
}

/// The places in a response where remote joins happen, keyed by field alias.
#[derive(Debug)]
pub struct JoinLocations<T> {
    pub locations: Vec<(String, Location<T>)>,
}

/// A place in a response: the join made there, if any, and the places below.
#[derive(Debug)]
pub struct Location<T> {
    pub join_node: Option<T>,
    pub rest: JoinLocations<T>,
}

impl<T> JoinLocations<T> {
    pub fn new() -> (r: JoinLocations<T>)
        ensures
            r.locations@.len() == 0,
    {
        JoinLocations { locations: Vec::new() }
    }
}

/// No two entries have the same key.
pub open spec fn keys_unique<T>(es: Seq<(String, Location<T>)>) -> bool {
    forall|i: int, j: int| 0 <= i < j < es.len() ==> es[i].0@ != es[j].0@
}

/// Keys are unique at every level, as in a map.
pub open spec fn jl_wf<T>(jl: JoinLocations<T>) -> bool
    decreases jl,
{
    &&& keys_unique(jl.locations@)
    &&& forall|i: int| 0 <= i < jl.locations.len() ==> jl_wf(#[trigger] jl.locations[i].1.rest)
}

pub open spec fn opt_seq<T>(o: Option<T>) -> Seq<T> {
    match o {
        Some(n) => seq![n],
        None => Seq::empty(),
    }
}

/// The join nodes of a tree of locations, each location's own node before
/// those below it, in the order of the entries.
pub open spec fn nodes_of<T>(jl: JoinLocations<T>) -> Seq<T>
    decreases jl, 2nat,
{
    entries_nodes(jl.locations@)
}

pub open spec fn entries_nodes<T>(es: Seq<(String, Location<T>)>) -> Seq<T>
    decreases es, 1nat,
{
    if es.len() == 0 {
        Seq::empty()
    } else {
        entries_nodes(es.drop_last()) + location_nodes(es.last().1)
    }
}

pub open spec fn location_nodes<T>(l: Location<T>) -> Seq<T>
    decreases l, 0nat,
{
    opt_seq(l.join_node) + nodes_of(l.rest)
}

/// Two trees have the same keys in the same order and join nodes at the same
/// places.
pub open spec fn same_shape<A, B>(a: JoinLocations<A>, b: JoinLocations<B>) -> bool
    decreases a,
{
    &&& a.locations.len() == b.locations.len()
    &&& forall|i: int|
        #![trigger a.locations[i]]
        0 <= i < a.locations.len() ==> {
            &&& a.locations[i].0@ == b.locations[i].0@
            &&& (a.locations[i].1.join_node is Some <==> b.locations[i].1.join_node is Some)
            &&& same_shape(a.locations[i].1.rest, b.locations[i].1.rest)
        }
}

/// Two entries have the same key, a join node in the same cases, and trees
/// of the same shape below.
pub open spec fn entry_same_shape<A, B>(a: (String, Location<A>), b: (String, Location<B>)) -> bool {
    &&& a.0@ == b.0@
    &&& (a.1.join_node is Some <==> b.1.join_node is Some)
    &&& same_shape(a.1.rest, b.1.rest)
}

pub proof fn lemma_entries_nodes_push<T>(es: Seq<(String, Location<T>)>, e: (String, Location<T>))
    ensures
        entries_nodes(es.push(e)) == entries_nodes(es) + location_nodes(e.1),
{
    assert(es.push(e).drop_last() =~= es);
}

pub proof fn lemma_entries_nodes_take<T>(es: Seq<(String, Location<T>)>, i: int)
    requires
        0 <= i < es.len(),
    ensures
        entries_nodes(es.take(i + 1)) == entries_nodes(es.take(i)) + location_nodes(es[i].1),
{
    assert(es.take(i + 1) =~= es.take(i).push(es[i]));
    lemma_entries_nodes_push(es.take(i), es[i]);
}

pub proof fn lemma_entries_nodes_prefix_len<T>(es: Seq<(String, Location<T>)>, i: int)
    requires
        0 <= i <= es.len(),
    ensures
        entries_nodes(es.take(i)).len() <= entries_nodes(es).len(),
    decreases es.len() - i,
{
    if i < es.len() {
        lemma_entries_nodes_take(es, i);
        lemma_entries_nodes_prefix_len(es, i + 1);
    } else {
        assert(es.take(i) =~= es);
    }
}

/// The location under `key`: that of the first entry with this key.
pub open spec fn lookup<T>(es: Seq<(String, Location<T>)>, key: Seq<char>) -> Option<Location<T>>
    decreases es.len(),
{
    if es.len() == 0 {
        None
    } else if es[0].0@ == key {
        Some(es[0].1)
    } else {
        lookup(es.drop_first(), key)
    }
}

/// Looking a key up finds the first entry with that key, or nothing when no
/// entry has it.
pub proof fn lemma_lookup_first<T>(es: Seq<(String, Location<T>)>, key: Seq<char>, j: int)
    requires
        0 <= j <= es.len(),
        forall|k: int| 0 <= k < j ==> #[trigger] es[k].0@ != key,
        j < es.len() ==> es[j].0@ == key,
    ensures
        j < es.len() ==> lookup(es, key) == Some(es[j].1),
        j == es.len() ==> lookup(es, key) is None,
    decreases j,
{
    if j > 0 {
        assert(es[0].0@ != key);
        let t = es.drop_first();
        assert forall|k: int| 0 <= k < j - 1 implies #[trigger] t[k].0@ != key by {
            assert(t[k] == es[k + 1]);
        }
        lemma_lookup_first(t, key, j - 1);
    }
}

/// Removing an entry with another key does not change what a key finds.
pub proof fn lemma_lookup_remove<T>(es: Seq<(String, Location<T>)>, key: Seq<char>, j: int)
    requires
        0 <= j < es.len(),
        es[j].0@ != key,
    ensures
        lookup(es.remove(j), key) == lookup(es, key),
    decreases es.len(),
{
    if j == 0 {
        assert(es.remove(0) =~= es.drop_first());
    } else {
        if es[0].0@ != key {
            assert(es.remove(j).drop_first() =~= es.drop_first().remove(j - 1));
            lemma_lookup_remove(es.drop_first(), key, j - 1);
        }
    }
}

/// Every key of `a`, at every level, is found in `b` at the same level.
pub open spec fn zips<A, B>(a: JoinLocations<A>, b: JoinLocations<B>) -> bool
    decreases a,
{
    forall|i: int|
        #![trigger a.locations[i]]
        0 <= i < a.locations.len() ==> {
            &&& lookup(b.locations@, a.locations[i].0@) is Some
            &&& zips(a.locations[i].1.rest, lookup(b.locations@, a.locations[i].0@).unwrap().rest)
        }
}

pub open spec fn pair<A, B>(a: Option<A>, b: Option<B>) -> Option<(A, B)> {
    match (a, b) {
        (Some(x), Some(y)) => Some((x, y)),
        _ => None,
    }
}

/// `out` has the entries of `a` in order, each with the join node of `a`
/// paired with that found in `b` under the same key, and likewise below.
pub open spec fn zipped<A, B>(a: JoinLocations<A>, b: JoinLocations<B>, out: JoinLocations<(A, B)>) -> bool
    decreases a,
{
    &&& out.locations.len() == a.locations.len()
    &&& forall|i: int|
        #![trigger a.locations[i]]
        0 <= i < a.locations.len() ==> {
            &&& out.locations[i].0 == a.locations[i].0
            &&& out.locations[i].1.join_node == pair(
                a.locations[i].1.join_node,
                lookup(b.locations@, a.locations[i].0@).unwrap().join_node,
            )
            &&& zipped(
                a.locations[i].1.rest,
                lookup(b.locations@, a.locations[i].0@).unwrap().rest,
                out.locations[i].1.rest,
            )
        }
}

} // verus!
