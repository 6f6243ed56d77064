//! Data connectors as the engine resolves them from metadata.

use vstd::prelude::*;
use vstd::string::*;

use super::subgraph::Qualified;
use crate::open_dds::names::{DataConnectorName, Ident};

verus! {

/// Where a data connector is reached: one URL, or one for reads and one for
/// writes.
#[derive(Debug, PartialEq, Eq)]
pub enum ResolvedDataConnectorUrl {
    SingleUrl(String),
    ReadWriteUrls { read: String, write: String },
}

/// The abstract value of a data connector URL.
pub enum DataConnectorUrlView {
    SingleUrl(Seq<char>),
    ReadWriteUrls { read: Seq<char>, write: Seq<char> },
}

impl View for ResolvedDataConnectorUrl {
    type V = DataConnectorUrlView;

    open spec fn view(&self) -> DataConnectorUrlView {
        match self {
            ResolvedDataConnectorUrl::SingleUrl(u) => DataConnectorUrlView::SingleUrl(u@),
            ResolvedDataConnectorUrl::ReadWriteUrls { read, write } => DataConnectorUrlView::ReadWriteUrls {
                read: read@,
                write: write@,
            },
        }
    }
}

/// A resolved data connector: its name, where it is reached, and the HTTP
/// headers sent with each request.
#[derive(Debug, PartialEq, Eq)]
pub struct DataConnector {
    pub name: Qualified<DataConnectorName>,
    pub url: ResolvedDataConnectorUrl,
    pub headers: Vec<(String, String)>,
}

/// The abstract value of a data connector.
pub struct DataConnectorView {
    pub name: (Seq<char>, Seq<char>),
    pub url: DataConnectorUrlView,
    pub headers: Seq<(Seq<char>, Seq<char>)>,
}

impl View for DataConnector {
    type V = DataConnectorView;

    open spec fn view(&self) -> DataConnectorView {
        DataConnectorView {
            name: self.name@,
            url: self.url@,
            headers: self.headers@.map_values(|h: (String, String)| (h.0@, h.1@)),
        }
    }
}

/// Whether two lists of string pairs hold the same pairs in the same order.
pub fn string_pairs_eq(a: &Vec<(String, String)>, b: &Vec<(String, String)>) -> (r: bool)
    ensures
        r == (a@.map_values(|h: (String, String)| (h.0@, h.1@)) == b@.map_values(
            |h: (String, String)| (h.0@, h.1@),
        )),
{
    let ghost va = a@.map_values(|h: (String, String)| (h.0@, h.1@));
    let ghost vb = b@.map_values(|h: (String, String)| (h.0@, h.1@));
    if a.len() != b.len() {
        assert(va.len() != vb.len());
        return false;
    }
    let mut i: usize = 0;
    while i < a.len()
        invariant
            i <= a.len(),
            a.len() == b.len(),
            va == a@.map_values(|h: (String, String)| (h.0@, h.1@)),
            vb == b@.map_values(|h: (String, String)| (h.0@, h.1@)),
            forall|j: int| 0 <= j < i ==> #[trigger] va[j] == vb[j],
        decreases a.len() - i,
    {
        let x = a[i].0 == b[i].0;
        let y = a[i].1 == b[i].1;
        if !(x && y) {
            assert(va[i as int] != vb[i as int]);
            return false;
        }
        assert(va[i as int] == vb[i as int]);
        i = i + 1;
    }
    assert(va =~= vb);
    true
}

impl DataConnector {
    /// Whether two data connectors are the same.
    pub fn same(&self, other: &DataConnector) -> (r: bool)
        ensures
            r == (self@ == other@),
    {
        let n = self.name.same(&other.name);
        let u = match (&self.url, &other.url) {
            (ResolvedDataConnectorUrl::SingleUrl(a), ResolvedDataConnectorUrl::SingleUrl(b)) => *a == *b,
            (
                ResolvedDataConnectorUrl::ReadWriteUrls { read: r1, write: w1 },
                ResolvedDataConnectorUrl::ReadWriteUrls { read: r2, write: w2 },
            ) => *r1 == *r2 && *w1 == *w2,
            _ => false,
        };
        let h = string_pairs_eq(&self.headers, &other.headers);
        n && u && h
    }
}

/// What the engine knows of a data connector: where it is reached, the
/// headers sent to it, and whether it supports queries with variables and
/// relationships.
#[derive(Debug, PartialEq, Eq)]
pub struct DataConnectorContext {
    pub url: ResolvedDataConnectorUrl,
    pub headers: Vec<(String, String)>,
    pub supports_variables: bool,
    pub supports_relationships: bool,
}

} // verus!
