//! The network of records as it is drawn: one node per record, one edge
//! per connection.

use crate::models::{status_name, status_to_string, Paper, PaperConnection};
use vstd::prelude::*;
use vstd::string::*;

verus! {

/// A record as a node.
#[derive(Debug)]
pub struct GraphNode {
    pub id: String,
    pub label: String,
    pub title: String,
    pub group: String,
    pub year: Option<i32>,
}

/// A connection as an edge.
#[derive(Debug)]
pub struct GraphEdge {
    pub from: String,
    pub to: String,
    pub title: String,
}

/// The nodes and edges of a vault.
#[derive(Debug)]
pub struct GraphData {
    pub nodes: Vec<GraphNode>,
    pub edges: Vec<GraphEdge>,
}

/// The node shows the record: id and label are its key, the group is the
/// name of its status.
pub open spec fn shows_paper(node: GraphNode, paper: Paper) -> bool {
    &&& node.id@ == paper.citekey@
    &&& node.label@ == paper.citekey@
    &&& node.title@ == paper.title@
    &&& node.group@ == status_name(paper.status)
    &&& node.year == paper.year
}

/// The edge shows the connection, its reason as the title.
pub open spec fn shows_connection(edge: GraphEdge, connection: PaperConnection) -> bool {
    &&& edge.from@ == connection.source@
    &&& edge.to@ == connection.target@
    &&& edge.title@ == connection.reason@
}

/// The graph shows the records and connections, each in its place.
pub open spec fn shows_vault(
    graph: GraphData,
    papers: Seq<Paper>,
    connections: Seq<PaperConnection>,
) -> bool {
    &&& graph.nodes@.len() == papers.len()
    &&& forall|i: int| 0 <= i < papers.len() ==> shows_paper(#[trigger] graph.nodes@[i], papers[i])
    &&& graph.edges@.len() == connections.len()
    &&& forall|i: int|
        0 <= i < connections.len() ==> shows_connection(
            #[trigger] graph.edges@[i],
            connections[i],
        )
}

/// The graph of a vault: a node for every record and an edge for every
/// connection, in the order given.
pub fn build_graph(papers: &Vec<Paper>, connections: &Vec<PaperConnection>) -> (graph: GraphData)
    ensures
        shows_vault(graph, papers@, connections@),
{
    let mut nodes: Vec<GraphNode> = Vec::new();
    let mut i: usize = 0;
    while i < papers.len()
        invariant
            i <= papers@.len(),
            nodes@.len() == i,
            forall|k: int| 0 <= k < i ==> shows_paper(#[trigger] nodes@[k], papers@[k]),
        decreases papers@.len() - i,
    {
        let paper = &papers[i];
        nodes.push(
            GraphNode {
                id: paper.citekey.clone(),
                label: paper.citekey.clone(),
                title: paper.title.clone(),
                group: String::from_str(status_to_string(&paper.status)),
                year: paper.year,
            },
        );
        i += 1;
    }
    let mut edges: Vec<GraphEdge> = Vec::new();
    let mut j: usize = 0;
    while j < connections.len()
        invariant
            j <= connections@.len(),
            edges@.len() == j,
            forall|k: int| 0 <= k < j ==> shows_connection(#[trigger] edges@[k], connections@[k]),
        decreases connections@.len() - j,
    {
        let connection = &connections[j];
        edges.push(
            GraphEdge {
                from: connection.source.clone(),
                to: connection.target.clone(),
                title: connection.reason.clone(),
            },
        );
        j += 1;
    }
    GraphData { nodes, edges }
}

} // verus!
