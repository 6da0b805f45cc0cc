//! The graph store's decisions: what a bot's graph is when its document is
//! there, and what it is, and what is to be written, when it is not.

use vstd::prelude::*;
use crate::document::{GraphParseError, graph_of_text, parse_graph};
use crate::graph::{GraphDocument, default_graph_view};

verus! {

/// The document that is written for a bot that has none: a start node and an
/// end node with their ports and places, and one execution edge between them.
pub const DEFAULT_GRAPH_TEXT: &'static str = r#"{
    "nodes": [
        {
            "id": "start",
            "x": 200,
            "y": 300,
            "label": "Start",
            "skillType": "start",
            "inputs": [],
            "outputs": [
                {
                    "id": "exec_out",
                    "label": "Exec",
                    "type": "EXEC",
                    "io": "output"
                }
            ]
        },
        {
            "id": "end",
            "x": 1000,
            "y": 300,
            "label": "End",
            "skillType": "end",
            "inputs": [
                {
                    "id": "exec_in",
                    "label": "Exec",
                    "type": "EXEC",
                    "io": "input"
                }
            ],
            "outputs": []
        }
    ],
    "edges": [
        {
            "fromSkillId": "start",
            "fromPortId": "exec_out",
            "toSkillId": "end",
            "toPortId": "exec_in",
            "edgeType": "execution"
        }
    ]
}"#;

/// What the store hands out for one bot.
#[derive(Debug, Clone, PartialEq, Eq)]
pub struct Loaded {
    /// The bot's graph.
    pub graph: GraphDocument,
    /// The text of the bot's document.
    pub text: String,
    /// Whether `text` is still to be written to the bot's document.
    pub persist: bool,
}

/// Loads a bot's graph from what was found at the place of its document:
/// `None` where there is no document, the document's text where there is one.
/// A bot without a document gets the default graph, and the default text is
/// to be written. A document that is there is read, and never written.
pub fn load_graph(stored: Option<&str>) -> (result: Result<Loaded, GraphParseError>)
    ensures
        match stored {
            None => result matches Ok(loaded) && loaded.graph@ == default_graph_view()
                && loaded.text@ == DEFAULT_GRAPH_TEXT@ && loaded.persist,
            Some(text) => match graph_of_text(text@) {
                Ok(graph) => result matches Ok(loaded) && loaded.graph@ == graph && loaded.text@
                    == text@ && !loaded.persist,
                Err(e) => result matches Err(found) && found@ == e,
            },
        },
{
    match stored {
        None => Ok(
            Loaded {
                graph: GraphDocument::default_graph(),
                text: DEFAULT_GRAPH_TEXT.to_owned(),
                persist: true,
            },
        ),
        Some(text) => match parse_graph(text) {
            Ok(graph) => Ok(Loaded { graph, text: text.to_owned(), persist: false }),
            Err(e) => Err(e),
        },
    }
}

} // verus!
