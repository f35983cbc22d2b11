//! Request and response records of the HTTP interface.

use vstd::prelude::*;

verus! {

/// A response in the common envelope: a success flag and the data.
#[derive(Debug)]
pub struct ApiResponse<T> {
    pub success: bool,
    pub data: T,
}

/// An error: a code and a message.
#[derive(Debug)]
pub struct ApiError {
    pub code: String,
    pub message: String,
}

/// A successful response: the data alone.
#[derive(Debug)]
pub struct ApiSuccess<T> {
    pub data: T,
}

/// The answer to a code search.
#[derive(Debug)]
pub struct CodeSearchResponse {
    pub total_count: usize,
    pub items: Vec<CodeSnippet>,
}

/// One code search hit.
#[derive(Debug)]
pub struct CodeSnippet {
    pub id: String,
    pub name: String,
    pub file_path: String,
    pub code_snippet: String,
    pub language: String,
    /// The kind of symbol (the `type` field of the wire format).
    pub kind: String,
    pub line_number: usize,
}

/// A call graph around one function.
#[derive(Debug)]
pub struct CallGraphResponse {
    pub function: String,
    pub direction: String,
    pub depth: usize,
    pub nodes: Vec<GraphNode>,
    pub edges: Vec<GraphEdge>,
    pub graph_definition: Option<GraphDefinition>,
}

/// A node of a call graph.
#[derive(Debug)]
pub struct GraphNode {
    pub id: String,
    pub label: String,
    /// The kind of node (the `type` field of the wire format).
    pub kind: String,
}

/// An edge of a call graph.
#[derive(Debug)]
pub struct GraphEdge {
    pub source: String,
    pub target: String,
    pub relation: String,
}

/// A call graph written as a Mermaid diagram.
#[derive(Debug)]
pub struct GraphDefinition {
    pub mermaid: String,
}

/// A symbol, where it is defined and where it is used.
#[derive(Debug)]
pub struct SymbolInfoResponse {
    pub symbol: String,
    pub definition: SymbolDefinition,
    pub references: Vec<SymbolReference>,
}

/// Where a symbol is defined.
#[derive(Debug)]
pub struct SymbolDefinition {
    pub file_path: String,
    pub line_number: usize,
    pub code_snippet: String,
}

/// A use of a symbol.
#[derive(Debug)]
pub struct SymbolReference {
    pub file_path: String,
    pub line_number: usize,
    pub context: String,
}

/// A dependency graph.
#[derive(Debug)]
pub struct DependenciesResponse {
    /// The kind of dependencies (the `type` field of the wire format).
    pub kind: String,
    pub nodes: Vec<DependencyNode>,
    pub edges: Vec<DependencyEdge>,
}

/// A node of a dependency graph.
#[derive(Debug)]
pub struct DependencyNode {
    pub id: String,
    pub label: String,
}

/// An edge of a dependency graph.
#[derive(Debug)]
pub struct DependencyEdge {
    pub source: String,
    pub target: String,
    pub relation: String,
}

/// The parameters of a code search.
#[derive(Debug)]
pub struct CodeSearchQuery {
    pub q: String,
    /// The kind of symbol searched for (the `type` field of the wire format).
    pub kind: Option<String>,
    pub limit: Option<usize>,
    pub offset: Option<usize>,
    pub fuzzy: Option<bool>,
}

/// The parameters of a call graph query.
#[derive(Debug)]
pub struct CallGraphQuery {
    pub function: String,
    pub depth: Option<usize>,
    pub direction: Option<String>,
}

/// The parameters of a dependencies query.
#[derive(Debug)]
pub struct DependenciesQuery {
    /// The kind of dependencies (the `type` field of the wire format).
    pub kind: Option<String>,
}

/// A call graph query for a file, or one function of it.
#[derive(Debug)]
pub struct QueryCallGraphRequest {
    pub filepath: String,
    pub function_name: Option<String>,
    pub max_depth: Option<usize>,
}

/// A function of a call graph answer, with its callers and callees.
#[derive(Debug)]
pub struct FunctionInfo {
    pub id: String,
    pub name: String,
    pub line_start: usize,
    pub line_end: usize,
    pub callers: Vec<CallRelation>,
    pub callees: Vec<CallRelation>,
}

/// One end of a call: the other function, its file and the line of the call.
#[derive(Debug)]
pub struct CallRelation {
    pub function_name: String,
    pub file_path: String,
    pub line_number: usize,
}

/// The call graph answer for a file.
#[derive(Debug)]
pub struct QueryCallGraphResponse {
    pub filepath: String,
    pub functions: Vec<FunctionInfo>,
}

/// A request to survey a repository.
#[derive(Debug)]
pub struct InvestigateRepoRequest {
    pub project_dir: String,
}

/// A function of a repository survey, with its callers and callees.
#[derive(Debug)]
pub struct InvestigateFunctionInfo {
    pub name: String,
    pub file_path: String,
    pub out_degree: usize,
    pub callers: Vec<CallRelation>,
    pub callees: Vec<CallRelation>,
}

/// A directory tree entry.
#[derive(Debug)]
pub struct DirectoryTreeNode {
    pub name: String,
    pub path: String,
    pub is_dir: bool,
    pub children: Option<Vec<DirectoryTreeNode>>,
}

/// The outline of one source file.
#[derive(Debug)]
pub struct CodeSkeletonResponse {
    pub filepath: String,
    pub language: String,
    pub skeleton_text: String,
}

/// The survey of a repository.
#[derive(Debug)]
pub struct InvestigateRepoResponse {
    pub project_id: String,
    pub total_functions: usize,
    pub core_functions: Vec<InvestigateFunctionInfo>,
    pub file_skeletons: Vec<CodeSkeletonResponse>,
    pub directory_tree: Vec<DirectoryTreeNode>,
}

/// A request to build the embedding index of a repository.
#[derive(Debug)]
pub struct BuildEmbeddingRequest {
    pub repo_path: String,
}

/// The answer to a build of the embedding index.
#[derive(Debug)]
pub struct BuildEmbeddingResponse {
    pub message: String,
}

/// A semantic search request.
#[derive(Debug)]
pub struct SemanticSearchRequest {
    pub text: String,
    pub limit: Option<usize>,
}

/// A node of the call tree answer: a project, a file or a function, with
/// the nodes under it.
#[derive(Debug)]
pub struct HierarchicalNode {
    pub name: String,
    pub function_id: Option<String>,
    pub file_path: Option<String>,
    pub line_start: Option<usize>,
    pub line_end: Option<usize>,
    pub children: Vec<HierarchicalNode>,
    /// What the node stands for: `function`, `max_depth`, or none for a
    /// project or file node.
    pub call_type: Option<String>,
}

/// A request for the call tree of a project, from one function or from all.
#[derive(Debug)]
pub struct QueryHierarchicalGraphRequest {
    pub project_id: Option<String>,
    pub root_function: Option<String>,
    pub max_depth: Option<usize>,
    pub include_file_info: Option<bool>,
}

/// The call tree of a project.
#[derive(Debug)]
pub struct QueryHierarchicalGraphResponse {
    pub project_id: String,
    pub root_function: Option<String>,
    pub max_depth: usize,
    pub tree_structure: HierarchicalNode,
    pub total_functions: usize,
    pub total_relations: usize,
}

/// A request for the code of a function: the one of that name, or the
/// first of the file.
#[derive(Debug)]
pub struct QueryCodeSnippetRequest {
    pub filepath: String,
    pub function_name: Option<String>,
    pub include_context: Option<bool>,
    pub context_lines: Option<usize>,
}

/// The code of a function.
#[derive(Debug)]
pub struct CodeSnippetResponse {
    pub filepath: String,
    pub function_name: Option<String>,
    pub code_snippet: String,
    pub line_start: usize,
    pub line_end: usize,
    pub language: String,
}

} // verus!
