use vstd::prelude::*;

verus! {

/// Type of Spring bean.
#[derive(Debug, Clone, Copy, PartialEq, Eq, Structural)]
pub enum BeanType {
    Component,
    Service,
    Repository,
    Controller,
    RestController,
    Configuration,
    BeanMethod,
}

/// A Spring bean discovered by the indexer.
#[derive(Debug, Clone)]
pub struct SpringBean {
    pub name: String,
    pub qualified_name: String,
    pub bean_type: BeanType,
    pub file_uri: String,
    pub line: u32,
    pub character: u32,
    pub dependencies: Vec<String>,
    pub scope: String,
}

/// HTTP method for REST endpoints.
#[derive(Debug, Clone, Copy, PartialEq, Eq, Structural)]
pub enum HttpMethod {
    Get,
    Post,
    Put,
    Delete,
    Patch,
    Options,
    Head,
}

/// A REST endpoint discovered by the indexer.
#[derive(Debug, Clone)]
pub struct RestEndpoint {
    pub method: HttpMethod,
    pub path: String,
    pub handler_class: String,
    pub handler_method: String,
    pub file_uri: String,
    pub line: u32,
    pub character: u32,
    pub parameters: Vec<EndpointParam>,
}

/// A parameter of a REST endpoint.
#[derive(Debug, Clone)]
pub struct EndpointParam {
    pub name: String,
    pub param_type: String,
    pub source: ParamSource,
}

/// Source of an endpoint parameter.
#[derive(Debug, Clone, Copy, PartialEq, Eq, Structural)]
pub enum ParamSource {
    Path,
    Query,
    Body,
    Header,
}

/// A node in the bean dependency graph.
#[derive(Debug, Clone)]
pub struct GraphNode {
    pub id: String,
    pub bean_type: BeanType,
    pub qualified_name: String,
}

/// An edge in the bean dependency graph: `from` depends on `to`.
#[derive(Debug, Clone)]
pub struct GraphEdge {
    pub from: String,
    pub to: String,
}

/// Bean dependency graph.
#[derive(Debug, Clone)]
pub struct BeanGraph {
    pub nodes: Vec<GraphNode>,
    pub edges: Vec<GraphEdge>,
}

/// A Gradle task.
#[derive(Debug, Clone)]
pub struct GradleTask {
    pub name: String,
    pub path: String,
    pub description: Option<String>,
    pub group: Option<String>,
}

} // verus!
