use vstd::prelude::*;

verus! {

/// A recipe as peers exchange it.
#[derive(Debug)]
pub struct Recipe {
    pub id: usize,
    pub name: String,
    pub ingredients: String,
    pub instructions: String,
    pub public: bool,
}

pub type Recipes = Vec<Recipe>;

/// An event for the main loop: a line of input, or a response from a peer.
pub enum EventType {
    Input(String),
    Response(ListResponse),
}

/// Which recipes a listing asks for: all, or those of one peer.
#[derive(Debug)]
pub enum ListMode {
    ALL,
    ONE(String),
}

#[derive(Debug)]
pub struct ListRequest {
    pub mode: ListMode,
}

#[derive(Debug)]
pub struct ListResponse {
    pub mode: ListMode,
    pub data: Recipes,
    pub receiver: String,
}

} // verus!
