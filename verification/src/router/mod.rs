//! Routing: from path and method to the handler registered for them.

mod router;

pub use router::{
    answers, distinct_routes, has_route, lemma_route_index, not_found_page, route_index, Router,
};
