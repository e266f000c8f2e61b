//! The requests and responses of the component endpoints.

use vstd::prelude::*;

verus! {

/// How many pages the cache of the fallback shell keeps.
pub const FALLBACK_HTML_CACHE_CAPACITY: usize = 256;

/// Asks for a component to be rendered. `props` is JSON text.
#[derive(Debug)]
pub struct RenderRequest {
    pub component_id: String,
    pub props: Option<String>,
    pub ssr: Option<bool>,
}

/// What became of a [`RenderRequest`].
#[derive(Debug)]
pub struct RenderResponse {
    pub success: bool,
    pub data: Option<String>,
    pub error: Option<String>,
    pub component_id: String,
    pub render_time_ms: u64,
}

/// Brings the code of a component. `cache_config` holds names and values.
#[derive(Debug)]
pub struct RegisterRequest {
    pub component_id: String,
    pub component_code: String,
    pub cache_config: Option<Vec<(String, String)>>,
}

/// Names a client component and where it is exported.
#[derive(Debug)]
pub struct RegisterClientRequest {
    pub component_id: String,
    pub file_path: String,
    pub export_name: String,
}

/// Names a file whose components are to be registered again.
#[derive(Debug)]
pub struct HmrRegisterRequest {
    pub file_path: String,
}

/// Asks for a component to be loaded again from its bundle.
#[derive(Debug)]
pub struct ReloadComponentRequest {
    pub component_id: String,
    pub bundle_path: String,
}

/// What became of a [`ReloadComponentRequest`].
#[derive(Debug)]
pub struct ReloadComponentResponse {
    pub success: bool,
    pub message: String,
}

} // verus!
