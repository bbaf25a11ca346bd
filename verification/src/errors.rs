//! Failures of worker creation.

use vstd::prelude::*;

verus! {

/// A value of the JavaScript host, carried through unchanged.
#[verifier::external_type_specification]
#[verifier::external_body]
pub struct ExJsValue(wasm_bindgen::JsValue);

/// Describes failures related to worker creation.
pub enum CreateWorkerError {
    /// The page has no window object.
    NoWindow,
    /// The window has no document object.
    NoDocument,
    /// Reading `document.baseURI` raised an error.
    DocumentBaseUri(wasm_bindgen::JsValue),
    /// Building the URL of the script or the module raised an error.
    WasmUrl(wasm_bindgen::JsValue),
    /// Creating the blob or its URL raised an error.
    BlobUrl(wasm_bindgen::JsValue),
    /// Starting the worker raised an error: WASM packaging or browser support.
    NewWorker(wasm_bindgen::JsValue),
}

} // verus!
