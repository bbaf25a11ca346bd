//! Where the page's JavaScript glue and WASM module are, so that a worker
//! can load the same ones.
//!
//! The build names the output (`LEPTOS_OUTPUT_NAME`, else `CARGO_BIN_NAME`)
//! and the directory of the site's package (`LEPTOS_SITE_PKG_DIR`). The page
//! is searched first for `<link>` tags in its head whose `href` ends in
//! `.js` and `.wasm` (and holds the output name when there is one); when
//! either is missing, the paths are derived from the names.

use vstd::prelude::*;

verus! {

/// The names that the build provides.
pub struct BuildNames<'a> {
    /// `LEPTOS_OUTPUT_NAME`
    pub leptos_output_name: Option<&'a str>,
    /// `CARGO_BIN_NAME`
    pub cargo_bin_name: Option<&'a str>,
    /// `LEPTOS_SITE_PKG_DIR`
    pub leptos_site_pkg_dir: Option<&'a str>,
}

/// The name of the output: Leptos's, else Cargo's binary name.
pub open spec fn spec_output_name(names: BuildNames) -> Option<Seq<char>> {
    match names.leptos_output_name {
        Some(s) => Some(s@),
        None => match names.cargo_bin_name {
            Some(s) => Some(s@),
            None => None,
        },
    }
}

/// The attribute condition that restricts a link to the output's files.
pub open spec fn spec_output_condition(output: Option<Seq<char>>) -> Seq<char> {
    match output {
        Some(s) => "[href*='"@ + s + "']"@,
        None => Seq::empty(),
    }
}

/// The selectors of the `<link>` tags of the glue script and of the module.
pub open spec fn spec_link_selectors(names: BuildNames) -> (Seq<char>, Seq<char>) {
    let condition = spec_output_condition(spec_output_name(names));
    ("head > link"@ + condition + "[href$='.js']"@, "head > link"@ + condition + "[href$='.wasm']"@)
}

/// The paths of the glue script and of the module when the page has no
/// links to them.
pub open spec fn spec_fallback_paths(names: BuildNames) -> (Seq<char>, Seq<char>) {
    let dir = match names.leptos_site_pkg_dir {
        Some(d) => "/"@ + d@,
        None => Seq::empty(),
    };
    match spec_output_name(names) {
        Some(output) => {
            let base = dir + "/"@ + output;
            (base + ".js"@, base + ".wasm"@)
        },
        None => match names.cargo_bin_name {
            Some(bin) => (bin@ + ".js"@, bin@ + "_bg.wasm"@),
            None => ("wasm-bindgen-test.js"@, "wasm-bindgen-test_bg.wasm"@),
        },
    }
}

/// The name of the output: Leptos's, else Cargo's binary name.
pub fn output_name<'a>(names: &BuildNames<'a>) -> (r: Option<&'a str>)
    ensures
        match (r, spec_output_name(*names)) {
            (Some(s), Some(t)) => s@ == t,
            (None, None) => true,
            _ => false,
        },
{
    match names.leptos_output_name {
        Some(s) => Some(s),
        None => names.cargo_bin_name,
    }
}

/// The selectors of the `<link>` tags of the glue script and of the module.
pub fn link_selectors(names: &BuildNames) -> (r: (String, String))
    ensures
        (r.0@, r.1@) == spec_link_selectors(*names),
{
    let mut condition = String::new();
    match output_name(names) {
        Some(s) => {
            condition.append("[href*='");
            condition.append(s);
            condition.append("']");
        },
        None => {},
    }
    let mut js = String::from_str("head > link");
    js.append(condition.as_str());
    js.append("[href$='.js']");
    let mut wasm = String::from_str("head > link");
    wasm.append(condition.as_str());
    wasm.append("[href$='.wasm']");
    assert(condition@ == spec_output_condition(spec_output_name(*names)));
    (js, wasm)
}

/// The paths of the glue script and of the module when the page has no
/// links to them: in the site's package directory under the output's name,
/// else next to the page under Cargo's binary name, else the names that
/// `wasm-bindgen-test` uses.
pub fn fallback_paths(names: &BuildNames) -> (r: (String, String))
    ensures
        (r.0@, r.1@) == spec_fallback_paths(*names),
{
    let mut dir = String::new();
    match names.leptos_site_pkg_dir {
        Some(d) => {
            dir.append("/");
            dir.append(d);
        },
        None => {},
    }
    match output_name(names) {
        Some(output) => {
            let mut base = dir;
            base.append("/");
            base.append(output);
            let mut js = base.clone();
            js.append(".js");
            let mut wasm = base;
            wasm.append(".wasm");
            (js, wasm)
        },
        None => match names.cargo_bin_name {
            Some(bin) => {
                let mut js = String::from_str(bin);
                js.append(".js");
                let mut wasm = String::from_str(bin);
                wasm.append("_bg.wasm");
                (js, wasm)
            },
            None => (String::from_str("wasm-bindgen-test.js"), String::from_str("wasm-bindgen-test_bg.wasm")),
        },
    }
}

/// The paths to load: those of the links found in the page when both are
/// there, else the fallback paths.
pub fn js_wasm_paths(names: &BuildNames, js_link: Option<String>, wasm_link: Option<String>) -> (r: (
    String,
    String,
))
    ensures
        match (js_link, wasm_link) {
            (Some(js), Some(wasm)) => r == (js, wasm),
            _ => (r.0@, r.1@) == spec_fallback_paths(*names),
        },
{
    match (js_link, wasm_link) {
        (Some(js), Some(wasm)) => (js, wasm),
        _ => fallback_paths(names),
    }
}

/// Where the build names the output `o` (through `LEPTOS_OUTPUT_NAME`, or
/// through `CARGO_BIN_NAME` when the first is unset), both selectors ask
/// for links whose `href` holds `o`.
pub proof fn lemma_link_selectors_named(names: BuildNames, o: &str)
    requires
        names.leptos_output_name == Some(o) || (names.leptos_output_name is None && names.cargo_bin_name
            == Some(o)),
    ensures
        spec_link_selectors(names) == (
            "head > link[href*='"@ + o@ + "'][href$='.js']"@,
            "head > link[href*='"@ + o@ + "'][href$='.wasm']"@,
        ),
{
    reveal_strlit("head > link");
    reveal_strlit("[href*='");
    reveal_strlit("']");
    reveal_strlit("[href$='.js']");
    reveal_strlit("[href$='.wasm']");
    reveal_strlit("head > link[href*='");
    reveal_strlit("'][href$='.js']");
    reveal_strlit("'][href$='.wasm']");
    let (js, wasm) = spec_link_selectors(names);
    assert(js =~= "head > link[href*='"@ + o@ + "'][href$='.js']"@);
    assert(wasm =~= "head > link[href*='"@ + o@ + "'][href$='.wasm']"@);
}

/// Where the build names no output, the selectors ask only for the file
/// endings.
pub proof fn lemma_link_selectors_unnamed(names: BuildNames)
    requires
        names.leptos_output_name is None,
        names.cargo_bin_name is None,
    ensures
        spec_link_selectors(names) == ("head > link[href$='.js']"@, "head > link[href$='.wasm']"@),
{
    reveal_strlit("head > link");
    reveal_strlit("[href$='.js']");
    reveal_strlit("[href$='.wasm']");
    reveal_strlit("head > link[href$='.js']");
    reveal_strlit("head > link[href$='.wasm']");
    let (js, wasm) = spec_link_selectors(names);
    assert(js =~= "head > link[href$='.js']"@);
    assert(wasm =~= "head > link[href$='.wasm']"@);
}

/// Where the build names the output `o`, whichever variable gave it, the
/// fallback paths are `/d/o.js` and `/d/o.wasm` under the site's package
/// directory `d`, and `/o.js` and `/o.wasm` without one.
pub proof fn lemma_fallback_paths_named(names: BuildNames, o: &str)
    requires
        names.leptos_output_name == Some(o) || (names.leptos_output_name is None && names.cargo_bin_name
            == Some(o)),
    ensures
        names.leptos_site_pkg_dir matches Some(d) ==> spec_fallback_paths(names) == (
            "/"@ + d@ + "/"@ + o@ + ".js"@,
            "/"@ + d@ + "/"@ + o@ + ".wasm"@,
        ),
        names.leptos_site_pkg_dir is None ==> spec_fallback_paths(names) == (
            "/"@ + o@ + ".js"@,
            "/"@ + o@ + ".wasm"@,
        ),
{
    assert(Seq::<char>::empty() + "/"@ =~= "/"@);
}

/// Where the build names no output, the fallback paths are those that
/// `wasm-bindgen-test` uses.
pub proof fn lemma_fallback_paths_unnamed(names: BuildNames)
    requires
        names.leptos_output_name is None,
        names.cargo_bin_name is None,
    ensures
        spec_fallback_paths(names) == ("wasm-bindgen-test.js"@, "wasm-bindgen-test_bg.wasm"@),
{
}

} // verus!
