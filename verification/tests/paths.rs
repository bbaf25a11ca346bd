use leptos_workers::paths::{fallback_paths, js_wasm_paths, link_selectors, output_name, BuildNames};

fn names<'a>(leptos: Option<&'a str>, bin: Option<&'a str>, dir: Option<&'a str>) -> BuildNames<'a> {
    BuildNames { leptos_output_name: leptos, cargo_bin_name: bin, leptos_site_pkg_dir: dir }
}

#[test]
fn output_name_prefers_leptos() {
    assert_eq!(output_name(&names(Some("app"), Some("bin"), None)), Some("app"));
    assert_eq!(output_name(&names(None, Some("bin"), None)), Some("bin"));
    assert_eq!(output_name(&names(None, None, None)), None);
}

#[test]
fn selectors_name_the_output() {
    let (js, wasm) = link_selectors(&names(Some("app"), None, None));
    assert_eq!(js, "head > link[href*='app'][href$='.js']");
    assert_eq!(wasm, "head > link[href*='app'][href$='.wasm']");
}

#[test]
fn selectors_without_output_name() {
    let (js, wasm) = link_selectors(&names(None, None, None));
    assert_eq!(js, "head > link[href$='.js']");
    assert_eq!(wasm, "head > link[href$='.wasm']");
}

#[test]
fn fallback_in_site_pkg_dir() {
    let (js, wasm) = fallback_paths(&names(Some("app"), None, Some("pkg")));
    assert_eq!(js, "/pkg/app.js");
    assert_eq!(wasm, "/pkg/app.wasm");
}

#[test]
fn fallback_without_site_pkg_dir() {
    let (js, wasm) = fallback_paths(&names(Some("app"), None, None));
    assert_eq!(js, "/app.js");
    assert_eq!(wasm, "/app.wasm");
    let (js, wasm) = fallback_paths(&names(None, Some("bin"), None));
    assert_eq!(js, "/bin.js");
    assert_eq!(wasm, "/bin.wasm");
}

#[test]
fn fallback_for_tests() {
    let (js, wasm) = fallback_paths(&names(None, None, Some("pkg")));
    assert_eq!(js, "wasm-bindgen-test.js");
    assert_eq!(wasm, "wasm-bindgen-test_bg.wasm");
}

#[test]
fn links_found_in_page_win() {
    let n = names(Some("app"), None, None);
    let (js, wasm) = js_wasm_paths(&n, Some("/x.js".to_string()), Some("/x.wasm".to_string()));
    assert_eq!((js.as_str(), wasm.as_str()), ("/x.js", "/x.wasm"));
    let (js, wasm) = js_wasm_paths(&n, Some("/x.js".to_string()), None);
    assert_eq!((js.as_str(), wasm.as_str()), ("/app.js", "/app.wasm"));
}
