use leptos_workers::analyze::{
    analyze_worker_type, get_ident_from_pat, pool_function_inputs, wasm_function_name, AnalyzeError, ArgPat, FnArg,
    PatError, ReturnType, Signature, WorkerType,
};

fn toks(ws: &[&str]) -> Vec<String> {
    ws.iter().map(|w| w.to_string()).collect()
}

fn ident(name: &str) -> ArgPat {
    ArgPat::Ident { ident: name.to_string(), tokens: toks(&[name]) }
}

fn arg(name: &str, ty: &[&str]) -> FnArg {
    FnArg::Typed { pat: ident(name), ty: toks(ty) }
}

fn sig(inputs: Vec<FnArg>, output: ReturnType) -> Signature {
    Signature { is_unsafe: false, has_abi: false, has_generics: false, is_variadic: false, inputs, output }
}

fn ret(ty: &[&str], is_impl_trait: bool) -> ReturnType {
    ReturnType::Type { ty: toks(ty), is_impl_trait }
}

fn pat_ident(p: &ArgPat) -> String {
    match p {
        ArgPat::Ident { ident, .. } => ident.clone(),
        ArgPat::Other { .. } => panic!("not an identifier"),
    }
}

/// `async fn future_worker(request: TestRequest) -> TestResponse`
#[test]
fn can_extract_future_worker_model() {
    let s = sig(vec![arg("request", &["TestRequest"])], ret(&["TestResponse"], false));
    match analyze_worker_type(s) {
        Ok(WorkerType::Future(f)) => {
            assert_eq!(pat_ident(&f.request_pat), "request");
            assert_eq!(f.request_type, toks(&["TestRequest"]));
            assert_eq!(f.response_type, toks(&["TestResponse"]));
        },
        other => panic!("expected a future worker, got {other:?}"),
    }
}

#[test]
fn recognises_callback_worker() {
    let s = sig(
        vec![arg("req", &["TestRequest"]), arg("callback", &["impl", "Fn", "(", "TestResponse", ")"])],
        ReturnType::Default,
    );
    match analyze_worker_type(s) {
        Ok(WorkerType::Callback(c)) => {
            assert_eq!(pat_ident(&c.request_pat), "req");
            assert_eq!(pat_ident(&c.callback_pat), "callback");
            assert_eq!(c.request_type, toks(&["TestRequest"]));
            assert_eq!(c.response_type, toks(&["TestResponse"]));
        },
        other => panic!("expected a callback worker, got {other:?}"),
    }
}

#[test]
fn recognises_channel_worker_with_init() {
    let s = sig(
        vec![
            arg("init", &["TestInit"]),
            arg("rx", &["leptos_workers", ":", ":", "Receiver", "<", "TestRequest", ">"]),
            arg("tx", &["leptos_workers", ":", ":", "Sender", "<", "TestResponse", ">"]),
        ],
        ReturnType::Default,
    );
    match analyze_worker_type(s) {
        Ok(WorkerType::Channel(c)) => {
            let (init_pat, init_ty) = c.init_pat_and_type.unwrap();
            assert_eq!(pat_ident(&init_pat), "init");
            assert_eq!(init_ty, toks(&["TestInit"]));
            assert_eq!(pat_ident(&c.receiver_pat), "rx");
            assert_eq!(pat_ident(&c.sender_pat), "tx");
            assert_eq!(c.request_type, toks(&["TestRequest"]));
            assert_eq!(c.response_type, toks(&["TestResponse"]));
        },
        other => panic!("expected a channel worker, got {other:?}"),
    }
}

#[test]
fn recognises_channel_worker_without_init() {
    let s = sig(
        vec![
            arg("rx", &["flume", ":", ":", "Receiver", "<", "TestRequest", ">"]),
            arg("tx", &["Sender", "<", "TestResponse", ">"]),
        ],
        ReturnType::Default,
    );
    match analyze_worker_type(s) {
        Ok(WorkerType::Channel(c)) => {
            assert!(c.init_pat_and_type.is_none());
            assert_eq!(c.request_type, toks(&["TestRequest"]));
            assert_eq!(c.response_type, toks(&["TestResponse"]));
        },
        other => panic!("expected a channel worker, got {other:?}"),
    }
}

#[test]
fn recognises_stream_worker() {
    let ret_ty = ["impl", "leptos_workers", ":", ":", "Stream", "<", "Item", "=", "TestResponse", ">"];
    let s = sig(vec![arg("req", &["TestRequest"])], ret(&ret_ty, true));
    match analyze_worker_type(s) {
        Ok(WorkerType::Stream(st)) => {
            assert_eq!(st.request_type, toks(&["TestRequest"]));
            assert_eq!(st.response_type, toks(&["TestResponse"]));
            assert_eq!(st.return_type, toks(&ret_ty));
        },
        other => panic!("expected a stream worker, got {other:?}"),
    }
}

#[test]
fn other_impl_trait_return_is_refused() {
    let s = sig(vec![arg("req", &["TestRequest"])], ret(&["impl", "Iterator", "<", "Item", "=", "u8", ">"], true));
    assert!(matches!(analyze_worker_type(s), Err(AnalyzeError::NoMatch)));
}

#[test]
fn no_return_type_with_one_argument_is_refused() {
    let s = sig(vec![arg("req", &["TestRequest"])], ReturnType::Default);
    assert!(matches!(analyze_worker_type(s), Err(AnalyzeError::NoMatch)));
}

#[test]
fn two_arguments_of_no_known_shape_are_refused() {
    let s = sig(vec![arg("a", &["u8"]), arg("b", &["u8"])], ReturnType::Default);
    assert!(matches!(analyze_worker_type(s), Err(AnalyzeError::NoMatch)));
}

#[test]
fn three_arguments_without_channels_are_refused() {
    let s = sig(vec![arg("a", &["u8"]), arg("b", &["u8"]), arg("c", &["u8"])], ReturnType::Default);
    assert!(matches!(analyze_worker_type(s), Err(AnalyzeError::NoMatch)));
}

#[test]
fn wrong_argument_count_is_refused() {
    let s = sig(vec![], ret(&["u8"], false));
    assert!(matches!(analyze_worker_type(s), Err(AnalyzeError::ArgumentCount)));
    let four = vec![arg("a", &["u8"]), arg("b", &["u8"]), arg("c", &["u8"]), arg("d", &["u8"])];
    assert!(matches!(analyze_worker_type(sig(four, ReturnType::Default)), Err(AnalyzeError::ArgumentCount)));
    let with_self = vec![FnArg::Receiver, arg("req", &["u8"])];
    assert!(matches!(analyze_worker_type(sig(with_self, ReturnType::Default)), Err(AnalyzeError::ArgumentCount)));
}

#[test]
fn unsafe_or_generic_functions_are_refused() {
    let mut s = sig(vec![arg("req", &["TestRequest"])], ret(&["TestResponse"], false));
    s.is_unsafe = true;
    assert!(matches!(analyze_worker_type(s), Err(AnalyzeError::NoMatch)));
    let mut s = sig(vec![arg("req", &["TestRequest"])], ret(&["TestResponse"], false));
    s.has_generics = true;
    assert!(matches!(analyze_worker_type(s), Err(AnalyzeError::NoMatch)));
}

#[test]
fn worker_type_properties() {
    let fut = analyze_worker_type(sig(vec![arg("request", &["TestRequest"])], ret(&["TestResponse"], false))).unwrap();
    assert_eq!(fut.wasm_function_prefix(), "WORKERS_FUTURE");
    assert_eq!(fut.worker_fn_type(), "FutureWorkerFn");
    assert_eq!(fut.default_pool_size(), 2);
    assert_eq!(*fut.request_type(), toks(&["TestRequest"]));
    assert_eq!(*fut.response_type(), toks(&["TestResponse"]));
    let chan = analyze_worker_type(sig(
        vec![arg("rx", &["Receiver", "<", "A", ">"]), arg("tx", &["Sender", "<", "B", ">"])],
        ReturnType::Default,
    ))
    .unwrap();
    assert_eq!(chan.wasm_function_prefix(), "WORKERS_CHANNEL");
    assert_eq!(chan.worker_fn_type(), "ChannelWorkerFn");
    assert_eq!(chan.default_pool_size(), 1);
}

/// The parts of the lowering of `pub async fn future_worker(request: TestRequest) -> TestResponse`
/// named `TestFutureWorker` that the library computes.
#[test]
fn produces_future_worker_ir() {
    let wt = analyze_worker_type(sig(vec![arg("request", &["TestRequest"])], ret(&["TestResponse"], false))).unwrap();
    assert_eq!(wasm_function_name(&wt, "TestFutureWorker"), "WORKERS_FUTURE_TestFutureWorker");
    assert_eq!(wt.worker_fn_type(), "FutureWorkerFn");
    assert_eq!(wt.default_pool_size(), 2);
    match &wt {
        WorkerType::Future(f) => assert_eq!(get_ident_from_pat(&f.request_pat), Ok(&"request".to_string())),
        other => panic!("expected a future worker, got {other:?}"),
    }
}

/// Same with `mut request`: the generated function takes `request`.
#[test]
fn produces_future_worker_ir_with_mut_arg() {
    let pat = ArgPat::Ident { ident: "request".to_string(), tokens: toks(&["mut", "request"]) };
    let s = sig(vec![FnArg::Typed { pat, ty: toks(&["TestRequest"]) }], ret(&["TestResponse"], false));
    let wt = analyze_worker_type(s).unwrap();
    assert_eq!(wasm_function_name(&wt, "TestFutureWorker"), "WORKERS_FUTURE_TestFutureWorker");
    match &wt {
        WorkerType::Future(f) => {
            assert_eq!(get_ident_from_pat(&f.request_pat), Ok(&"request".to_string()));
            match &f.request_pat {
                ArgPat::Ident { tokens, .. } => assert_eq!(*tokens, toks(&["mut", "request"])),
                ArgPat::Other { .. } => panic!("pattern changed"),
            }
        },
        other => panic!("expected a future worker, got {other:?}"),
    }
}

#[test]
fn non_binding_pattern_has_no_ident() {
    let pat = ArgPat::Other { tokens: toks(&["(", "a , b", ")"]) };
    assert_eq!(get_ident_from_pat(&pat), Err(PatError::UnexpectedPattern));
}

#[test]
fn pool_function_takes_the_bound_inputs() {
    let callback = analyze_worker_type(sig(
        vec![arg("req", &["TestRequest"]), arg("callback", &["impl", "Fn", "(", "TestResponse", ")"])],
        ReturnType::Default,
    ))
    .unwrap();
    assert_eq!(pool_function_inputs(&callback), Ok(toks(&["req", "callback"])));
    let channel = analyze_worker_type(sig(
        vec![arg("rx", &["Receiver", "<", "A", ">"]), arg("tx", &["Sender", "<", "B", ">"])],
        ReturnType::Default,
    ))
    .unwrap();
    assert_eq!(pool_function_inputs(&channel), Ok(vec![]));
    let other = ArgPat::Other { tokens: toks(&["(", "a , b", ")"]) };
    let future = analyze_worker_type(sig(
        vec![FnArg::Typed { pat: other, ty: toks(&["TestRequest"]) }],
        ret(&["TestResponse"], false),
    ))
    .unwrap();
    assert_eq!(pool_function_inputs(&future), Err(PatError::UnexpectedPattern));
}
