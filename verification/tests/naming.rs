use leptos_workers::naming::{worker_name, ParseError, WorkerNameArg};

/// `#[worker(Name)] async fn future_worker(req: TestRequest) -> TestResponse {}`
#[test]
fn valid_syntax() {
    assert_eq!(
        worker_name(true, WorkerNameArg::Given("Name".to_string()), "future_worker"),
        Ok("Name".to_string())
    );
}

/// `#[worker] async fn future_worker(req: TestRequest) -> TestResponse {}`
#[test]
fn valid_syntax_no_name() {
    assert_eq!(worker_name(true, WorkerNameArg::Absent, "future_worker"), Ok("FutureWorker".to_string()));
}

#[test]
fn derived_names_are_pascal_case() {
    assert_eq!(worker_name(true, WorkerNameArg::Absent, "worker_contended"), Ok("WorkerContended".to_string()));
    assert_eq!(worker_name(true, WorkerNameArg::Absent, "heavy_loop"), Ok("HeavyLoop".to_string()));
    assert_eq!(worker_name(true, WorkerNameArg::Absent, "worker_fn_uint8_array"), Ok("WorkerFnUint8Array".to_string()));
}

#[test]
fn invalid_name_is_refused() {
    assert_eq!(worker_name(true, WorkerNameArg::Invalid, "future_worker"), Err(ParseError::InvalidWorkerName));
}

#[test]
fn only_functions_are_accepted() {
    assert_eq!(
        worker_name(false, WorkerNameArg::Given("Name".to_string()), "x"),
        Err(ParseError::NotAFunction)
    );
}
