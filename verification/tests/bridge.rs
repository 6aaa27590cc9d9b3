use worker_bridge::invoke::{
    interpret_output, plan_invocation, timeout_error, wait_step, WaitStep,
};
use worker_bridge::resolver::get_python_script_path;
use worker_bridge::value::Json;
use worker_bridge::BridgeError;

fn bv(s: &str) -> Vec<u8> {
    s.as_bytes().to_vec()
}

#[test]
fn success_payload_is_returned_exactly() {
    let out = bv("{\"success\":true,\"data\":{\"x\":1}}");
    let r = interpret_output(0, out, vec![]);
    assert_eq!(r, Ok(Json::Obj(vec![(bv("x"), Json::Int(1))])));
}

#[test]
fn application_failure_carries_the_message() {
    let out = bv("{\"success\":false,\"error\":\"bad symbol\"}");
    let r = interpret_output(0, out, vec![]);
    assert_eq!(r, Err(BridgeError::Application(bv("bad symbol"))));
}

#[test]
fn non_json_output_is_malformed_never_a_default() {
    let out = bv("Traceback (most recent call last): boom");
    let r = interpret_output(0, out.clone(), vec![]);
    assert_eq!(r, Err(BridgeError::MalformedResponse(out)));
}

#[test]
fn killed_worker_reports_execution_error_with_stderr() {
    let stdout = bv("{\"success\":true,\"data\":1}");
    let stderr = bv("Killed");
    let r = interpret_output(137, stdout, stderr.clone());
    // stdout is never decoded on a non-zero exit
    assert_eq!(r, Err(BridgeError::ExecutionError(137, stderr)));
}

#[test]
fn success_without_data_is_null_payload() {
    assert_eq!(
        interpret_output(0, bv("{\"success\":true}"), vec![]),
        Ok(Json::Null)
    );
    assert_eq!(
        interpret_output(0, bv("{\"success\":true,\"data\":null}"), vec![]),
        Ok(Json::Null)
    );
}

#[test]
fn failure_without_message_gets_the_placeholder() {
    assert_eq!(
        interpret_output(0, bv("{\"success\":false}"), vec![]),
        Err(BridgeError::Application(bv("Unknown error")))
    );
    assert_eq!(
        interpret_output(0, bv("{\"success\":false,\"error\":null}"), vec![]),
        Err(BridgeError::Application(bv("Unknown error")))
    );
}

#[test]
fn envelope_shape_is_enforced() {
    // success must be a boolean
    let out = bv("{\"success\":1,\"data\":2}");
    assert_eq!(
        interpret_output(0, out.clone(), vec![]),
        Err(BridgeError::MalformedResponse(out))
    );
    // an error member of the wrong type breaks the contract
    let out2 = bv("{\"success\":false,\"error\":42}");
    assert_eq!(
        interpret_output(0, out2.clone(), vec![]),
        Err(BridgeError::MalformedResponse(out2))
    );
    // a top-level array is no envelope
    let out3 = bv("[1,2]");
    assert_eq!(
        interpret_output(0, out3.clone(), vec![]),
        Err(BridgeError::MalformedResponse(out3))
    );
    // unknown members are tolerated
    let out4 = bv("{\"version\":2,\"success\":true,\"data\":7}");
    assert_eq!(interpret_output(0, out4, vec![]), Ok(Json::Int(7)));
}

#[test]
fn bounded_wait_decides_timeout() {
    assert_eq!(wait_step(5000, 0, None), WaitStep::KeepWaiting);
    assert_eq!(wait_step(5000, 4999, None), WaitStep::KeepWaiting);
    assert_eq!(wait_step(5000, 5000, None), WaitStep::KillAndTimeout);
    assert_eq!(wait_step(5000, 60000, None), WaitStep::KillAndTimeout);
    assert_eq!(wait_step(5000, 60000, Some(0)), WaitStep::Finished(0));
    assert_eq!(wait_step(5000, 10, Some(137)), WaitStep::Finished(137));
    assert_eq!(timeout_error(5000), BridgeError::Timeout(5000));
}

#[test]
fn stdin_is_attached_only_with_a_body() {
    let without = plan_invocation(bv("/w/s.py"), None, 3000);
    assert!(without.input.is_none());
    let with = plan_invocation(bv("/w/s.py"), Some(bv("{}")), 3000);
    assert_eq!(with.input, Some(bv("{}")));
    assert_eq!(with.program, bv("python3"));
    assert_eq!(with.script_path, bv("/w/s.py"));
    assert_eq!(with.timeout_ms, 3000);
}

#[test]
fn resolver_builds_the_fixed_location() {
    let r = get_python_script_path(&bv("/opt/app"), &bv("run_backtest.py"), true);
    assert_eq!(r, Ok(bv("/opt/app/src-python/scripts/run_backtest.py")));
}

#[test]
fn resolver_reports_missing_workers_before_spawn() {
    let r = get_python_script_path(&bv("/opt/app"), &bv("absent.py"), false);
    assert_eq!(
        r,
        Err(BridgeError::NotFound(bv(
            "/opt/app/src-python/scripts/absent.py"
        )))
    );
}

#[test]
fn invocation_budget_caps_live_workers() {
    let mut budget = worker_bridge::invoke::InvocationBudget::new(2);
    assert!(budget.try_admit());
    assert!(budget.try_admit());
    assert!(!budget.try_admit());
    assert_eq!(budget.live, 2);
    budget.release();
    assert!(budget.try_admit());
    budget.release();
    budget.release();
    budget.release();
    assert_eq!(budget.live, 0);
}

#[test]
fn spaced_worker_output_decodes() {
    // the layout json.dumps produces by default
    let out = bv("{\"success\": true, \"data\": {\"rows\": [1, 2.5], \"name\": \"\\u00e9\"}, \"error\": null}");
    let r = interpret_output(0, out, vec![]);
    let expected = Json::Obj(vec![
        (
            bv("rows"),
            Json::Arr(vec![Json::Int(1), Json::Num(bv("2.5"))]),
        ),
        (bv("name"), Json::Str("é".to_string().into_bytes())),
    ]);
    assert_eq!(r, Ok(expected));
}
