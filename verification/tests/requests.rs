use worker_bridge::encode::encode_value;
use worker_bridge::ops::{CallShape, Operation};
use worker_bridge::parse::number_from_text;
use worker_bridge::requests::{
    check_data_integrity_request, collect_from_api_request, collect_market_news_request,
    configure_data_collection_request, delete_algorithm_request, delete_data_set_request,
    generate_algorithm_proposals_request, generate_stock_predictions_request,
    get_algorithm_proposals_request, get_analysis_results_request, get_analysis_status_request,
    get_backtest_results_request, get_backtest_results_summary_request,
    get_backtest_status_request, get_collected_news_request, get_data_collection_schedules_request,
    get_data_collection_status_request, get_data_preview_request,
    get_latest_analysis_results_request, get_news_collection_status_request,
    get_prediction_history_request, get_proposal_generation_status_request,
    get_selected_algorithms_request, get_stock_prediction_status_request,
    get_stock_predictions_request, import_ohlcv_data_request, run_backtest_request,
    run_data_analysis_request, save_prediction_action_request, select_algorithm_request,
    update_data_set_request, update_prediction_accuracy_request,
};
use worker_bridge::value::Json;

fn bv(s: &str) -> Vec<u8> {
    s.as_bytes().to_vec()
}

fn wire(r: &Json) -> Vec<u8> {
    encode_value(r)
}

#[test]
fn job_polling_requests() {
    assert_eq!(
        wire(&get_proposal_generation_status_request(bv("J1"))),
        bv("{\"job_id\":\"J1\"}")
    );
    assert_eq!(
        wire(&get_algorithm_proposals_request(bv("J2"))),
        bv("{\"job_id\":\"J2\"}")
    );
    assert_eq!(
        wire(&get_backtest_status_request(bv("J3"))),
        bv("{\"job_id\":\"J3\"}")
    );
    assert_eq!(
        wire(&get_backtest_results_request(bv("J4"))),
        bv("{\"job_id\":\"J4\"}")
    );
    assert_eq!(
        wire(&get_analysis_status_request(bv("J5"))),
        bv("{\"job_id\":\"J5\"}")
    );
    assert_eq!(
        wire(&get_analysis_results_request(bv("J6"))),
        bv("{\"job_id\":\"J6\"}")
    );
    assert_eq!(
        wire(&get_news_collection_status_request(bv("J7"))),
        bv("{\"job_id\":\"J7\"}")
    );
    assert_eq!(
        wire(&get_stock_prediction_status_request(bv("J8"))),
        bv("{\"job_id\":\"J8\"}")
    );
    assert_eq!(
        wire(&get_stock_predictions_request(bv("J9"))),
        bv("{\"job_id\":\"J9\"}")
    );
}

#[test]
fn single_identifier_requests() {
    assert_eq!(wire(&delete_algorithm_request(7)), bv("{\"algo_id\":7}"));
    assert_eq!(
        wire(&run_data_analysis_request(9)),
        bv("{\"data_set_id\":9}")
    );
    assert_eq!(
        wire(&get_latest_analysis_results_request(9)),
        bv("{\"data_set_id\":9}")
    );
    assert_eq!(wire(&delete_data_set_request(4)), bv("{\"data_set_id\":4}"));
    assert_eq!(
        wire(&check_data_integrity_request(4)),
        bv("{\"data_set_id\":4}")
    );
}

#[test]
fn proposal_generation_applies_defaults() {
    let r = generate_algorithm_proposals_request(1, None, None, None);
    assert_eq!(
        wire(&r),
        bv("{\"data_set_id\":1,\"analysis_id\":null,\"num_proposals\":5,\"user_preferences\":null}")
    );
    let prefs = Json::Obj(vec![(bv("risk"), Json::Str(bv("low")))]);
    let r2 = generate_algorithm_proposals_request(1, Some(2), Some(9), Some(prefs));
    assert_eq!(
        wire(&r2),
        bv("{\"data_set_id\":1,\"analysis_id\":2,\"num_proposals\":9,\"user_preferences\":{\"risk\":\"low\"}}")
    );
}

#[test]
fn algorithm_selection_requests() {
    assert_eq!(
        wire(&select_algorithm_request(bv("p1"), None)),
        bv("{\"proposal_id\":\"p1\",\"custom_name\":null}")
    );
    assert_eq!(
        wire(&select_algorithm_request(bv("p1"), Some(bv("mine")))),
        bv("{\"proposal_id\":\"p1\",\"custom_name\":\"mine\"}")
    );
    assert_eq!(wire(&get_selected_algorithms_request()), bv("{}"));
}

#[test]
fn backtest_requests() {
    let r = run_backtest_request(vec![1, 2], bv("2024-01-01"), bv("2024-02-01"), None);
    assert_eq!(
        wire(&r),
        bv("{\"algorithm_ids\":[1,2],\"start_date\":\"2024-01-01\",\"end_date\":\"2024-02-01\",\"data_set_id\":null}")
    );
    assert_eq!(wire(&get_backtest_results_summary_request(None, None)), bv("{}"));
    assert_eq!(
        wire(&get_backtest_results_summary_request(Some(vec![3]), Some(10))),
        bv("{\"algorithm_ids\":[3],\"limit\":10}")
    );
}

#[test]
fn data_collection_requests_omit_absent_arguments() {
    let r = configure_data_collection_request(
        bv("create"),
        None,
        Some(bv("daily")),
        None,
        Some(bv("AAPL")),
        None,
        None,
        None,
        None,
        None,
        Some(true),
    );
    assert_eq!(
        wire(&r),
        bv("{\"action\":\"create\",\"name\":\"daily\",\"symbol\":\"AAPL\",\"enabled\":true}")
    );
    assert_eq!(
        wire(&get_data_collection_schedules_request(None, None)),
        bv("{}")
    );
    assert_eq!(
        wire(&get_data_collection_schedules_request(Some(false), Some(bv("s1")))),
        bv("{\"enabled_only\":false,\"schedule_id\":\"s1\"}")
    );
    assert_eq!(
        wire(&get_data_collection_status_request(Some(bv("j1")), None)),
        bv("{\"job_id\":\"j1\"}")
    );
}

#[test]
fn data_management_requests() {
    assert_eq!(
        wire(&import_ohlcv_data_request(bv("/tmp/f.csv"), None)),
        bv("{\"file_path\":\"/tmp/f.csv\",\"name\":null}")
    );
    let r = collect_from_api_request(
        bv("yahoo"),
        bv("AAPL"),
        bv("2024-01-01"),
        bv("2024-02-01"),
        None,
        Some(bv("demo-key")),
    );
    assert_eq!(
        wire(&r),
        bv("{\"source\":\"yahoo\",\"symbol\":\"AAPL\",\"start_date\":\"2024-01-01\",\"end_date\":\"2024-02-01\",\"name\":null,\"api_key\":\"demo-key\"}")
    );
    assert_eq!(
        wire(&get_data_preview_request(2, None)),
        bv("{\"data_set_id\":2,\"limit\":100}")
    );
    assert_eq!(
        wire(&get_data_preview_request(2, Some(5))),
        bv("{\"data_set_id\":2,\"limit\":5}")
    );
    assert_eq!(
        wire(&update_data_set_request(3, Some(bv("2024-01-01")), None)),
        bv("{\"data_set_id\":3,\"start_date\":\"2024-01-01\"}")
    );
}

#[test]
fn news_requests_apply_defaults() {
    let r = collect_market_news_request(None, None, None, None, None);
    assert_eq!(
        wire(&r),
        bv("{\"use_rss\":true,\"use_api\":false,\"api_key\":null,\"keywords\":null,\"max_articles\":50}")
    );
    let r2 = collect_market_news_request(
        Some(false),
        Some(true),
        None,
        Some(vec![bv("ai"), bv("chips")]),
        Some(20),
    );
    assert_eq!(
        wire(&r2),
        bv("{\"use_rss\":false,\"use_api\":true,\"api_key\":null,\"keywords\":[\"ai\",\"chips\"],\"max_articles\":20}")
    );
    let r3 = get_collected_news_request(None, None, None, None, None);
    assert_eq!(
        wire(&r3),
        bv("{\"limit\":100,\"offset\":0,\"source\":null,\"order_by\":\"published_at\",\"order_desc\":true}")
    );
}

#[test]
fn prediction_requests() {
    let r = generate_stock_predictions_request(None, None, None, None);
    assert_eq!(
        wire(&r),
        bv("{\"news_job_id\":null,\"num_predictions\":5,\"user_preferences\":null,\"market_trends\":null}")
    );
    assert_eq!(
        wire(&save_prediction_action_request(bv("p1"), bv("buy"), None)),
        bv("{\"prediction_id\":\"p1\",\"action\":\"buy\",\"notes\":null}")
    );
    let r2 = get_prediction_history_request(None, None, None, Some(bv("AAPL")));
    assert_eq!(
        wire(&r2),
        bv("{\"limit\":null,\"start_date\":null,\"end_date\":null,\"symbol\":\"AAPL\"}")
    );
    let price = number_from_text(bv("123.45")).unwrap();
    let r3 = update_prediction_accuracy_request(bv("p1"), price, bv("up"));
    assert_eq!(
        wire(&r3),
        bv("{\"prediction_id\":\"p1\",\"actual_price\":123.45,\"actual_direction\":\"up\"}")
    );
}

#[test]
fn requests_parse_as_json_elsewhere() {
    let r = collect_market_news_request(None, None, None, Some(vec![bv("ai")]), None);
    let parsed: serde_json::Value = serde_json::from_slice(&wire(&r)).unwrap();
    assert_eq!(parsed["use_rss"], serde_json::Value::Bool(true));
    assert_eq!(parsed["max_articles"], serde_json::Value::from(50));
    assert_eq!(
        parsed["keywords"],
        serde_json::Value::Array(vec![serde_json::Value::String("ai".to_string())])
    );
}

#[test]
fn operation_table() {
    assert_eq!(
        Operation::RunBacktest.script_name(),
        bv("run_backtest.py")
    );
    assert_eq!(
        Operation::ImportOhlcvData.script_name(),
        bv("import_ohlcv.py")
    );
    assert_eq!(
        Operation::GetDataList.script_name(),
        bv("get_data_list.py")
    );
    assert_eq!(
        Operation::UpdatePredictionAccuracy.script_name(),
        bv("update_prediction_accuracy.py")
    );
    assert!(!Operation::GetDataList.takes_input());
    assert!(Operation::GetSelectedAlgorithms.takes_input());
    assert!(Operation::RunBacktest.takes_input());
    assert_eq!(Operation::RunBacktest.call_shape(), CallShape::JobStart);
    assert_eq!(
        Operation::GetBacktestStatus.call_shape(),
        CallShape::JobPoll
    );
    assert_eq!(
        Operation::GetDataList.call_shape(),
        CallShape::Synchronous
    );
    assert_eq!(
        Operation::CollectMarketNews.call_shape(),
        CallShape::JobStart
    );
}
