//! The command surface as a static table: each logical operation carries a
//! worker script name, a call shape, and whether it sends a request body.
//!
//! The shapes mirror the two-phase job pattern: a `JobStart` operation
//! returns a job handle in its payload without blocking for completion, and
//! a `JobPoll` operation takes such a handle and reports current progress;
//! everything else answers synchronously.

use vstd::prelude::*;
use vstd::string::StringSliceAdditionalSpecFns;

use crate::value::str_bytes;

verus! {

/// How an operation answers.
#[derive(Debug, PartialEq, Eq)]
pub enum CallShape {
    /// The decoded payload is the result.
    Synchronous,
    /// The decoded payload carries a job handle for later polling.
    JobStart,
    /// The request carries a job handle; the payload is its current state.
    JobPoll,
}

/// The logical operations of the bridge.
#[derive(Debug, PartialEq, Eq)]
pub enum Operation {
    GenerateAlgorithmProposals,
    GetProposalGenerationStatus,
    GetAlgorithmProposals,
    SelectAlgorithm,
    GetSelectedAlgorithms,
    DeleteAlgorithm,
    RunBacktest,
    GetBacktestStatus,
    GetBacktestResults,
    GetBacktestResultsSummary,
    RunDataAnalysis,
    GetAnalysisStatus,
    GetAnalysisResults,
    GetLatestAnalysisResults,
    ConfigureDataCollection,
    GetDataCollectionSchedules,
    GetDataCollectionStatus,
    ImportOhlcvData,
    CollectFromApi,
    GetDataList,
    DeleteDataSet,
    GetDataPreview,
    UpdateDataSet,
    CheckDataIntegrity,
    CollectMarketNews,
    GetNewsCollectionStatus,
    GetCollectedNews,
    GenerateStockPredictions,
    GetStockPredictionStatus,
    GetStockPredictions,
    SavePredictionAction,
    GetPredictionHistory,
    UpdatePredictionAccuracy,
}

pub open spec fn spec_script_name(op: Operation) -> Seq<u8> {
    match op {
        Operation::GenerateAlgorithmProposals => "generate_algorithm_proposals.py".spec_bytes(),
        Operation::GetProposalGenerationStatus => "get_proposal_generation_status.py".spec_bytes(),
        Operation::GetAlgorithmProposals => "get_algorithm_proposals.py".spec_bytes(),
        Operation::SelectAlgorithm => "select_algorithm.py".spec_bytes(),
        Operation::GetSelectedAlgorithms => "get_selected_algorithms.py".spec_bytes(),
        Operation::DeleteAlgorithm => "delete_algorithm.py".spec_bytes(),
        Operation::RunBacktest => "run_backtest.py".spec_bytes(),
        Operation::GetBacktestStatus => "get_backtest_status.py".spec_bytes(),
        Operation::GetBacktestResults => "get_backtest_results.py".spec_bytes(),
        Operation::GetBacktestResultsSummary => "get_backtest_results_summary.py".spec_bytes(),
        Operation::RunDataAnalysis => "run_data_analysis.py".spec_bytes(),
        Operation::GetAnalysisStatus => "get_analysis_status.py".spec_bytes(),
        Operation::GetAnalysisResults => "get_analysis_results.py".spec_bytes(),
        Operation::GetLatestAnalysisResults => "get_latest_analysis_results.py".spec_bytes(),
        Operation::ConfigureDataCollection => "configure_data_collection.py".spec_bytes(),
        Operation::GetDataCollectionSchedules => "get_data_collection_schedules.py".spec_bytes(),
        Operation::GetDataCollectionStatus => "get_data_collection_status.py".spec_bytes(),
        Operation::ImportOhlcvData => "import_ohlcv.py".spec_bytes(),
        Operation::CollectFromApi => "collect_from_api.py".spec_bytes(),
        Operation::GetDataList => "get_data_list.py".spec_bytes(),
        Operation::DeleteDataSet => "delete_data_set.py".spec_bytes(),
        Operation::GetDataPreview => "get_data_preview.py".spec_bytes(),
        Operation::UpdateDataSet => "update_data_set.py".spec_bytes(),
        Operation::CheckDataIntegrity => "check_data_integrity.py".spec_bytes(),
        Operation::CollectMarketNews => "collect_market_news.py".spec_bytes(),
        Operation::GetNewsCollectionStatus => "get_news_collection_status.py".spec_bytes(),
        Operation::GetCollectedNews => "get_collected_news.py".spec_bytes(),
        Operation::GenerateStockPredictions => "generate_stock_predictions.py".spec_bytes(),
        Operation::GetStockPredictionStatus => "get_stock_prediction_status.py".spec_bytes(),
        Operation::GetStockPredictions => "get_stock_predictions.py".spec_bytes(),
        Operation::SavePredictionAction => "save_prediction_action.py".spec_bytes(),
        Operation::GetPredictionHistory => "get_prediction_history.py".spec_bytes(),
        Operation::UpdatePredictionAccuracy => "update_prediction_accuracy.py".spec_bytes(),
    }
}

pub open spec fn spec_call_shape(op: Operation) -> CallShape {
    match op {
        Operation::GenerateAlgorithmProposals => CallShape::JobStart,
        Operation::GetProposalGenerationStatus => CallShape::JobPoll,
        Operation::GetAlgorithmProposals => CallShape::JobPoll,
        Operation::SelectAlgorithm => CallShape::Synchronous,
        Operation::GetSelectedAlgorithms => CallShape::Synchronous,
        Operation::DeleteAlgorithm => CallShape::Synchronous,
        Operation::RunBacktest => CallShape::JobStart,
        Operation::GetBacktestStatus => CallShape::JobPoll,
        Operation::GetBacktestResults => CallShape::JobPoll,
        Operation::GetBacktestResultsSummary => CallShape::Synchronous,
        Operation::RunDataAnalysis => CallShape::JobStart,
        Operation::GetAnalysisStatus => CallShape::JobPoll,
        Operation::GetAnalysisResults => CallShape::JobPoll,
        Operation::GetLatestAnalysisResults => CallShape::Synchronous,
        Operation::ConfigureDataCollection => CallShape::Synchronous,
        Operation::GetDataCollectionSchedules => CallShape::Synchronous,
        Operation::GetDataCollectionStatus => CallShape::JobPoll,
        Operation::ImportOhlcvData => CallShape::Synchronous,
        Operation::CollectFromApi => CallShape::Synchronous,
        Operation::GetDataList => CallShape::Synchronous,
        Operation::DeleteDataSet => CallShape::Synchronous,
        Operation::GetDataPreview => CallShape::Synchronous,
        Operation::UpdateDataSet => CallShape::Synchronous,
        Operation::CheckDataIntegrity => CallShape::Synchronous,
        Operation::CollectMarketNews => CallShape::JobStart,
        Operation::GetNewsCollectionStatus => CallShape::JobPoll,
        Operation::GetCollectedNews => CallShape::Synchronous,
        Operation::GenerateStockPredictions => CallShape::JobStart,
        Operation::GetStockPredictionStatus => CallShape::JobPoll,
        Operation::GetStockPredictions => CallShape::JobPoll,
        Operation::SavePredictionAction => CallShape::Synchronous,
        Operation::GetPredictionHistory => CallShape::Synchronous,
        Operation::UpdatePredictionAccuracy => CallShape::Synchronous,
    }
}

/// The one operation without arguments sends no request body, so that no
/// input channel is ever attached for it.
pub open spec fn spec_takes_input(op: Operation) -> bool {
    !(op is GetDataList)
}

impl Operation {
    /// The worker artifact this operation runs.
    pub fn script_name(&self) -> (r: Vec<u8>)
        ensures
            r@ == spec_script_name(*self),
    {
        match self {
            Operation::GenerateAlgorithmProposals => str_bytes("generate_algorithm_proposals.py"),
            Operation::GetProposalGenerationStatus => str_bytes("get_proposal_generation_status.py"),
            Operation::GetAlgorithmProposals => str_bytes("get_algorithm_proposals.py"),
            Operation::SelectAlgorithm => str_bytes("select_algorithm.py"),
            Operation::GetSelectedAlgorithms => str_bytes("get_selected_algorithms.py"),
            Operation::DeleteAlgorithm => str_bytes("delete_algorithm.py"),
            Operation::RunBacktest => str_bytes("run_backtest.py"),
            Operation::GetBacktestStatus => str_bytes("get_backtest_status.py"),
            Operation::GetBacktestResults => str_bytes("get_backtest_results.py"),
            Operation::GetBacktestResultsSummary => str_bytes("get_backtest_results_summary.py"),
            Operation::RunDataAnalysis => str_bytes("run_data_analysis.py"),
            Operation::GetAnalysisStatus => str_bytes("get_analysis_status.py"),
            Operation::GetAnalysisResults => str_bytes("get_analysis_results.py"),
            Operation::GetLatestAnalysisResults => str_bytes("get_latest_analysis_results.py"),
            Operation::ConfigureDataCollection => str_bytes("configure_data_collection.py"),
            Operation::GetDataCollectionSchedules => str_bytes("get_data_collection_schedules.py"),
            Operation::GetDataCollectionStatus => str_bytes("get_data_collection_status.py"),
            Operation::ImportOhlcvData => str_bytes("import_ohlcv.py"),
            Operation::CollectFromApi => str_bytes("collect_from_api.py"),
            Operation::GetDataList => str_bytes("get_data_list.py"),
            Operation::DeleteDataSet => str_bytes("delete_data_set.py"),
            Operation::GetDataPreview => str_bytes("get_data_preview.py"),
            Operation::UpdateDataSet => str_bytes("update_data_set.py"),
            Operation::CheckDataIntegrity => str_bytes("check_data_integrity.py"),
            Operation::CollectMarketNews => str_bytes("collect_market_news.py"),
            Operation::GetNewsCollectionStatus => str_bytes("get_news_collection_status.py"),
            Operation::GetCollectedNews => str_bytes("get_collected_news.py"),
            Operation::GenerateStockPredictions => str_bytes("generate_stock_predictions.py"),
            Operation::GetStockPredictionStatus => str_bytes("get_stock_prediction_status.py"),
            Operation::GetStockPredictions => str_bytes("get_stock_predictions.py"),
            Operation::SavePredictionAction => str_bytes("save_prediction_action.py"),
            Operation::GetPredictionHistory => str_bytes("get_prediction_history.py"),
            Operation::UpdatePredictionAccuracy => str_bytes("update_prediction_accuracy.py"),
        }
    }

    /// Whether this operation answers synchronously or through a job handle.
    pub fn call_shape(&self) -> (r: CallShape)
        ensures
            r == spec_call_shape(*self),
    {
        match self {
            Operation::GenerateAlgorithmProposals => CallShape::JobStart,
            Operation::GetProposalGenerationStatus => CallShape::JobPoll,
            Operation::GetAlgorithmProposals => CallShape::JobPoll,
            Operation::SelectAlgorithm => CallShape::Synchronous,
            Operation::GetSelectedAlgorithms => CallShape::Synchronous,
            Operation::DeleteAlgorithm => CallShape::Synchronous,
            Operation::RunBacktest => CallShape::JobStart,
            Operation::GetBacktestStatus => CallShape::JobPoll,
            Operation::GetBacktestResults => CallShape::JobPoll,
            Operation::GetBacktestResultsSummary => CallShape::Synchronous,
            Operation::RunDataAnalysis => CallShape::JobStart,
            Operation::GetAnalysisStatus => CallShape::JobPoll,
            Operation::GetAnalysisResults => CallShape::JobPoll,
            Operation::GetLatestAnalysisResults => CallShape::Synchronous,
            Operation::ConfigureDataCollection => CallShape::Synchronous,
            Operation::GetDataCollectionSchedules => CallShape::Synchronous,
            Operation::GetDataCollectionStatus => CallShape::JobPoll,
            Operation::ImportOhlcvData => CallShape::Synchronous,
            Operation::CollectFromApi => CallShape::Synchronous,
            Operation::GetDataList => CallShape::Synchronous,
            Operation::DeleteDataSet => CallShape::Synchronous,
            Operation::GetDataPreview => CallShape::Synchronous,
            Operation::UpdateDataSet => CallShape::Synchronous,
            Operation::CheckDataIntegrity => CallShape::Synchronous,
            Operation::CollectMarketNews => CallShape::JobStart,
            Operation::GetNewsCollectionStatus => CallShape::JobPoll,
            Operation::GetCollectedNews => CallShape::Synchronous,
            Operation::GenerateStockPredictions => CallShape::JobStart,
            Operation::GetStockPredictionStatus => CallShape::JobPoll,
            Operation::GetStockPredictions => CallShape::JobPoll,
            Operation::SavePredictionAction => CallShape::Synchronous,
            Operation::GetPredictionHistory => CallShape::Synchronous,
            Operation::UpdatePredictionAccuracy => CallShape::Synchronous,
        }
    }

    /// Whether a request body is sent to the worker.
    pub fn takes_input(&self) -> (r: bool)
        ensures
            r == spec_takes_input(*self),
    {
        match self {
            Operation::GetDataList => false,
            _ => true,
        }
    }
}

} // verus!
