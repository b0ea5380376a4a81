use uni_xervo::api::ModelTask;
use uni_xervo::provider::candle::LocalCandleProvider;
use uni_xervo::provider::fastembed::LocalFastEmbedProvider;
use uni_xervo::provider::mistralrs::{parse_isq_type, IsqType, LocalMistralRsProvider};

#[test]
fn local_provider_ids_and_capabilities() {
    assert_eq!(LocalFastEmbedProvider::new().provider_id(), "local/fastembed");
    assert_eq!(LocalFastEmbedProvider::new().capabilities().supported_tasks, vec![ModelTask::Embed]);
    assert_eq!(LocalMistralRsProvider::new().provider_id(), "local/mistralrs");
    assert_eq!(
        LocalMistralRsProvider::new().capabilities().supported_tasks,
        vec![ModelTask::Embed, ModelTask::Generate]
    );
    assert!(LocalCandleProvider::new().capabilities().supports(ModelTask::Embed));
    assert!(!LocalCandleProvider::new().capabilities().supports(ModelTask::Generate));
}

#[test]
fn isq_type_parsing() {
    assert_eq!(parse_isq_type("Q4K").unwrap(), IsqType::Q4K);
    assert_eq!(parse_isq_type("q4k").unwrap(), IsqType::Q4K);
    assert_eq!(parse_isq_type("afq8").unwrap(), IsqType::AFQ8);
    assert_eq!(parse_isq_type("f8e4m3").unwrap(), IsqType::F8E4M3);
    let err = parse_isq_type("Q9").unwrap_err();
    assert!(err.to_string().contains("Unknown ISQ type 'Q9'"));
}
