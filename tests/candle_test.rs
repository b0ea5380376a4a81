use uni_xervo::provider::candle::{CandleTextModel, LocalCandleProvider, ModelArchitecture};

#[test]
fn text_model_names_and_dimensions() {
    assert_eq!(CandleTextModel::AllMiniLmL6V2.model_id(), "sentence-transformers/all-MiniLM-L6-v2");
    assert_eq!(CandleTextModel::BgeBaseEnV15.dimensions(), 768);
    assert_eq!(CandleTextModel::BgeSmallEnV15.dimensions(), 384);
    assert_eq!(CandleTextModel::BgeSmallEnV15.name(), "bge-small-en-v1.5");
    assert_eq!(CandleTextModel::default(), CandleTextModel::AllMiniLmL6V2);
}

#[test]
fn text_model_from_name_ignores_case() {
    assert_eq!(CandleTextModel::from_name("BAAI/bge-small-en-v1.5"), Some(CandleTextModel::BgeSmallEnV15));
    assert_eq!(CandleTextModel::from_name("All-MiniLM-L6-v2"), Some(CandleTextModel::AllMiniLmL6V2));
    assert_eq!(CandleTextModel::from_name("default"), Some(CandleTextModel::AllMiniLmL6V2));
    assert_eq!(CandleTextModel::from_name("unknown"), None);
    assert_eq!(CandleTextModel::from_lowered("BGEBASEENV15"), None);
    assert_eq!(CandleTextModel::from_lowered("bgebaseenv15"), Some(CandleTextModel::BgeBaseEnV15));
}

#[test]
fn architecture_from_config() {
    assert_eq!(ModelArchitecture::from_config(&None).unwrap(), ModelArchitecture::Bert);
    assert_eq!(ModelArchitecture::from_config(&Some(vec![])).unwrap(), ModelArchitecture::Bert);
    assert_eq!(
        ModelArchitecture::from_config(&Some(vec!["GemmaModel".to_string()])).unwrap(),
        ModelArchitecture::Gemma
    );
    assert_eq!(
        ModelArchitecture::from_config(&Some(vec!["JinaBertForMaskedLM".to_string()])).unwrap(),
        ModelArchitecture::JinaBert
    );
    let err = ModelArchitecture::from_config(&Some(vec!["Llama".to_string()])).unwrap_err();
    assert_eq!(err.to_string(), "Configuration error: Unsupported architecture: Llama");
}

#[test]
fn candle_provider_id() {
    assert_eq!(LocalCandleProvider::new().provider_id(), "local/candle");
}
