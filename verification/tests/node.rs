use substrate_pallets::node::{chain_spec_source, ChainSpecSource};

#[test]
fn chain_spec_is_chosen_by_its_identifier() {
    assert_eq!(chain_spec_source("dev"), ChainSpecSource::Development);
    assert_eq!(chain_spec_source(""), ChainSpecSource::LocalTestnet);
    assert_eq!(chain_spec_source("local"), ChainSpecSource::LocalTestnet);
    assert_eq!(
        chain_spec_source("./customSpec.json"),
        ChainSpecSource::JsonFile("./customSpec.json".to_string())
    );
    assert_eq!(chain_spec_source("devx"), ChainSpecSource::JsonFile("devx".to_string()));
    assert_eq!(chain_spec_source("Local"), ChainSpecSource::JsonFile("Local".to_string()));
}
