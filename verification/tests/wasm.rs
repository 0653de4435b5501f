use thz_runtime::wasm::thz_wasm_versao;

#[test]
fn versao_wasm() {
    assert_eq!(thz_wasm_versao(), "0.4.0-WASM");
}
