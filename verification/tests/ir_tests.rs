use llm_mux::ir::IrRequest;
use llm_mux::types::Protocol;

#[test]
fn ir_request_stream_default() {
    let req = IrRequest::new("sonnet-4-6".into(), Protocol::Anthropic);
    assert!(!req.is_streaming());
    assert!(!req.has_tools());
    assert_eq!(req.inbound_protocol(), Protocol::Anthropic);
}
