use evm_bridge::errors::ErrorKind;
use evm_bridge::orchestrator::{build_result, parse_request, ExitClass, ExitInfo};

const ZERO_ADDR: &str = "0000000000000000000000000000000000000000";

#[test]
fn well_formed_request_parses() {
    let ctx = parse_request(
        "0x00000000000000000000000000000000000000aa",
        ZERO_ADDR,
        "602060005260206000f3",
        "010203",
        "33000",
    )
    .unwrap();
    assert_eq!(ctx.address.bytes[19], 0xaa);
    assert_eq!(ctx.caller.bytes, vec![0u8; 20]);
    assert_eq!(ctx.code, vec![0x60, 0x20, 0x60, 0x00, 0x52, 0x60, 0x20, 0x60, 0x00, 0xf3]);
    assert_eq!(ctx.data, vec![1, 2, 3]);
    assert_eq!(ctx.apparent_value.bytes[30], 0x80);
    assert_eq!(ctx.apparent_value.bytes[31], 0xe8);
}

#[test]
fn malformed_code_hex_is_invalid_params_before_any_remote_call() {
    // the remote client would bump this for every query it makes; parsing
    // fails first, so execution is never reached and it stays at zero
    let mut remote_calls: usize = 0;
    let out = parse_request(ZERO_ADDR, ZERO_ADDR, "zz", "", "0");
    match out {
        Err(e) => assert!(matches!(e.kind, ErrorKind::InvalidParams)),
        Ok(_) => {
            remote_calls += 1;
            panic!("malformed code hex must be rejected");
        }
    }
    assert_eq!(remote_calls, 0);
}

#[test]
fn each_malformed_field_is_invalid_params() {
    let bad = |r: Result<_, evm_bridge::errors::EvmError>| match r {
        Err(e) => assert!(matches!(e.kind, ErrorKind::InvalidParams)),
        Ok(_) => panic!("must be rejected"),
    };
    bad(parse_request("xx", ZERO_ADDR, "", "", "0"));
    bad(parse_request(ZERO_ADDR, "xx", "", "", "0"));
    bad(parse_request(ZERO_ADDR, ZERO_ADDR, "0", "", "0"));
    bad(parse_request(ZERO_ADDR, ZERO_ADDR, "", "zz", "0"));
    bad(parse_request(ZERO_ADDR, ZERO_ADDR, "", "", "ten"));
}

#[test]
fn result_packaging_hex_encodes_return_bytes() {
    let exit = ExitInfo { class: ExitClass::Succeeded, detail: "Returned".to_string() };
    let r = build_result(exit, &[0x00, 0x2a, 0xff], Vec::new(), Vec::new());
    assert_eq!(r.return_value, "002aff");
    assert!(matches!(r.exit_reason.class, ExitClass::Succeeded));
    assert_eq!(r.exit_reason.detail, "Returned");
    assert!(r.apply.is_empty());
    assert!(r.logs.is_empty());
}

#[test]
fn internal_failure_response_is_uniform() {
    let e = evm_bridge::orchestrator::execution_failed();
    assert!(matches!(e.kind, ErrorKind::InternalError));
    assert_eq!(e.message, "EVM execution failed");
}
