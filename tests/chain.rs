use ergoreq::chain::{cookie_header, plan_chain, Stage};

#[test]
fn chain_orders_global_request_redirect_retry() {
    let plan = plan_chain(2, 1, 5, true);
    assert!(plan == vec![Stage::Global(0), Stage::Global(1), Stage::Request(0), Stage::Redirect(5), Stage::Retry]);
    let plan = plan_chain(0, 2, 0, false);
    assert!(plan == vec![Stage::Request(0), Stage::Request(1)]);
    assert!(plan_chain(0, 0, 0, false).is_empty());
    assert!(plan_chain(0, 0, 3, false) == vec![Stage::Redirect(3)]);
}

#[test]
fn cookie_header_joins_with_semicolon() {
    assert_eq!(cookie_header(&vec!["a=1".to_string(), "b=2".to_string(), "c=3".to_string()]), "a=1; b=2; c=3");
    assert_eq!(cookie_header(&vec!["a=1".to_string()]), "a=1");
    assert_eq!(cookie_header(&vec![]), "");
}
