use alpaca_trading3web::order::OrderRequest;

fn order(symbol: &str, qty: f64, side: &str, order_type: &str, tif: &str, limit: Option<f64>, class: Option<&str>) -> OrderRequest {
    OrderRequest {
        symbol: symbol.to_string(),
        qty_positive: qty > 0.0,
        side: side.to_string(),
        order_type: order_type.to_string(),
        time_in_force: tif.to_string(),
        limit_price: limit.map(|p| p > 0.0),
        asset_class: class.map(|c| c.to_string()),
    }
}

#[test]
fn test_order_request_fields() {
    let order = order("AAPL", 100.0, "buy", "market", "day", None, None);
    assert_eq!(order.symbol, "AAPL");
    assert!(order.qty_positive);
    assert_eq!(order.side, "buy");
}

#[test]
fn test_order_request_with_optional_fields() {
    let order = order("TSLA", 50.0, "sell", "limit", "gtc", Some(250.50), Some("equity"));
    assert_eq!(order.limit_price, Some(true));
    assert_eq!(order.asset_class, Some("equity".to_string()));
}

#[test]
fn test_order_request_validation() {
    let mut order = order("", 10.0, "buy", "market", "gtc", None, None);
    assert!(order.validate().is_err(), "Empty symbol should fail");

    order.symbol = "AAPL".to_string();
    order.qty_positive = -1.0 > 0.0;
    assert!(order.validate().is_err(), "Negative quantity should fail");

    order.qty_positive = 10.0 > 0.0;
    order.side = "invalid".to_string();
    assert!(order.validate().is_err(), "Invalid side should fail");

    order.side = "buy".to_string();
    order.order_type = "invalid".to_string();
    assert!(order.validate().is_err(), "Invalid order type should fail");

    order.order_type = "limit".to_string();
    assert!(order.validate().is_err(), "Limit order without price should fail");

    order.limit_price = Some(150.0 > 0.0);
    assert!(order.validate().is_ok(), "Valid limit order should pass");
}

#[test]
fn validation_messages() {
    assert_eq!(order("", 1.0, "buy", "market", "day", None, None).validate(), Err("Symbol is required".to_string()));
    assert_eq!(order("A", 0.0, "buy", "market", "day", None, None).validate(), Err("Quantity must be greater than zero".to_string()));
    assert_eq!(order("A", 1.0, "hold", "market", "day", None, None).validate(), Err("Side must be 'buy' or 'sell'".to_string()));
    assert_eq!(
        order("A", 1.0, "buy", "market", "day", None, Some("us_option")).validate(),
        Err("Option side must be one of: buy_to_open, sell_to_open, buy_to_close, sell_to_close".to_string())
    );
    assert!(order("A", 1.0, "BUY_TO_OPEN", "Limit", "DAY", Some(1.0), Some("us_option")).validate().is_ok());
    assert_eq!(
        order("A", 1.0, "Sell", "bogus", "day", None, None).validate(),
        Err("Invalid order type. Must be one of: [\"market\", \"limit\", \"stop\", \"stop_limit\", \"trailing_stop\"]".to_string())
    );
    assert_eq!(
        order("A", 1.0, "Sell", "stop", "week", None, None).validate(),
        Err("Invalid time in force. Must be one of: [\"day\", \"gtc\", \"opg\", \"cls\", \"ioc\", \"fok\"]".to_string())
    );
    assert_eq!(order("A", 1.0, "buy", "limit", "day", None, None).validate(), Err("Limit price is required for limit orders".to_string()));
    assert_eq!(order("A", 1.0, "buy", "market", "day", Some(-2.0), None).validate(), Err("Limit price must be greater than zero".to_string()));
}
