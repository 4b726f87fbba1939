//! Ledger creation, update and deletion, against the validation rules and
//! the derived fees.

use rand::{Rng, SeedableRng};
use trade_journal::forms::{fill_optional_fields, TradeForm};
use trade_journal::ledger::Ledger;
use trade_journal::trade::Trade;
use trade_journal::user::UserStore;
use trade_journal::wallet::WalletStore;

// 2022-06-15 00:00:00 UTC
const MID_2022: i64 = 1_655_251_200;

fn create_wallet(wallets: &mut WalletStore) -> String {
    let wallet = wallets.create().unwrap();
    wallet.id
}

fn create_user(users: &mut UserStore, wallets: &mut WalletStore) -> (String, String) {
    let name = "test_user".to_string();
    let email = "test_email".to_string();
    let password = "test_password".to_string();
    let wallet_id = create_wallet(wallets);

    let (user, _err) = users.create(wallets, name, email, wallet_id, password);

    let user = user.unwrap();
    (user.id, user.wallet_id)
}

fn gen_rand_trade(
    rng: &mut rand::rngs::StdRng,
    user_id: String,
    wallet_id: String,
    timestamp: i64,
) -> Trade {
    let trade_form = TradeForm {
        user_id,
        wallet_id,
        trade_type: if rng.gen() {
            if rng.gen() {
                "LimitBuy".to_string()
            } else {
                "LimitSell".to_string()
            }
        } else {
            if rng.gen() {
                "MarketBuy".to_string()
            } else {
                "MarketSell".to_string()
            }
        },
        amount: rng.gen_range(1_000..100_000),
        chain: if rng.gen() {
            "Ethereum".to_string()
        } else {
            "Arbitrum".to_string()
        },
        asset: if rng.gen() {
            "ETH".to_string()
        } else {
            "BTC".to_string()
        },
        before_price: Some(rng.gen_range(1_000..100_000)),
        execution_price: Some(rng.gen_range(1_000..100_000)),
        final_price: Some(rng.gen_range(1_000..100_000)),
        traded_amount: Some(rng.gen_range(1_000..100_000)),
        timestamp: Some(timestamp),
    };

    fill_optional_fields(&trade_form)
}

#[test]
fn create_trade() {
    let mut rng = rand::rngs::StdRng::seed_from_u64(7);
    let mut wallets = WalletStore::new();
    let mut users = UserStore::new();
    let mut ledger = Ledger::new();
    let (user_id, wallet_id) = create_user(&mut users, &mut wallets);
    let new_trade = gen_rand_trade(&mut rng, user_id, wallet_id, MID_2022);

    let trade = ledger.create(&new_trade);
    let trade = trade.unwrap();

    assert_eq!(trade.user_id, new_trade.user_id);
    assert_eq!(trade.trade_type, new_trade.trade_type);
    assert_eq!(trade.wallet_id, new_trade.wallet_id);
    assert_eq!(trade.amount, new_trade.amount);
    assert_eq!(trade.chain, new_trade.chain);
    assert_eq!(trade.asset, new_trade.asset);
    assert_eq!(trade.before_price, new_trade.before_price);
    assert_eq!(trade.execution_price, new_trade.execution_price);
    assert_eq!(trade.final_price, new_trade.final_price);
    assert_eq!(trade.traded_amount, new_trade.traded_amount);
    assert_eq!(trade.execution_fee, new_trade.execution_fee);
    assert_eq!(trade.transaction_fee, new_trade.transaction_fee);
}

#[test]
fn cumulative_fees() {
    let mut rng = rand::rngs::StdRng::seed_from_u64(11);
    let mut wallets = WalletStore::new();
    let mut users = UserStore::new();
    let mut ledger = Ledger::new();
    let (user_id, wallet_id) = create_user(&mut users, &mut wallets);

    for _ in 0..10 {
        let new_trade = gen_rand_trade(&mut rng, user_id.clone(), wallet_id.clone(), MID_2022);
        ledger.create(&new_trade).unwrap();
    }

    let result = Trade::profit_loss(
        &ledger,
        "2022-01-01".to_string(),
        "2023-01-08".to_string(),
        user_id.clone(),
        None,
        None,
    );
    assert!(result.len() > 0);
}

#[test]
fn cumulative_fees_by_asset() {
    let mut rng = rand::rngs::StdRng::seed_from_u64(13);
    let mut wallets = WalletStore::new();
    let mut users = UserStore::new();
    let mut ledger = Ledger::new();
    let (user_id, wallet_id) = create_user(&mut users, &mut wallets);

    for i in 0..10 {
        let mut new_trade = gen_rand_trade(&mut rng, user_id.clone(), wallet_id.clone(), MID_2022);
        if i % 2 == 0 {
            new_trade.asset = "ETH".to_string();
        }
        ledger.create(&new_trade).unwrap();
    }

    let result = Trade::profit_loss(
        &ledger,
        "2022-01-01".to_string(),
        "2023-01-08".to_string(),
        user_id.clone(),
        Some("ETH".to_string()),
        None,
    );
    assert!(result.len() > 0);
}

#[test]
fn cumulative_fees_by_trade_type() {
    let mut rng = rand::rngs::StdRng::seed_from_u64(17);
    let mut wallets = WalletStore::new();
    let mut users = UserStore::new();
    let mut ledger = Ledger::new();
    let (user_id, wallet_id) = create_user(&mut users, &mut wallets);

    for i in 0..10 {
        let mut new_trade = gen_rand_trade(&mut rng, user_id.clone(), wallet_id.clone(), MID_2022);
        if i % 2 == 0 {
            new_trade.trade_type = "LimitBuy".to_string();
        }
        ledger.create(&new_trade).unwrap();
    }

    let result = Trade::profit_loss(
        &ledger,
        "2022-01-01".to_string(),
        "2023-01-08".to_string(),
        user_id.clone(),
        None,
        Some("LimitBuy".to_string()),
    );
    assert!(result.len() > 0);
}

#[test]
fn test_profit_loss_with_asset() {
    let mut rng = rand::rngs::StdRng::seed_from_u64(19);
    let mut wallets = WalletStore::new();
    let mut users = UserStore::new();
    let mut ledger = Ledger::new();
    let (user_id, wallet_id) = create_user(&mut users, &mut wallets);

    let mut expected_profit_value_for_asset: i64 = 0;
    let mut expected_loss_value_for_asset: i64 = 0;

    for _ in 0..5 {
        let mut new_trade = gen_rand_trade(&mut rng, user_id.clone(), wallet_id.clone(), MID_2022);
        new_trade.asset = "ETH".to_string();
        let trade = ledger.create(&new_trade).unwrap();
        let pnl = trade.calculate_trade_pnl();
        if pnl > 0 {
            expected_profit_value_for_asset += pnl;
        } else {
            expected_loss_value_for_asset += pnl;
        }
    }

    let mut expected_profit_value_for_other_asset: i64 = 0;
    let mut expected_loss_value_for_other_asset: i64 = 0;

    for _ in 0..3 {
        let mut new_trade = gen_rand_trade(&mut rng, user_id.clone(), wallet_id.clone(), MID_2022);
        new_trade.asset = "XRP".to_string();
        let trade = ledger.create(&new_trade).unwrap();
        let pnl = trade.calculate_trade_pnl();
        if pnl > 0 {
            expected_profit_value_for_other_asset += pnl;
        } else {
            expected_loss_value_for_other_asset += pnl;
        }
    }

    let result = Trade::profit_loss(
        &ledger,
        "2022-01-01".to_string(),
        "2023-01-08".to_string(),
        user_id.clone(),
        Some("ETH".to_string()),
        None,
    );

    assert!(!result.is_empty());

    let mut profit: i128 = 0;
    let mut loss: i128 = 0;
    for day in result.iter() {
        profit += day.profit;
        loss += day.loss;
    }

    assert_eq!(profit, round_micro(expected_profit_value_for_asset as i128));
    assert_eq!(loss, round_micro(expected_loss_value_for_asset as i128));

    let result = Trade::profit_loss(
        &ledger,
        "2022-01-01".to_string(),
        "2023-01-08".to_string(),
        user_id.clone(),
        Some("XRP".to_string()),
        None,
    );

    let mut profit: i128 = 0;
    let mut loss: i128 = 0;
    for day in result.iter() {
        profit += day.profit;
        loss += day.loss;
    }
    assert!(!result.is_empty());

    assert_eq!(profit, round_micro(expected_profit_value_for_other_asset as i128));
    assert_eq!(loss, round_micro(expected_loss_value_for_other_asset as i128));
}

#[test]
fn test_profit_loss_with_tradetype() {
    let mut rng = rand::rngs::StdRng::seed_from_u64(23);
    let mut wallets = WalletStore::new();
    let mut users = UserStore::new();
    let mut ledger = Ledger::new();
    let (user_id, wallet_id) = create_user(&mut users, &mut wallets);

    let mut expected_profit_value_for_trade_type: i64 = 0;
    let mut expected_loss_value_for_trade_type: i64 = 0;

    for _ in 0..5 {
        let mut new_trade = gen_rand_trade(&mut rng, user_id.clone(), wallet_id.clone(), MID_2022);
        new_trade.trade_type = "LimitBuy".to_string();
        let trade = ledger.create(&new_trade).unwrap();
        let pnl = trade.calculate_trade_pnl();
        if pnl > 0 {
            expected_profit_value_for_trade_type += pnl;
        } else {
            expected_loss_value_for_trade_type += pnl;
        }
    }

    let result = Trade::profit_loss(
        &ledger,
        "2022-01-01".to_string(),
        "2023-01-08".to_string(),
        user_id.clone(),
        None,
        Some("LimitBuy".to_string()),
    );

    assert!(!result.is_empty());

    let mut profit: i128 = 0;
    let mut loss: i128 = 0;
    for day in result.iter() {
        profit += day.profit;
        loss += day.loss;
    }

    assert_eq!(profit, round_micro(expected_profit_value_for_trade_type as i128));
    assert_eq!(loss, round_micro(expected_loss_value_for_trade_type as i128));
}

#[test]
fn test_profit_loss_without_asset_and_tradetype() {
    let mut rng = rand::rngs::StdRng::seed_from_u64(29);
    let mut wallets = WalletStore::new();
    let mut users = UserStore::new();
    let mut ledger = Ledger::new();
    let (user_id, wallet_id) = create_user(&mut users, &mut wallets);

    let mut expected_profit_value: i64 = 0;
    let mut expected_loss_value: i64 = 0;

    for _ in 0..5 {
        let new_trade = gen_rand_trade(&mut rng, user_id.clone(), wallet_id.clone(), MID_2022);

        let trade = ledger.create(&new_trade).unwrap();
        let pnl = trade.calculate_trade_pnl();
        if pnl > 0 {
            expected_profit_value += pnl;
        } else {
            expected_loss_value += pnl;
        }
    }

    let result = Trade::profit_loss(
        &ledger,
        "2022-01-01".to_string(),
        "2023-01-08".to_string(),
        user_id.clone(),
        None,
        None,
    );

    assert!(!result.is_empty());

    let mut profit: i128 = 0;
    let mut loss: i128 = 0;
    for day in result.iter() {
        profit += day.profit;
        loss += day.loss;
    }

    assert_eq!(profit, round_micro(expected_profit_value as i128));
    assert_eq!(loss, round_micro(expected_loss_value as i128));
}

#[test]
fn test_get_slippage_bt_dates() {
    let mut rng = rand::rngs::StdRng::seed_from_u64(31);
    let mut wallets = WalletStore::new();
    let mut users = UserStore::new();
    let mut ledger = Ledger::new();
    let (user_id, wallet_id) = create_user(&mut users, &mut wallets);

    let mut expected_total_slippage: i128 = 0;
    let mut expected_total_slippage_cost_percent: i128 = 0;
    let mut trades: i128 = 0;
    for _ in 0..5 {
        let new_trade = gen_rand_trade(&mut rng, user_id.clone(), wallet_id.clone(), MID_2022);
        let (slippage, slippage_cost_percent) =
            ledger.create(&new_trade).unwrap().calculate_slippage();
        expected_total_slippage += slippage;
        expected_total_slippage_cost_percent += slippage_cost_percent;
        trades += 1;
    }

    let result = Trade::get_slippage_bt_dates(
        &ledger,
        "2022-01-01".to_string(),
        "2023-01-08".to_string(),
        user_id.clone(),
    );

    let expected_average_slippage = expected_total_slippage.div_euclid(trades);
    let expected_average_slippage_cost_percent =
        expected_total_slippage_cost_percent.div_euclid(trades);

    assert_eq!(result.trader_id, user_id);

    assert_eq!(result.total_slippage, round_milli(expected_total_slippage));
    assert_eq!(result.average_slippage, round_milli(expected_average_slippage));
    assert_eq!(
        result.total_slippage_cost_percent,
        round_milli(expected_total_slippage_cost_percent)
    );
    assert_eq!(
        result.average_slippage_cost_percent,
        round_milli(expected_average_slippage_cost_percent)
    );
}

/// Every valid chain, trade type and asset combination is accepted, and the
/// derived fees match the fee formulas exactly.
#[test]
fn create_accepts_every_valid_combination() {
    let chains = ["Ethereum", "Arbitrum", "Optimism", "Polygon"];
    let trade_types = ["LimitBuy", "LimitSell", "MarketBuy", "MarketSell"];
    let assets = ["BTC", "ETH", "XRP", "XLM", "DOGE"];

    let mut ledger = Ledger::new();
    for chain in chains.iter() {
        for trade_type in trade_types.iter() {
            for asset in assets.iter() {
                let form = TradeForm {
                    user_id: "u1".to_string(),
                    wallet_id: "w1".to_string(),
                    amount: 5_000,
                    chain: chain.to_string(),
                    trade_type: trade_type.to_string(),
                    asset: asset.to_string(),
                    before_price: Some(90_000),
                    execution_price: Some(100_000),
                    final_price: Some(105_000),
                    traded_amount: Some(10_000),
                    timestamp: Some(MID_2022),
                };
                let trade = fill_optional_fields(&form);
                let stored = ledger.create(&trade).expect("valid combination rejected");
                assert_eq!(stored.execution_fee, 3 * 100_000 * 10_000 / 1_000_000);
                assert_eq!(stored.transaction_fee, 5 * 100_000 / 1_000);
            }
        }
    }
    assert_eq!(ledger.len(), 4 * 4 * 5);
}

/// Invalid enumerated values are rejected by create, and nothing is stored.
#[test]
fn create_rejects_invalid_values() {
    let mut ledger = Ledger::new();
    let base = TradeForm {
        user_id: "u1".to_string(),
        wallet_id: "w1".to_string(),
        amount: 5_000,
        chain: "Ethereum".to_string(),
        trade_type: "LimitBuy".to_string(),
        asset: "ETH".to_string(),
        before_price: Some(90_000),
        execution_price: Some(100_000),
        final_price: Some(105_000),
        traded_amount: Some(10_000),
        timestamp: Some(MID_2022),
    };

    let mut bad_chain = fill_optional_fields(&base);
    bad_chain.chain = "ethereum".to_string();
    assert!(ledger.create(&bad_chain).is_none());

    let mut bad_type = fill_optional_fields(&base);
    bad_type.trade_type = "limitBuy".to_string();
    assert!(ledger.create(&bad_type).is_none());

    let mut bad_asset = fill_optional_fields(&base);
    bad_asset.asset = "DOGE2".to_string();
    assert!(ledger.create(&bad_asset).is_none());

    let mut empty_chain = fill_optional_fields(&base);
    empty_chain.chain = String::new();
    assert!(ledger.create(&empty_chain).is_none());

    assert_eq!(ledger.len(), 0);
}

/// Invalid enumerated values are rejected by update, and the stored record
/// is not modified.
#[test]
fn update_rejects_invalid_values() {
    let mut ledger = Ledger::new();
    let form = TradeForm {
        user_id: "u1".to_string(),
        wallet_id: "w1".to_string(),
        amount: 5_000,
        chain: "Ethereum".to_string(),
        trade_type: "LimitBuy".to_string(),
        asset: "ETH".to_string(),
        before_price: Some(90_000),
        execution_price: Some(100_000),
        final_price: Some(105_000),
        traded_amount: Some(10_000),
        timestamp: Some(MID_2022),
    };
    let stored = ledger.create(&fill_optional_fields(&form)).unwrap();

    let mut replacement = fill_optional_fields(&form);
    replacement.asset = "USD".to_string();
    replacement.amount = 9_000;
    assert!(ledger.update(stored.id.clone(), &replacement).is_none());

    let unchanged = ledger.find_by_id(stored.id.clone()).unwrap();
    assert_eq!(unchanged.amount, stored.amount);
    assert_eq!(unchanged.asset, "ETH".to_string());
}

/// An update overwrites the mutable fields and stores the caller's fee
/// values as given, without recomputing them.
#[test]
fn update_trusts_caller_fees() {
    let mut ledger = Ledger::new();
    let form = TradeForm {
        user_id: "u1".to_string(),
        wallet_id: "w1".to_string(),
        amount: 5_000,
        chain: "Ethereum".to_string(),
        trade_type: "LimitBuy".to_string(),
        asset: "ETH".to_string(),
        before_price: Some(90_000),
        execution_price: Some(100_000),
        final_price: Some(105_000),
        traded_amount: Some(10_000),
        timestamp: Some(MID_2022),
    };
    let stored = ledger.create(&fill_optional_fields(&form)).unwrap();

    let mut replacement = fill_optional_fields(&form);
    replacement.chain = "Polygon".to_string();
    replacement.execution_fee = 77;
    replacement.transaction_fee = 88;
    let updated = ledger.update(stored.id.clone(), &replacement).unwrap();

    assert_eq!(updated.id, stored.id);
    assert_eq!(updated.chain, "Polygon".to_string());
    assert_eq!(updated.execution_fee, 77);
    assert_eq!(updated.transaction_fee, 88);
    assert_eq!(updated.user_id, stored.user_id);
    assert_eq!(updated.created_at, stored.created_at);
}

/// Deleting the same identifier twice returns true both times: the record
/// is absent after the first call.
#[test]
fn delete_twice_is_idempotent() {
    let mut ledger = Ledger::new();
    let form = TradeForm {
        user_id: "u1".to_string(),
        wallet_id: "w1".to_string(),
        amount: 5_000,
        chain: "Ethereum".to_string(),
        trade_type: "LimitBuy".to_string(),
        asset: "ETH".to_string(),
        before_price: Some(90_000),
        execution_price: Some(100_000),
        final_price: Some(105_000),
        traded_amount: Some(10_000),
        timestamp: Some(MID_2022),
    };
    let stored = ledger.create(&fill_optional_fields(&form)).unwrap();
    assert_eq!(ledger.len(), 1);

    assert!(ledger.delete(stored.id.clone()));
    assert_eq!(ledger.len(), 0);
    assert!(ledger.find_by_id(stored.id.clone()).is_none());
    assert!(ledger.delete(stored.id.clone()));
    assert!(ledger.delete("never-existed".to_string()));
}

/// A stored trade's identifier is a hyphenated UUID: 36 characters with
/// hyphens at the canonical positions.
#[test]
fn create_assigns_uuid_identifier() {
    let mut ledger = Ledger::new();
    let form = TradeForm {
        user_id: "u1".to_string(),
        wallet_id: "w1".to_string(),
        amount: 5_000,
        chain: "Ethereum".to_string(),
        trade_type: "LimitBuy".to_string(),
        asset: "ETH".to_string(),
        before_price: None,
        execution_price: None,
        final_price: None,
        traded_amount: None,
        timestamp: Some(MID_2022),
    };
    let stored = ledger.create(&fill_optional_fields(&form)).unwrap();
    assert_eq!(stored.id.len(), 36);
    let bytes = stored.id.as_bytes();
    assert_eq!(bytes[8], b'-');
    assert_eq!(bytes[13], b'-');
    assert_eq!(bytes[18], b'-');
    assert_eq!(bytes[23], b'-');
}

/// A submitted epoch timestamp becomes the ISO creation time; absent
/// optional amounts become zero.
#[test]
fn normalization_defaults_and_timestamp() {
    let form = TradeForm {
        user_id: "u1".to_string(),
        wallet_id: "w1".to_string(),
        amount: 5_000,
        chain: "Ethereum".to_string(),
        trade_type: "LimitBuy".to_string(),
        asset: "ETH".to_string(),
        before_price: None,
        execution_price: None,
        final_price: None,
        traded_amount: None,
        timestamp: Some(1_629_620_736),
    };
    let trade = fill_optional_fields(&form);
    assert_eq!(trade.created_at, "2021-08-22 08:25:36".to_string());
    assert_eq!(trade.before_price, 0);
    assert_eq!(trade.execution_price, 0);
    assert_eq!(trade.final_price, 0);
    assert_eq!(trade.traded_amount, 0);
    assert_eq!(trade.execution_fee, 0);
    assert_eq!(trade.transaction_fee, 0);
    assert_eq!(trade.id, String::new());
}

/// Listing returns every record, ordered by descending identifier.
#[test]
fn list_returns_every_record_ordered() {
    let mut ledger = Ledger::new();
    for i in 0..5u64 {
        let form = TradeForm {
            user_id: format!("u{}", i),
            wallet_id: "w1".to_string(),
            amount: 5_000,
            chain: "Ethereum".to_string(),
            trade_type: "LimitBuy".to_string(),
            asset: "ETH".to_string(),
            before_price: Some(90_000),
            execution_price: Some(100_000),
            final_price: Some(105_000),
            traded_amount: Some(10_000),
            timestamp: Some(MID_2022),
        };
        ledger.create(&fill_optional_fields(&form)).unwrap();
    }
    let all = ledger.list();
    assert_eq!(all.len(), 5);
    for w in all.windows(2) {
        assert!(w[0].id >= w[1].id);
    }
    for i in 0..5u64 {
        let expected = format!("u{}", i);
        assert!(all.iter().any(|t| t.user_id == expected));
    }
    assert!(ledger.find_by_id("missing".to_string()).is_none());
}

fn round_milli(x: i128) -> i128 {
    if x >= 0 {
        (x + 500) / 1_000
    } else {
        -((-x + 500) / 1_000)
    }
}

fn round_micro(x: i128) -> i128 {
    if x >= 0 {
        (x + 500_000) / 1_000_000
    } else {
        -((-x + 500_000) / 1_000_000)
    }
}
