use payment_ledger::ident::gen_id;
use payment_ledger::store::{health, StableState};
use payment_ledger::types::{
    clone_pairs, clone_text, Intent, IntentStatus, Invoice, Provider, ProviderConfig, ProviderKind,
};

fn text(s: &str) -> String {
    s.to_string()
}

fn pair(k: &str, v: &str) -> (String, String) {
    (k.to_string(), v.to_string())
}

#[test]
fn gen_id_joins_prefix_and_decimal_time() {
    assert_eq!(gen_id("int", 0), "int-0");
    assert_eq!(gen_id("int", 7), "int-7");
    assert_eq!(gen_id("int", 10), "int-10");
    assert_eq!(gen_id("inv", 1234567890), "inv-1234567890");
    assert_eq!(gen_id("inv", 1_700_000_000_000_000_000), "inv-1700000000000000000");
    assert_eq!(gen_id("", 42), "-42");
    assert_eq!(gen_id("a-b", 909), "a-b-909");
}

#[test]
fn gen_id_takes_the_largest_time() {
    assert_eq!(gen_id("int", u64::MAX), "int-18446744073709551615");
    assert_eq!(gen_id("int", u64::MAX), format!("int-{}", u64::MAX));
}

#[test]
fn gen_id_agrees_with_std_formatting() {
    let mut n: u64 = 1;
    for _ in 0..64 {
        assert_eq!(gen_id("p", n), format!("p-{}", n));
        assert_eq!(gen_id("p", n - 1), format!("p-{}", n - 1));
        n = n.wrapping_mul(2);
    }
    for n in 0..1200u64 {
        assert_eq!(gen_id("q", n), format!("q-{}", n));
    }
}

#[test]
fn different_times_give_different_ids() {
    assert_ne!(gen_id("int", 1), gen_id("int", 10));
    assert_ne!(gen_id("int", 100), gen_id("int", 1000));
    assert_ne!(gen_id("int", 5), gen_id("inv", 5));
}

#[test]
fn health_reports_alive_with_the_time() {
    assert_eq!(health(0), (true, 0));
    assert_eq!(health(99), (true, 99));
    assert_eq!(health(u64::MAX), (true, u64::MAX));
}

#[test]
fn fresh_store_is_empty() {
    let st = StableState::new();
    assert!(st.list_intents().is_empty());
    assert!(st.list_invoices().is_empty());
    assert!(st.get_provider_configs().is_empty());
}

#[test]
fn get_intent_on_unknown_id_is_absent() {
    let mut st = StableState::new();
    assert_eq!(st.get_intent(text("int-1")), None);
    st.create_intent(1, 10, text("USD"), None, Provider::Stripe);
    assert_eq!(st.get_intent(text("int-2")), None);
    assert_eq!(st.get_intent(text("")), None);
    assert_eq!(st.get_intent(text("inv-1")), None);
}

#[test]
fn create_intent_fills_every_field() {
    let mut st = StableState::new();
    let i = st.create_intent(
        1700,
        500,
        text("USD"),
        Some(text("order 9")),
        Provider::Custom(text("acme")),
    );
    assert_eq!(
        i,
        Intent {
            id: text("int-1700"),
            amount_minor: 500,
            currency: text("USD"),
            description: Some(text("order 9")),
            provider: Provider::Custom(text("acme")),
            created_at: 1700,
            status: IntentStatus::Processing,
            receipt_hash: None,
        }
    );
}

#[test]
fn create_intent_checks_nothing() {
    let mut st = StableState::new();
    let i = st.create_intent(0, 0, text(""), None, Provider::Custom(text("")));
    assert_eq!(i.id, "int-0");
    assert_eq!(i.amount_minor, 0);
    assert_eq!(i.currency, "");
    let j = st.create_intent(3, u64::MAX, text("not a currency"), None, Provider::CkBTC);
    assert_eq!(j.amount_minor, u64::MAX);
    assert_eq!(j.currency, "not a currency");
    assert_eq!(st.list_intents().len(), 2);
}

#[test]
fn get_intent_after_create_returns_the_created_intent() {
    let mut st = StableState::new();
    for now in [5u64, 6, 70, 800] {
        let made = st.create_intent(now, now * 3, text("EUR"), None, Provider::PayPal);
        let found = st.get_intent(made.id.clone());
        assert_eq!(found, Some(made));
    }
}

#[test]
fn get_intent_returns_the_first_of_two_with_one_id() {
    let mut st = StableState::new();
    let first = st.create_intent(9, 1, text("USD"), None, Provider::Stripe);
    let second = st.create_intent(9, 2, text("EUR"), None, Provider::PayPal);
    assert_eq!(first.id, second.id);
    assert_eq!(st.get_intent(text("int-9")), Some(first));
    assert_eq!(st.list_intents().len(), 2);
    let paid = st.mark_paid(text("int-9"), None).unwrap();
    assert_eq!(paid.amount_minor, 1);
    let all = st.list_intents();
    assert_eq!(all[0].status, IntentStatus::Succeeded);
    assert_eq!(all[1].status, IntentStatus::Processing);
    assert_eq!(all[1], second);
}

#[test]
fn list_intents_keeps_creation_order() {
    let mut st = StableState::new();
    let mut made = Vec::new();
    for now in 1..=6u64 {
        made.push(st.create_intent(now, 100 + now, text("USD"), None, Provider::Stripe));
    }
    let listed = st.list_intents();
    assert_eq!(listed.len(), 6);
    assert_eq!(listed, made);
    assert_eq!(listed[0].id, "int-1");
    assert_eq!(listed[5].id, "int-6");
    assert!(st.list_invoices().is_empty());
}

#[test]
fn list_invoices_keeps_creation_order() {
    let mut st = StableState::new();
    let mut made = Vec::new();
    for now in 1..=4u64 {
        made.push(st.create_invoice(now, now, text("CHF"), None, None));
    }
    let listed = st.list_invoices();
    assert_eq!(listed.len(), 4);
    assert_eq!(listed, made);
    assert_eq!(listed[0].id, "inv-1");
    assert_eq!(listed[3].id, "inv-4");
    assert!(st.list_intents().is_empty());
}

#[test]
fn create_invoice_fills_every_field() {
    let mut st = StableState::new();
    let inv = st.create_invoice(88, 1250, text("GBP"), Some(text("b64:xyz")), Some(text("rent")));
    assert_eq!(
        inv,
        Invoice {
            id: text("inv-88"),
            amount_minor: 1250,
            currency: text("GBP"),
            issued_at: 88,
            email_enc: Some(text("b64:xyz")),
            description: Some(text("rent")),
            paid: false,
        }
    );
    assert_eq!(st.list_invoices(), vec![inv]);
}

#[test]
fn no_operation_marks_an_invoice_paid() {
    let mut st = StableState::new();
    st.create_invoice(1, 5, text("USD"), None, None);
    st.create_intent(1, 5, text("USD"), None, Provider::Stripe);
    st.mark_paid(text("int-1"), Some(text("r")));
    st.mark_paid(text("inv-1"), Some(text("r")));
    st.refund_intent(text("inv-1"));
    assert!(!st.list_invoices()[0].paid);
}

#[test]
fn mark_paid_sets_status_and_receipt() {
    let mut st = StableState::new();
    let made = st.create_intent(4, 40, text("USD"), Some(text("d")), Provider::CkBTC);
    st.create_intent(5, 50, text("USD"), None, Provider::Stripe);
    let paid = st.mark_paid(made.id.clone(), Some(text("0xfeed"))).unwrap();
    assert_eq!(paid.status, IntentStatus::Succeeded);
    assert_eq!(paid.receipt_hash, Some(text("0xfeed")));
    assert_eq!(paid.id, made.id);
    assert_eq!(paid.amount_minor, 40);
    assert_eq!(paid.currency, "USD");
    assert_eq!(paid.description, Some(text("d")));
    assert_eq!(paid.provider, Provider::CkBTC);
    assert_eq!(paid.created_at, 4);
    assert_eq!(st.get_intent(made.id), Some(paid));
    assert_eq!(st.list_intents()[1].status, IntentStatus::Processing);
}

#[test]
fn mark_paid_on_unknown_id_changes_nothing() {
    let mut st = StableState::new();
    st.create_intent(4, 40, text("USD"), None, Provider::CkBTC);
    let before = st.list_intents();
    assert_eq!(st.mark_paid(text("int-5"), Some(text("r"))), None);
    assert_eq!(st.list_intents(), before);
    assert_eq!(st.list_intents().len(), 1);
    let mut empty = StableState::new();
    assert_eq!(empty.mark_paid(text("int-4"), None), None);
    assert!(empty.list_intents().is_empty());
}

#[test]
fn mark_paid_overwrites_an_earlier_receipt() {
    let mut st = StableState::new();
    st.create_intent(4, 40, text("USD"), None, Provider::Stripe);
    st.mark_paid(text("int-4"), Some(text("one")));
    let again = st.mark_paid(text("int-4"), Some(text("two"))).unwrap();
    assert_eq!(again.receipt_hash, Some(text("two")));
    let cleared = st.mark_paid(text("int-4"), None).unwrap();
    assert_eq!(cleared.receipt_hash, None);
    assert_eq!(cleared.status, IntentStatus::Succeeded);
}

#[test]
fn mark_paid_after_refund_succeeds_again() {
    let mut st = StableState::new();
    st.create_intent(4, 40, text("USD"), None, Provider::Stripe);
    st.refund_intent(text("int-4"));
    let paid = st.mark_paid(text("int-4"), Some(text("r"))).unwrap();
    assert_eq!(paid.status, IntentStatus::Succeeded);
}

#[test]
fn refund_twice_leaves_refunded() {
    let mut st = StableState::new();
    st.create_intent(4, 40, text("USD"), None, Provider::Stripe);
    let once = st.refund_intent(text("int-4")).unwrap();
    assert_eq!(once.status, IntentStatus::Refunded);
    let after_once = st.list_intents();
    let twice = st.refund_intent(text("int-4")).unwrap();
    assert_eq!(twice.status, IntentStatus::Refunded);
    assert_eq!(once, twice);
    assert_eq!(st.list_intents(), after_once);
}

#[test]
fn refund_of_a_processing_intent_keeps_no_receipt() {
    let mut st = StableState::new();
    st.create_intent(4, 40, text("USD"), None, Provider::Stripe);
    let r = st.refund_intent(text("int-4")).unwrap();
    assert_eq!(r.status, IntentStatus::Refunded);
    assert_eq!(r.receipt_hash, None);
}

#[test]
fn refund_on_unknown_id_changes_nothing() {
    let mut st = StableState::new();
    st.create_intent(4, 40, text("USD"), None, Provider::Stripe);
    let before = st.list_intents();
    assert_eq!(st.refund_intent(text("int-44")), None);
    assert_eq!(st.list_intents(), before);
}

#[test]
fn intent_goes_from_processing_to_succeeded_to_refunded() {
    let mut st = StableState::new();
    let made = st.create_intent(1, 500, text("USD"), None, Provider::Stripe);
    assert_eq!(made.amount_minor, 500);
    assert_eq!(made.currency, "USD");
    assert_eq!(made.provider, Provider::Stripe);
    assert_eq!(made.status, IntentStatus::Processing);
    assert_eq!(made.receipt_hash, None);
    let paid = st.mark_paid(made.id.clone(), Some(text("abc"))).unwrap();
    assert_eq!(paid.status, IntentStatus::Succeeded);
    assert_eq!(paid.receipt_hash, Some(text("abc")));
    let refunded = st.refund_intent(made.id.clone()).unwrap();
    assert_eq!(refunded.status, IntentStatus::Refunded);
    assert_eq!(refunded.receipt_hash, Some(text("abc")));
    assert_eq!(st.get_intent(made.id), Some(refunded));
}

#[test]
fn returned_copies_are_detached_from_the_store() {
    let mut st = StableState::new();
    let mut made = st.create_intent(1, 500, text("USD"), None, Provider::Stripe);
    made.status = IntentStatus::Failed;
    made.amount_minor = 1;
    let stored = st.get_intent(text("int-1")).unwrap();
    assert_eq!(stored.status, IntentStatus::Processing);
    assert_eq!(stored.amount_minor, 500);
    let mut listed = st.list_intents();
    listed[0].currency = text("XXX");
    listed.clear();
    assert_eq!(st.list_intents().len(), 1);
    assert_eq!(st.list_intents()[0].currency, "USD");
}

#[test]
fn same_category_twice_keeps_the_latest_config() {
    let mut st = StableState::new();
    st.set_provider_config(ProviderConfig { provider: Provider::Stripe, kv: vec![pair("k", "1")] });
    st.set_provider_config(ProviderConfig {
        provider: Provider::Stripe,
        kv: vec![pair("k", "2"), pair("z", "3")],
    });
    let cfgs = st.get_provider_configs();
    assert_eq!(cfgs.len(), 1);
    assert_eq!(cfgs[0].provider, Provider::Stripe);
    assert_eq!(cfgs[0].kv, vec![pair("k", "2"), pair("z", "3")]);
}

#[test]
fn custom_providers_share_one_slot() {
    let mut st = StableState::new();
    st.set_provider_config(ProviderConfig {
        provider: Provider::Custom(text("x")),
        kv: vec![pair("a", "b")],
    });
    st.set_provider_config(ProviderConfig { provider: Provider::Custom(text("y")), kv: vec![] });
    let cfgs = st.get_provider_configs();
    assert_eq!(cfgs.len(), 1);
    assert_eq!(cfgs[0], ProviderConfig { provider: Provider::Custom(text("y")), kv: vec![] });
}

#[test]
fn configs_keep_their_positions_across_replacement() {
    let mut st = StableState::new();
    st.set_provider_config(ProviderConfig { provider: Provider::PayPal, kv: vec![pair("p", "1")] });
    st.set_provider_config(ProviderConfig { provider: Provider::Stripe, kv: vec![pair("s", "1")] });
    st.set_provider_config(ProviderConfig { provider: Provider::CkBTC, kv: vec![] });
    st.set_provider_config(ProviderConfig { provider: Provider::PayPal, kv: vec![pair("p", "2")] });
    st.set_provider_config(ProviderConfig { provider: Provider::Custom(text("c")), kv: vec![] });
    let cfgs = st.get_provider_configs();
    assert_eq!(cfgs.len(), 4);
    assert_eq!(cfgs[0], ProviderConfig { provider: Provider::PayPal, kv: vec![pair("p", "2")] });
    assert_eq!(cfgs[1], ProviderConfig { provider: Provider::Stripe, kv: vec![pair("s", "1")] });
    assert_eq!(cfgs[2].provider, Provider::CkBTC);
    assert_eq!(cfgs[3].provider, Provider::Custom(text("c")));
    assert!(st.list_intents().is_empty());
    assert!(st.list_invoices().is_empty());
}

#[test]
fn config_keeps_repeated_keys_in_order() {
    let mut st = StableState::new();
    let kv = vec![pair("k", "1"), pair("k", "2"), pair("", ""), pair("k", "1")];
    st.set_provider_config(ProviderConfig { provider: Provider::CkBTC, kv: kv.clone() });
    assert_eq!(st.get_provider_configs()[0].kv, kv);
}

#[test]
fn replacement_takes_the_first_of_a_repeated_category() {
    let st0 = StableState::from_parts(
        vec![],
        vec![],
        vec![
            ProviderConfig { provider: Provider::Stripe, kv: vec![pair("n", "0")] },
            ProviderConfig { provider: Provider::Custom(text("a")), kv: vec![pair("n", "1")] },
            ProviderConfig { provider: Provider::Custom(text("b")), kv: vec![pair("n", "2")] },
        ],
    );
    let mut st = st0;
    st.set_provider_config(ProviderConfig { provider: Provider::Custom(text("c")), kv: vec![] });
    let cfgs = st.get_provider_configs();
    assert_eq!(cfgs.len(), 3);
    assert_eq!(cfgs[1], ProviderConfig { provider: Provider::Custom(text("c")), kv: vec![] });
    assert_eq!(cfgs[2].provider, Provider::Custom(text("b")));
}

#[test]
fn provider_kind_ignores_the_custom_text() {
    assert_eq!(Provider::Stripe.kind(), ProviderKind::Stripe);
    assert_eq!(Provider::PayPal.kind(), ProviderKind::PayPal);
    assert_eq!(Provider::CkBTC.kind(), ProviderKind::CkBTC);
    assert_eq!(Provider::Custom(text("q")).kind(), ProviderKind::Custom);
    assert!(Provider::Custom(text("x")).same_kind(&Provider::Custom(text("y"))));
    assert!(Provider::Stripe.same_kind(&Provider::Stripe));
    assert!(!Provider::Stripe.same_kind(&Provider::PayPal));
    assert!(!Provider::Custom(text("Stripe")).same_kind(&Provider::Stripe));
    assert!(!Provider::CkBTC.same_kind(&Provider::Custom(text(""))));
}

#[test]
fn clones_equal_what_they_copy() {
    let p = Provider::Custom(text("acme"));
    assert_eq!(p.clone(), p);
    assert_eq!(clone_text(&None), None);
    assert_eq!(clone_text(&Some(text("t"))), Some(text("t")));
    let kv = vec![pair("a", "1"), pair("b", "2")];
    assert_eq!(clone_pairs(&kv), kv);
    assert_eq!(clone_pairs(&Vec::new()), Vec::new());
    let cfg = ProviderConfig { provider: Provider::PayPal, kv };
    assert_eq!(cfg.clone(), cfg);
    let inv = Invoice {
        id: text("inv-3"),
        amount_minor: 3,
        currency: text("USD"),
        issued_at: 3,
        email_enc: Some(text("e")),
        description: None,
        paid: true,
    };
    assert_eq!(inv.clone(), inv);
    let int = Intent {
        id: text("int-3"),
        amount_minor: 3,
        currency: text("USD"),
        description: Some(text("d")),
        provider: Provider::Stripe,
        created_at: 3,
        status: IntentStatus::Failed,
        receipt_hash: Some(text("r")),
    };
    assert_eq!(int.clone(), int);
}

#[test]
fn ledger_rebuilt_from_its_lists_is_the_same_ledger() {
    let mut st = StableState::new();
    st.create_intent(1, 10, text("USD"), Some(text("a")), Provider::Stripe);
    st.create_intent(2, 20, text("EUR"), None, Provider::Custom(text("x")));
    st.mark_paid(text("int-2"), Some(text("h")));
    st.create_invoice(3, 30, text("USD"), Some(text("enc")), None);
    st.set_provider_config(ProviderConfig { provider: Provider::PayPal, kv: vec![pair("k", "v")] });
    let rebuilt = StableState::restore(Some(StableState::from_parts(
        st.list_intents(),
        st.list_invoices(),
        st.get_provider_configs(),
    )));
    assert_eq!(rebuilt.list_intents(), st.list_intents());
    assert_eq!(rebuilt.list_invoices(), st.list_invoices());
    assert_eq!(rebuilt.get_provider_configs(), st.get_provider_configs());
    assert_eq!(rebuilt.list_intents().len(), 2);
    assert_eq!(rebuilt.list_invoices().len(), 1);
    assert_eq!(rebuilt.get_provider_configs().len(), 1);
}

#[test]
fn empty_ledger_rebuilt_is_empty() {
    let st = StableState::new();
    let rebuilt =
        StableState::from_parts(st.list_intents(), st.list_invoices(), st.get_provider_configs());
    assert!(rebuilt.list_intents().is_empty());
    assert!(rebuilt.list_invoices().is_empty());
    assert!(rebuilt.get_provider_configs().is_empty());
}

#[test]
fn restore_without_a_snapshot_starts_empty() {
    let st = StableState::restore(None);
    assert!(st.list_intents().is_empty());
    assert!(st.list_invoices().is_empty());
    assert!(st.get_provider_configs().is_empty());
}

#[test]
fn restored_ledger_takes_further_operations() {
    let saved = StableState::from_parts(
        vec![Intent {
            id: text("int-1"),
            amount_minor: 1,
            currency: text("USD"),
            description: None,
            provider: Provider::Stripe,
            created_at: 1,
            status: IntentStatus::Failed,
            receipt_hash: None,
        }],
        vec![],
        vec![],
    );
    let mut st = StableState::restore(Some(saved));
    assert_eq!(st.get_intent(text("int-1")).unwrap().status, IntentStatus::Failed);
    st.create_intent(2, 2, text("USD"), None, Provider::Stripe);
    assert_eq!(st.list_intents().len(), 2);
    assert_eq!(st.refund_intent(text("int-1")).unwrap().status, IntentStatus::Refunded);
}
