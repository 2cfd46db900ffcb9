use electrumx::utxo::{
    find_spendable, normalize, poll_step, select_spendable, sort_by_value, utxos_from_unspents,
    Unspent, Utxo,
};

fn unspent(txid: &str, vout: u32, value: u64, atomicals: &[&str]) -> Unspent {
    Unspent {
        txid: txid.to_string(),
        vout,
        value,
        atomicals: atomicals.iter().map(|s| s.to_string()).collect(),
    }
}

fn utxo(txid: &str, vout: u32, value: u64, atomicals: &[&str]) -> Utxo {
    Utxo {
        txid: txid.to_string(),
        vout,
        value,
        atomicals: atomicals.iter().map(|s| s.to_string()).collect(),
    }
}

#[test]
fn normalize_keeps_fields_and_order() {
    let us = vec![unspent("aa", 1, 2000, &[]), unspent("bb", 0, 500, &["id1"])];
    let v = normalize(us);
    assert_eq!(v, vec![utxo("aa", 1, 2000, &[]), utxo("bb", 0, 500, &["id1"])]);
}

#[test]
fn sort_orders_by_value_ascending() {
    let v = vec![utxo("a", 0, 2000, &[]), utxo("b", 0, 500, &[]), utxo("c", 0, 1500, &[])];
    let sorted = sort_by_value(v);
    let values: Vec<u64> = sorted.iter().map(|u| u.value).collect();
    assert_eq!(values, vec![500, 1500, 2000]);
}

#[test]
fn sort_keeps_upstream_order_among_equal_values() {
    let v = vec![utxo("first", 0, 700, &[]), utxo("second", 1, 700, &[]), utxo("third", 2, 100, &[])];
    let sorted = sort_by_value(v);
    assert_eq!(sorted[0].txid, "third");
    assert_eq!(sorted[1].txid, "first");
    assert_eq!(sorted[2].txid, "second");
}

#[test]
fn sort_of_empty_list_is_empty() {
    let sorted = sort_by_value(Vec::new());
    assert!(sorted.is_empty());
}

#[test]
fn listed_view_is_sorted_and_keeps_outpoints() {
    let us = vec![
        unspent("a", 0, 2000, &[]),
        unspent("b", 1, 500, &[]),
        unspent("c", 2, 1500, &[]),
    ];
    let v = utxos_from_unspents(us);
    let values: Vec<u64> = v.iter().map(|u| u.value).collect();
    assert_eq!(values, vec![500, 1500, 2000]);
    let mut outpoints: Vec<(String, u32)> = v.iter().map(|u| (u.txid.clone(), u.vout)).collect();
    outpoints.sort();
    assert_eq!(
        outpoints,
        vec![("a".to_string(), 0), ("b".to_string(), 1), ("c".to_string(), 2)]
    );
}

#[test]
fn smallest_sufficient_utxo_is_selected() {
    let us = vec![
        unspent("a", 0, 2000, &[]),
        unspent("b", 1, 500, &[]),
        unspent("c", 2, 1500, &[]),
    ];
    let got = poll_step(us, 1000).expect("a spendable UTXO exists");
    assert_eq!(got.value, 1500);
    assert_eq!(got.txid, "c");
}

#[test]
fn atomicals_bearing_outputs_are_skipped() {
    let us = vec![unspent("big", 0, 5000, &["id1"]), unspent("small", 1, 1200, &[])];
    let got = poll_step(us, 1000).expect("the clean output suffices");
    assert_eq!(got.value, 1200);
    assert_eq!(got.txid, "small");
    assert!(got.atomicals.is_empty());
}

#[test]
fn no_sufficient_clean_output_yields_none() {
    let us = vec![unspent("a", 0, 900, &[]), unspent("b", 1, 5000, &["id1"])];
    assert!(poll_step(us, 1000).is_none());
}

#[test]
fn find_spendable_returns_first_match_position() {
    let v = vec![utxo("a", 0, 100, &[]), utxo("b", 1, 1500, &["id"]), utxo("c", 2, 1500, &[])];
    assert_eq!(find_spendable(&v, 1000), Some(2));
    assert_eq!(find_spendable(&v, 2000), None);
}

#[test]
fn select_spendable_hands_out_the_match() {
    let v = vec![utxo("a", 0, 100, &[]), utxo("b", 1, 1500, &[])];
    let got = select_spendable(v, 1000).expect("second output matches");
    assert_eq!(got.txid, "b");
    assert_eq!(got.value, 1500);
}

#[test]
fn utxo_from_unspent_carries_every_field() {
    let u = unspent("dd", 7, 42, &["x", "y"]);
    let v = Utxo::from(u);
    assert_eq!(v, utxo("dd", 7, 42, &["x", "y"]));
}

#[test]
fn equal_value_ties_go_to_the_upstream_first_clean_output() {
    let us = vec![unspent("a", 0, 1500, &[]), unspent("b", 1, 1500, &[])];
    let got = poll_step(us, 1000).expect("both suffice");
    assert_eq!(got.txid, "a");

    let us = vec![unspent("a", 0, 1500, &["id"]), unspent("b", 1, 1500, &[])];
    let got = poll_step(us, 1000).expect("the clean one suffices");
    assert_eq!(got.txid, "b");
}
