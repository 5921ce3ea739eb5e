use chain_fusion::eth_call::{build_eth_call_payload, decode_uint_output, from_hex};
use chain_fusion::nft::Attributes;
use chain_fusion::storage::{get_asset, store_asset, Asset, AssetStore};

#[test]
fn storing_and_reading_assets() {
    let mut store = AssetStore::new();
    assert!(get_asset(&store, &"/1.svg".to_string()).is_none());

    store_asset(
        &mut store,
        "/1.svg".to_string(),
        Asset {
            headers: vec![("Content-Type".to_string(), "image/svg+xml".to_string())],
            body: vec![1, 2, 3],
        },
    );
    let a = get_asset(&store, &"/1.svg".to_string()).unwrap();
    assert_eq!(a.body, vec![1, 2, 3]);
    assert_eq!(a.headers.len(), 1);
    assert_eq!(a.headers[0].0, "Content-Type");

    // storing under the same path replaces the asset
    store_asset(
        &mut store,
        "/1.svg".to_string(),
        Asset { headers: vec![], body: vec![9] },
    );
    let a = get_asset(&store, &"/1.svg".to_string()).unwrap();
    assert_eq!(a.body, vec![9]);

    // other paths are untouched
    store_asset(
        &mut store,
        "/2".to_string(),
        Asset { headers: vec![], body: vec![7] },
    );
    assert_eq!(get_asset(&store, &"/1.svg".to_string()).unwrap().body, vec![9]);
    assert_eq!(get_asset(&store, &"/2".to_string()).unwrap().body, vec![7]);
    assert!(get_asset(&store, &"/3".to_string()).is_none());
}

#[test]
fn call_payload_frame() {
    let payload = build_eth_call_payload(
        "0x5fbdb2315678afecb367f032d93f642f64180aa3",
        "0xdeadbeef",
        "latest",
    );
    assert_eq!(
        payload,
        "{\"id\":1,\"jsonrpc\":\"2.0\",\"method\":\"eth_call\",\"params\":[{\"to\":\"0x5fbdb2315678afecb367f032d93f642f64180aa3\",\"data\":\"0xdeadbeef\"},\"latest\"]}"
    );
}

#[test]
fn call_payload_parses_as_json() {
    let payload = build_eth_call_payload("0xabc0", "0x00", "latest");
    let v: serde_json::Value = serde_json::from_str(&payload).unwrap();
    assert_eq!(v["id"], serde_json::Value::from(1));
    assert_eq!(v["method"], serde_json::Value::from("eth_call"));
    assert_eq!(v["params"][0]["to"], serde_json::Value::from("0xabc0"));
    assert_eq!(v["params"][1], serde_json::Value::from("latest"));
}

#[test]
fn result_hex_decoding() {
    assert_eq!(from_hex("0x0102ff"), Some(vec![1, 2, 0xff]));
    assert_eq!(from_hex("0x"), Some(vec![]));
    assert_eq!(from_hex("0"), None);
    assert_eq!(from_hex("0x123"), None);
    assert_eq!(from_hex("0xzz"), None);
}

#[test]
fn uint_output_must_be_one_word() {
    let word = vec![0_u8; 32];
    assert_eq!(decode_uint_output(&word), Some(word.clone()));
    assert_eq!(decode_uint_output(&[0_u8; 31]), None);
    assert_eq!(decode_uint_output(&[0_u8; 33]), None);
}

#[test]
fn trait_list_of_attributes() {
    let a = Attributes {
        bg_color: "blue".to_string(),
        frame_color: "red".to_string(),
        circle_color: "green".to_string(),
    };
    let traits = a.to_trait_list();
    assert_eq!(traits.len(), 3);
    assert_eq!(traits[0].trait_type, "bg_color");
    assert_eq!(traits[0].value, "blue");
    assert_eq!(traits[1].trait_type, "circle_color");
    assert_eq!(traits[1].value, "green");
    assert_eq!(traits[2].trait_type, "frame_color");
    assert_eq!(traits[2].value, "red");
}
