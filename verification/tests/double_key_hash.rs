use transact::contract::address::double_key_hash::DoubleKeyHashAddresser;
use transact::contract::address::hash;
use transact::contract::address::Addresser;

#[test]
// check that the DoubleKeyHashAddresser creates a valid radix address with the correct prefix
// and valid default length, with a key represented as a tuple with two natural keys
fn test_double_key_default_length() {
    let addresser = DoubleKeyHashAddresser::new("prefix".to_string(), None);
    let key1 = "a";
    let key1_hash = hash(32, key1);
    let key2 = "b";
    let key2_hash = hash(32, key2);

    let addr = addresser
        .compute(&(key1.to_string(), key2.to_string()))
        .unwrap();
    assert_eq!(addr[..6], "prefix".to_string());
    assert_eq!(addr.len(), 70);

    assert_eq!(addr[6..38], key1_hash[..32]);
    assert_eq!(addr[38..], key2_hash[..32]);

    let normalized = addresser.normalize(&(key1.to_string(), key2.to_string()));
    assert_eq!(normalized, "a_b".to_string());
}

#[test]
// check that the DoubleKeyHashAddresser creates a valid radix address with the correct prefix
// and valid first hash length of 16, with a key represented as a tuple with two natural keys
fn test_double_key_custom_length() {
    let addresser = DoubleKeyHashAddresser::new("prefix".to_string(), Some(16));
    let key1 = "a";
    let key1_hash = hash(16, key1);
    let key2 = "b";
    let key2_hash = hash(48, key2);

    let addr = addresser
        .compute(&(key1.to_string(), key2.to_string()))
        .unwrap();
    assert_eq!(addr[..6], "prefix".to_string());
    assert_eq!(addr.len(), 70);

    assert_eq!(addr[6..22], key1_hash[..16]);
    assert_eq!(addr[22..], key2_hash[..48]);

    let normalized = addresser.normalize(&(key1.to_string(), key2.to_string()));
    assert_eq!(normalized, "a_b".to_string());
}
