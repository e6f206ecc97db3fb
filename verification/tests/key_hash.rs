use transact::contract::address::hash;
use transact::contract::address::key_hash::KeyHashAddresser;
use transact::contract::address::Addresser;

#[test]
// check that the KeyHashAddresser creates a valid radix address with the correct prefix
// and valid length
fn test_key_hash_addresser() {
    let addresser = KeyHashAddresser::new("prefix".to_string());
    let addr = addresser.compute(&"a".to_string()).unwrap();
    assert_eq!(addr[..6], "prefix".to_string());
    assert_eq!(addr.len(), 70);

    let key_hash = hash(64, "a");
    assert_eq!(addr[6..70], key_hash[..64]);

    let normalized = addresser.normalize(&"b".to_string());
    assert_eq!(normalized, "b".to_string());
}
