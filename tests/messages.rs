use std::any::TypeId;
use std::collections::BTreeMap;

use udp_netmsg::{MsgStorage, PeerAddr, ReadError};

struct UpdatePos;
struct RenameObj;

fn local(port: u16) -> PeerAddr {
    PeerAddr::V4 { octets: [127, 0, 0, 1], port }
}

fn pos_json() -> Vec<u8> {
    let mut m = BTreeMap::new();
    m.insert("x".to_string(), 15f32);
    m.insert("y".to_string(), 15f32);
    m.insert("z".to_string(), 15f32);
    serde_json::to_vec(&m).unwrap()
}

fn name_json() -> Vec<u8> {
    let mut m = BTreeMap::new();
    m.insert("name".to_string(), "Billy".to_string());
    serde_json::to_vec(&m).unwrap()
}

fn as_pos(b: &Vec<u8>) -> Option<BTreeMap<String, f32>> {
    serde_json::from_slice(b).ok()
}

fn as_name(b: &Vec<u8>) -> Option<BTreeMap<String, String>> {
    serde_json::from_slice(b).ok()
}

/// Frames `payload` for `key` and files the datagram as the receiver would.
fn deliver(store: &mut MsgStorage, key: TypeId, use_ids: bool, from: PeerAddr, payload: Vec<u8>) {
    let datagram = store.frame_message(key, use_ids, payload);
    let n = datagram.len();
    let mut buffer = datagram;
    buffer.resize(n + 100, 0);
    store.file_datagram(use_ids, from, buffer, n);
}

fn is_pos(v: &BTreeMap<String, f32>) -> bool {
    v.len() == 3 && v["x"] == 15.0 && v["y"] == 15.0 && v["z"] == 15.0
}

#[test]
fn test_manual() {
    let mut store = MsgStorage::new();
    store.set_id(TypeId::of::<UpdatePos>(), 505550550);
    deliver(&mut store, TypeId::of::<RenameObj>(), true, local(39507), name_json());
    deliver(&mut store, TypeId::of::<UpdatePos>(), true, local(39507), pos_json());
    assert_eq!(store.get_id(TypeId::of::<UpdatePos>()), 505550550);
    let (addr, v) = store.get_obj(TypeId::of::<UpdatePos>(), true, as_pos).unwrap();
    assert_eq!(addr, local(39507));
    assert!(is_pos(&v));
}

#[test]
fn automatic() {
    let mut store = MsgStorage::new();
    deliver(&mut store, TypeId::of::<RenameObj>(), true, local(50000), name_json());
    deliver(&mut store, TypeId::of::<UpdatePos>(), true, local(50000), pos_json());
    let (_, v) = store.get_obj(TypeId::of::<UpdatePos>(), true, as_pos).unwrap();
    assert!(is_pos(&v));
}

#[test]
fn bincode_serdes() {
    let mut store = MsgStorage::new();
    let name = bincode::serialize(&("Billy".to_string(),)).unwrap();
    let pos = bincode::serialize(&(15f32, 15f32, 15f32)).unwrap();
    deliver(&mut store, TypeId::of::<RenameObj>(), true, local(50001), name);
    deliver(&mut store, TypeId::of::<UpdatePos>(), true, local(50001), pos);
    let (_, v) = store
        .get_obj(TypeId::of::<UpdatePos>(), true, |b: &Vec<u8>| {
            bincode::deserialize::<(f32, f32, f32)>(b).ok()
        })
        .unwrap();
    assert_eq!(v, (15.0, 15.0, 15.0));
}

#[test]
fn yaml_serdes() {
    let mut store = MsgStorage::new();
    let mut name = BTreeMap::new();
    name.insert("name".to_string(), "Billy".to_string());
    let mut pos = BTreeMap::new();
    pos.insert("x".to_string(), 15f32);
    pos.insert("y".to_string(), 15f32);
    pos.insert("z".to_string(), 15f32);
    deliver(&mut store, TypeId::of::<RenameObj>(), true, local(50002), serde_yaml::to_vec(&name).unwrap());
    deliver(&mut store, TypeId::of::<UpdatePos>(), true, local(50002), serde_yaml::to_vec(&pos).unwrap());
    let (_, v) = store
        .get_obj(TypeId::of::<UpdatePos>(), true, |b: &Vec<u8>| {
            serde_yaml::from_slice::<BTreeMap<String, f32>>(b).ok()
        })
        .unwrap();
    assert!(is_pos(&v));
}

#[test]
fn get_multiple_at_once() {
    let mut store = MsgStorage::new();
    deliver(&mut store, TypeId::of::<RenameObj>(), true, local(50003), name_json());
    for _ in 0..3 {
        deliver(&mut store, TypeId::of::<UpdatePos>(), true, local(50003), pos_json());
    }
    assert_eq!(store.get_obj_all(TypeId::of::<UpdatePos>(), true, as_pos).unwrap().len(), 3);
}

#[test]
fn peek() {
    let mut store = MsgStorage::new();
    deliver(&mut store, TypeId::of::<RenameObj>(), true, local(50004), name_json());
    for _ in 0..3 {
        deliver(&mut store, TypeId::of::<UpdatePos>(), true, local(50004), pos_json());
    }
    store.peek(TypeId::of::<UpdatePos>(), true, as_pos).unwrap();
    assert_eq!(store.get_obj_all(TypeId::of::<UpdatePos>(), true, as_pos).unwrap().len(), 3);
}

#[test]
fn no_ids_succeed() {
    let mut store = MsgStorage::new();
    deliver(&mut store, TypeId::of::<RenameObj>(), false, local(50005), name_json());
    let (_, v) = store.get_obj(TypeId::of::<RenameObj>(), false, as_name).unwrap();
    assert_eq!(v["name"], "Billy");
}

#[test]
#[should_panic]
fn no_ids_panic() {
    let mut store = MsgStorage::new();
    deliver(&mut store, TypeId::of::<UpdatePos>(), false, local(50006), pos_json());
    deliver(&mut store, TypeId::of::<RenameObj>(), false, local(50006), name_json());
    store.get_obj(TypeId::of::<RenameObj>(), false, as_name).unwrap();
}

#[test]
fn fail_des_keep_item() {
    let mut store = MsgStorage::new();
    deliver(&mut store, TypeId::of::<UpdatePos>(), false, local(50007), pos_json());
    match store.peek(TypeId::of::<RenameObj>(), false, as_name) {
        Ok(_) => panic!("Should not have serialized correctly"),
        Err(_) => {}
    }
    store.peek(TypeId::of::<UpdatePos>(), false, as_pos).unwrap();
}

#[test]
fn remove_front() {
    let mut store = MsgStorage::new();
    deliver(&mut store, TypeId::of::<UpdatePos>(), false, local(50008), pos_json());
    deliver(&mut store, TypeId::of::<RenameObj>(), false, local(50008), name_json());
    match store.peek(TypeId::of::<RenameObj>(), false, as_name) {
        Ok(_) => panic!("Should not have serialized correctly"),
        Err(_) => {}
    }
    store.remove_front(TypeId::of::<RenameObj>(), false).unwrap();
    store.peek(TypeId::of::<RenameObj>(), false, as_name).unwrap();
}

#[test]
fn remove_all() {
    let mut store = MsgStorage::new();
    for _ in 0..3 {
        deliver(&mut store, TypeId::of::<UpdatePos>(), true, local(50009), pos_json());
    }
    store.remove_all(TypeId::of::<UpdatePos>(), true).unwrap();
    assert_eq!(store.get_obj_all(TypeId::of::<UpdatePos>(), true, as_pos).unwrap().len(), 0);
}

#[test]
fn pos_scenario_get_returns_sender_and_value() {
    let mut store = MsgStorage::new();
    let sender = local(50010);
    deliver(&mut store, TypeId::of::<UpdatePos>(), true, sender, pos_json());
    let (addr, v) = store.get_obj(TypeId::of::<UpdatePos>(), true, as_pos).unwrap();
    assert_eq!(addr, sender);
    assert!(is_pos(&v));
}

#[test]
fn pos_scenario_get_all_then_empty() {
    let mut store = MsgStorage::new();
    for _ in 0..3 {
        deliver(&mut store, TypeId::of::<UpdatePos>(), true, local(50011), pos_json());
    }
    let all = store.get_obj_all(TypeId::of::<UpdatePos>(), true, as_pos).unwrap();
    assert_eq!(all.len(), 3);
    assert!(all.iter().all(|(a, v)| *a == local(50011) && is_pos(v)));
    assert_eq!(store.get_obj_all(TypeId::of::<UpdatePos>(), true, as_pos).unwrap().len(), 0);
}

#[test]
fn get_returns_in_send_order() {
    let mut store = MsgStorage::new();
    let key = TypeId::of::<RenameObj>();
    for (i, name) in ["a", "b", "c", "d"].iter().enumerate() {
        let mut m = BTreeMap::new();
        m.insert("name".to_string(), name.to_string());
        deliver(&mut store, key, true, local(6000 + i as u16), serde_json::to_vec(&m).unwrap());
    }
    for (i, name) in ["a", "b", "c", "d"].iter().enumerate() {
        let (addr, v) = store.get_obj(key, true, as_name).unwrap();
        assert_eq!(addr, local(6000 + i as u16));
        assert_eq!(v["name"], *name);
    }
    assert_eq!(store.get_obj(key, true, as_name).unwrap_err(), ReadError::NotFound);
}

#[test]
fn peek_is_repeatable() {
    let mut store = MsgStorage::new();
    let key = TypeId::of::<UpdatePos>();
    deliver(&mut store, key, true, local(1), pos_json());
    deliver(&mut store, key, true, local(2), pos_json());
    for _ in 0..5 {
        let (addr, v) = store.peek(key, true, as_pos).unwrap();
        assert_eq!(addr, local(1));
        assert!(is_pos(&v));
    }
    assert_eq!(store.get_obj_all(key, true, as_pos).unwrap().len(), 2);
}

#[test]
fn get_after_get_all_is_not_found() {
    let mut store = MsgStorage::new();
    let key = TypeId::of::<UpdatePos>();
    deliver(&mut store, key, true, local(1), pos_json());
    deliver(&mut store, key, true, local(1), name_json());
    let all = store.get_obj_all(key, true, as_pos).unwrap();
    assert_eq!(all.len(), 1);
    assert_eq!(store.get_obj(key, true, as_pos).unwrap_err(), ReadError::NotFound);
}

#[test]
fn set_id_changes_wire_id() {
    let mut store = MsgStorage::new();
    let key = TypeId::of::<UpdatePos>();
    store.set_id(key, 0x0102030405060708);
    let frame = store.frame_message(key, true, vec![9, 9]);
    assert_eq!(frame, vec![1, 2, 3, 4, 5, 6, 7, 8, 9, 9]);
}

#[test]
fn destructive_get_of_wrong_type_consumes_head() {
    let mut store = MsgStorage::new();
    deliver(&mut store, TypeId::of::<UpdatePos>(), false, local(1), pos_json());
    deliver(&mut store, TypeId::of::<RenameObj>(), false, local(2), name_json());
    assert_eq!(
        store.get_obj(TypeId::of::<RenameObj>(), false, as_name).unwrap_err(),
        ReadError::DeserializeFailure
    );
    let (addr, v) = store.get_obj(TypeId::of::<RenameObj>(), false, as_name).unwrap();
    assert_eq!(addr, local(2));
    assert_eq!(v["name"], "Billy");
}

#[test]
fn reads_of_absent_queue_are_not_found() {
    let mut store = MsgStorage::new();
    let key = TypeId::of::<UpdatePos>();
    assert_eq!(store.get_obj(key, true, as_pos).unwrap_err(), ReadError::NotFound);
    assert_eq!(store.peek(key, true, as_pos).unwrap_err(), ReadError::NotFound);
    assert_eq!(store.remove_front(key, true), Err(ReadError::NotFound));
    assert_eq!(store.remove_all(key, true), Err(ReadError::NotFound));
    assert_eq!(store.get_obj_all(key, true, as_pos).unwrap_err(), ReadError::NotFound);
}

#[test]
fn emptied_queue_stays_present() {
    let mut store = MsgStorage::new();
    let key = TypeId::of::<UpdatePos>();
    deliver(&mut store, key, true, local(1), pos_json());
    store.remove_front(key, true).unwrap();
    assert_eq!(store.remove_front(key, true), Err(ReadError::NotFound));
    assert_eq!(store.remove_all(key, true), Ok(()));
    assert_eq!(store.get_obj_all(key, true, as_pos).unwrap().len(), 0);
}

#[test]
fn short_datagram_with_ids_is_dropped() {
    let mut store = MsgStorage::new();
    store.set_id(TypeId::of::<UpdatePos>(), 7);
    store.file_datagram(true, local(1), vec![0, 0, 0, 0, 0, 0, 7], 7);
    assert_eq!(store.get_obj(TypeId::of::<UpdatePos>(), true, as_pos).unwrap_err(), ReadError::NotFound);
}

#[test]
fn truncated_receive_keeps_only_received_bytes() {
    let mut store = MsgStorage::new();
    let key = TypeId::of::<UpdatePos>();
    store.set_id(key, 7);
    store.file_datagram(true, local(1), vec![0, 0, 0, 0, 0, 0, 0, 7, 1, 2, 3, 4], 10);
    let (_, v) = store.get_obj(key, true, |b: &Vec<u8>| Some(b.clone())).unwrap();
    assert_eq!(v, vec![1, 2]);
}
