use scalar::base_types::{
    address_from_single_byte, deepbook_addr, is_system_package, resolve_address,
    sui_framework_address_concat_string, AccountAddress, ObjectDigest, ObjectID, SEQUENCE_NUMBER_MAX,
};
use scalar::move_types::{CachedStructIndex, Type};
use scalar::storage::{
    collect_package_fetches, get_module, get_package_objects, transaction_input_object_keys,
    transaction_receiving_object_keys, BackingPackageStore, Data, DeleteKind, DeleteKindWithOldVersion,
    InputObjectKind, ModuleId, MoveObject, MovePackage, Object, ObjectKey, SuiError, TransactionDigest,
};

fn id(b: u8) -> ObjectID {
    ObjectID(address_from_single_byte(b))
}

fn package(b: u8, modules: Vec<(&str, Vec<u8>)>) -> Object {
    Object {
        data: Data::Package(MovePackage {
            id: id(b),
            version: 1,
            module_map: modules.into_iter().map(|(n, m)| (n.to_owned(), m)).collect(),
        }),
        previous_transaction: TransactionDigest([0; 32]),
    }
}

fn move_object() -> Object {
    Object {
        data: Data::Move(MoveObject { type_tag: "0x2::coin::Coin".to_owned(), version: 3, contents: vec![1] }),
        previous_transaction: TransactionDigest([0; 32]),
    }
}

struct Store {
    failing: Option<u8>,
}

impl BackingPackageStore for Store {
    fn get_package_object(&self, package_id: &ObjectID) -> Result<Option<Object>, SuiError> {
        let b = package_id.0 .0[31];
        if Some(b) == self.failing {
            return Err(SuiError { message: "storage error".to_owned() });
        }
        match b {
            1 => Ok(Some(package(1, vec![("vector", vec![7, 7])]))),
            2 => Ok(Some(package(2, vec![("coin", vec![1, 2, 3]), ("object", vec![4])]))),
            5 => Ok(Some(move_object())),
            _ => Ok(None),
        }
    }
}

#[test]
fn system_packages() {
    assert!(is_system_package(&address_from_single_byte(1)));
    assert!(is_system_package(&address_from_single_byte(2)));
    assert!(is_system_package(&address_from_single_byte(3)));
    assert!(is_system_package(&deepbook_addr()));
    assert!(!is_system_package(&address_from_single_byte(5)));
    assert!(!is_system_package(&AccountAddress([0; 32])));
}

#[test]
fn deepbook_address_bytes() {
    let a = deepbook_addr();
    assert_eq!(a.0[30], 0xde);
    assert_eq!(a.0[31], 0xe9);
    assert!(a.0[..30].iter().all(|b| *b == 0));
}

#[test]
fn hex_literals() {
    assert_eq!(address_from_single_byte(2).to_hex_literal(), "0x2");
    assert_eq!(deepbook_addr().to_hex_literal(), "0xdee9");
    assert_eq!(AccountAddress([0; 32]).to_hex_literal(), "0x0");
    assert_eq!(AccountAddress([0xab; 32]).short_str_lossless(), "ab".repeat(32));
    assert_eq!(sui_framework_address_concat_string("::coin::Coin"), "0x2::coin::Coin");
}

#[test]
fn resolve_well_known_names() {
    assert_eq!(resolve_address("std").unwrap().0, address_from_single_byte(1).0);
    assert_eq!(resolve_address("sui").unwrap().0, address_from_single_byte(2).0);
    assert_eq!(resolve_address("sui_system").unwrap().0, address_from_single_byte(3).0);
    assert_eq!(resolve_address("deepbook").unwrap().0, deepbook_addr().0);
    assert!(resolve_address("suix").is_none());
    assert!(resolve_address("").is_none());
}

#[test]
fn delete_kinds() {
    assert_eq!(DeleteKindWithOldVersion::Normal(4).old_version(), Some(4));
    assert_eq!(DeleteKindWithOldVersion::UnwrapThenDeleteDEPRECATED(5).old_version(), Some(5));
    assert_eq!(DeleteKindWithOldVersion::Wrap(6).old_version(), Some(6));
    assert_eq!(DeleteKindWithOldVersion::UnwrapThenDelete.old_version(), None);
    assert_eq!(DeleteKindWithOldVersion::Normal(4).to_delete_kind(), DeleteKind::Normal);
    assert_eq!(DeleteKindWithOldVersion::UnwrapThenDeleteDEPRECATED(5).to_delete_kind(), DeleteKind::UnwrapThenDelete);
    assert_eq!(DeleteKindWithOldVersion::UnwrapThenDelete.to_delete_kind(), DeleteKind::UnwrapThenDelete);
    assert_eq!(DeleteKindWithOldVersion::Wrap(6).to_delete_kind(), DeleteKind::Wrap);
    assert_eq!(DeleteKind::Wrap.name(), "Wrap");
    assert_eq!(DeleteKind::Normal.name(), "Normal");
    assert_eq!(DeleteKind::UnwrapThenDelete.name(), "UnwrapThenDelete");
}

#[test]
fn object_keys() {
    let k = ObjectKey::max_for_id(&id(9));
    assert_eq!(k.1, SEQUENCE_NUMBER_MAX);
    assert_eq!(k.1, 0x7fff_ffff_ffff_ffff);
    assert_eq!(k.0 .0 .0[31], 9);
    assert_eq!(ObjectKey::min_for_id(&id(9)).1, 0);
    assert_eq!(ObjectKey::zero().1, 0);
    let keys = transaction_input_object_keys(Ok(vec![
        InputObjectKind::MovePackage(id(1)),
        InputObjectKind::ImmOrOwnedMoveObject((id(7), 3, ObjectDigest([0; 32]))),
        InputObjectKind::SharedMoveObject { id: id(8), initial_shared_version: 1, mutable: true },
        InputObjectKind::ImmOrOwnedMoveObject((id(9), 4, ObjectDigest([1; 32]))),
    ]))
    .ok()
    .unwrap();
    let got: Vec<(u8, u64)> = keys.iter().map(|k| (k.0 .0 .0[31], k.1)).collect();
    assert_eq!(got, vec![(7, 3), (9, 4)]);
    assert!(transaction_input_object_keys(Err(SuiError { message: "bad".to_owned() })).is_err());
    let keys = transaction_receiving_object_keys(&vec![(id(4), 10, ObjectDigest([0; 32]))]);
    assert_eq!(keys.len(), 1);
    assert_eq!(keys[0].1, 10);
}

#[test]
fn fetching_packages() {
    let store = Store { failing: None };
    let fetched = get_package_objects(&store, &vec![id(1), id(2)]).ok().unwrap();
    assert_eq!(fetched.ok().unwrap().len(), 2);
    let missing = get_package_objects(&store, &vec![id(1), id(3), id(4)]).ok().unwrap();
    let missing: Vec<u8> = missing.err().unwrap().iter().map(|i| i.0 .0[31]).collect();
    assert_eq!(missing, vec![3, 4]);
    let failing = Store { failing: Some(2) };
    let r = get_package_objects(&failing, &vec![id(1), id(2), id(3)]);
    assert_eq!(r.err().unwrap().message, "storage error");
}

#[test]
fn collecting_fetches_passes_on_the_first_error() {
    let r = collect_package_fetches(
        &vec![id(1), id(2), id(3)],
        vec![Ok(None), Err(SuiError { message: "first".to_owned() })],
    );
    assert_eq!(r.err().unwrap().message, "first");
}

#[test]
fn fetching_modules() {
    let store = Store { failing: None };
    let m = ModuleId { address: address_from_single_byte(2), name: "coin".to_owned() };
    assert_eq!(get_module(Store { failing: None }, &m).ok().unwrap(), Some(vec![1, 2, 3]));
    let m = ModuleId { address: address_from_single_byte(2), name: "clock".to_owned() };
    assert_eq!(get_module(Store { failing: None }, &m).ok().unwrap(), None);
    // A Move object is no package.
    let m = ModuleId { address: address_from_single_byte(5), name: "coin".to_owned() };
    assert_eq!(get_module(Store { failing: None }, &m).ok().unwrap(), None);
    assert!(store.get_package(&id(3)).ok().unwrap().is_none());
    let m = ModuleId { address: address_from_single_byte(1), name: "vector".to_owned() };
    assert!(get_module(Store { failing: Some(1) }, &m).is_err());
}

#[test]
fn stores_behind_references_and_arcs() {
    let shared = std::sync::Arc::new(Store { failing: None });
    let fetched = get_package_objects(&shared, &vec![id(1)]).ok().unwrap();
    assert_eq!(fetched.ok().unwrap().len(), 1);
    let by_ref: &Store = &Store { failing: Some(1) };
    assert!(get_package_objects(&by_ref, &vec![id(1)]).is_err());
    let m = ModuleId { address: address_from_single_byte(2), name: "object".to_owned() };
    assert_eq!(get_module(shared, &m).ok().unwrap(), Some(vec![4]));
}

#[test]
fn object_key_from_reference() {
    let k: ObjectKey = ObjectKey::from((id(6), 11, ObjectDigest([2; 32])));
    assert_eq!(k.0 .0 .0[31], 6);
    assert_eq!(k.1, 11);
}

#[test]
fn run_time_types_clone() {
    let t = Type::StructInstantiation(
        CachedStructIndex(3),
        vec![Type::Vector(Box::new(Type::U8)), Type::Reference(Box::new(Type::TyParam(1)))],
    );
    assert_eq!(t.clone(), t);
    assert_ne!(Type::U16, Type::U32);
    assert!(Type::Bool < Type::U8);
}

#[test]
fn object_keys_order_by_identifier_then_version() {
    let low = ObjectKey::min_for_id(&id(4));
    let mid = ObjectKey(id(4), 17);
    let high = ObjectKey::max_for_id(&id(4));
    let next = ObjectKey::min_for_id(&id(5));
    assert!(low < mid && mid < high && high < next);
    assert_eq!(ObjectKey(id(4), 17), mid);
}
