use soroban_env_host::{
    Budget, BudgetDimension, ContractCostType, CostModel, Error, Frame, Host, HostError, I256Val, MapObject, Object,
    ObjectTag, ScErrorCode, ScErrorType, ScMapEntry, ScVal, Storage, Symbol, U256Val, U64Val, Val, VecObject, I256, U256,
};

fn dimension(limit: u64) -> BudgetDimension {
    BudgetDimension { models: [CostModel { const_term: 0, lin_term: 0 }; 29], limit, total_count: 0 }
}

fn new_host() -> Host {
    Host::with_storage_and_budget(
        Storage::new(),
        Budget { cpu_insns: dimension(u64::MAX), mem_bytes: dimension(u64::MAX) },
    )
}

fn err(t: ScErrorType, c: ScErrorCode) -> HostError {
    HostError { error: Error::from_type_and_code(t, c), info: None }
}

fn failed<T>(r: Result<T, HostError>, t: ScErrorType, c: ScErrorCode) -> bool {
    match r {
        Ok(_) => false,
        Err(e) => e == err(t, c),
    }
}

fn vec_of(h: &mut Host, v: &[Val]) -> VecObject {
    h.vec_new_from_slice(v).unwrap()
}

fn elements(h: &mut Host, v: VecObject) -> Vec<Val> {
    let n = h.vec_len(v).unwrap();
    (0..n).map(|i| h.vec_get(v, i).unwrap()).collect()
}

fn bytes_of(h: &mut Host, b: soroban_env_host::BytesObject) -> Vec<u8> {
    let n = h.bytes_len(b).unwrap() as usize;
    let mut out = vec![0u8; n];
    h.bytes_copy_to_slice(b, 0, &mut out).unwrap();
    out
}

#[test]
fn first_handle_is_absolute_one() {
    let mut h = new_host();
    let v = h.vec_new().unwrap();
    assert_eq!(v.handle, 1);
    let m = h.map_new().unwrap();
    assert_eq!(m.handle, 3);
    assert_eq!(h.vec_len(v).unwrap(), 0);
    assert_eq!(h.map_len(m).unwrap(), 0);
}

#[test]
fn forged_handles_are_refused() {
    let mut h = new_host();
    let v = h.vec_new().unwrap();
    assert!(failed(h.vec_len(VecObject { handle: 99 }), ScErrorType::Object, ScErrorCode::MissingValue));
    assert!(failed(h.vec_len(VecObject { handle: 2 }), ScErrorType::Context, ScErrorCode::InternalError));
    assert!(failed(h.map_len(MapObject { handle: v.handle }), ScErrorType::Object, ScErrorCode::UnexpectedType));
    let forged = Val::Object(Object { tag: ObjectTag::MapObject, handle: v.handle });
    assert!(failed(h.check_val_integrity(forged), ScErrorType::Value, ScErrorCode::InvalidInput));
    let unknown = Val::Object(Object { tag: ObjectTag::VecObject, handle: 77 });
    assert!(failed(h.check_val_integrity(unknown), ScErrorType::Object, ScErrorCode::MissingValue));
    assert!(failed(h.check_val_integrity(Val::U64Small(1 << 56)), ScErrorType::Value, ScErrorCode::InvalidInput));
    assert!(h.check_val_integrity(v.to_val()).is_ok());
}

#[test]
fn obj_cmp_orders_objects_and_small_values() {
    let mut h = new_host();
    let a = vec_of(&mut h, &[Val::U32(1), Val::U32(2)]).to_val();
    let b = vec_of(&mut h, &[Val::U32(1), Val::U32(3)]).to_val();
    let c = vec_of(&mut h, &[Val::U32(1)]).to_val();
    assert_eq!(h.obj_cmp(a, b).unwrap(), -1);
    assert_eq!(h.obj_cmp(b, a).unwrap(), 1);
    assert_eq!(h.obj_cmp(a, a).unwrap(), 0);
    assert_eq!(h.obj_cmp(a, c).unwrap(), 1);
    let big = h.obj_from_u64(5).unwrap().to_val();
    assert_eq!(h.obj_cmp(big, Val::U64Small(5)).unwrap(), 0);
    assert_eq!(h.obj_cmp(big, Val::U64Small(6)).unwrap(), -1);
    assert_eq!(h.obj_cmp(Val::U64Small(6), big).unwrap(), 1);
    let neg = h.obj_from_i64(-7).unwrap().to_val();
    assert_eq!(h.obj_cmp(neg, Val::I64Small(-6)).unwrap(), -1);
    // Values of different types go by their types.
    assert_eq!(h.obj_cmp(big, Val::Bool(true)).unwrap(), 1);
    assert_eq!(h.obj_cmp(Val::U32(9), a).unwrap(), -1);
    assert!(failed(h.obj_cmp(Val::U32(1), Val::U32(2)), ScErrorType::Value, ScErrorCode::UnexpectedType));
    let unknown = Val::Object(Object { tag: ObjectTag::VecObject, handle: 77 });
    assert!(failed(h.obj_cmp(unknown, a), ScErrorType::Object, ScErrorCode::MissingValue));
}

#[test]
fn obj_cmp_orders_symbols_bytes_maps_and_addresses() {
    let mut h = new_host();
    let long = h.symbol_new_from_slice("abcdefghijkl").unwrap();
    let small = h.symbol_from_str("abc").unwrap();
    assert_eq!(h.obj_cmp(long.to_val(), small.to_val()).unwrap(), 1);
    let same = h.symbol_new_from_slice("abc").unwrap();
    assert_eq!(h.obj_cmp(same.to_val(), small.to_val()).unwrap(), 0);
    let x = h.bytes_new_from_slice(&[1, 2]).unwrap().to_val();
    let y = h.bytes_new_from_slice(&[1, 3]).unwrap().to_val();
    assert_eq!(h.obj_cmp(x, y).unwrap(), -1);
    let m1 = h.map_new_from_slices(&["a"], &[Val::U32(1)]).unwrap().to_val();
    let m2 = h.map_new_from_slices(&["a"], &[Val::U32(2)]).unwrap().to_val();
    let m3 = h.map_new_from_slices(&["a", "b"], &[Val::U32(1), Val::U32(0)]).unwrap().to_val();
    assert_eq!(h.obj_cmp(m1, m2).unwrap(), -1);
    assert_eq!(h.obj_cmp(m1, m3).unwrap(), -1);
    assert_eq!(h.obj_cmp(m1, m1).unwrap(), 0);
    let k = h.bytes_new_from_slice(&[7u8; 32]).unwrap();
    let account = h.account_public_key_to_address(k).unwrap().to_val();
    let contract = h.contract_id_to_address(k).unwrap().to_val();
    assert_eq!(h.obj_cmp(account, contract).unwrap(), -1);
    assert_eq!(h.obj_cmp(contract, contract).unwrap(), 0);
}

fn nested(h: &mut Host, levels: u32) -> Val {
    let mut v = Val::U32(0);
    for _ in 0..levels {
        v = vec_of(h, &[v]).to_val();
    }
    v
}

#[test]
fn comparison_and_conversion_stop_at_the_depth_limit() {
    let mut h = new_host();
    // A value that nests 100 levels can be converted, one that nests 101 cannot.
    let ok = nested(&mut h, 99);
    let deep = nested(&mut h, 100);
    assert!(h.from_host_val(ok).is_ok());
    let unknown = Val::Object(Object { tag: ObjectTag::VecObject, handle: 9999 });
    assert!(failed(h.from_host_val(unknown), ScErrorType::Object, ScErrorCode::MissingValue));
    assert!(failed(h.from_host_val(deep), ScErrorType::Context, ScErrorCode::ExceededLimit));
    // The objects that are compared do not count as a level themselves.
    let deep2 = nested(&mut h, 100);
    assert_eq!(h.obj_cmp(deep, deep2).unwrap(), 0);
    let deeper = nested(&mut h, 101);
    let deeper2 = nested(&mut h, 101);
    assert!(failed(h.obj_cmp(deeper, deeper2), ScErrorType::Context, ScErrorCode::ExceededLimit));
    // Lists that differ at the front are not followed down.
    let a = vec_of(&mut h, &[Val::U32(1), deeper]).to_val();
    let b = vec_of(&mut h, &[Val::U32(2), deeper2]).to_val();
    assert_eq!(h.obj_cmp(a, b).unwrap(), -1);
}

#[test]
fn vec_functions() {
    let mut h = new_host();
    let v = vec_of(&mut h, &[Val::U32(1), Val::U32(2), Val::U32(3)]);
    let w = h.vec_put(v, 1, Val::U32(9)).unwrap();
    assert_eq!(elements(&mut h, w), vec![Val::U32(1), Val::U32(9), Val::U32(3)]);
    // The old vector is as it was.
    assert_eq!(elements(&mut h, v), vec![Val::U32(1), Val::U32(2), Val::U32(3)]);
    assert!(failed(h.vec_put(v, 3, Val::Void), ScErrorType::Object, ScErrorCode::IndexBounds));
    assert!(failed(h.vec_get(v, 3), ScErrorType::Object, ScErrorCode::IndexBounds));
    let w = h.vec_del(v, 0).unwrap();
    assert_eq!(elements(&mut h, w), vec![Val::U32(2), Val::U32(3)]);
    assert!(failed(h.vec_del(v, 3), ScErrorType::Object, ScErrorCode::IndexBounds));
    let w = h.vec_push_front(v, Val::Void).unwrap();
    assert_eq!(h.vec_front(w).unwrap(), Val::Void);
    let w = h.vec_pop_front(w).unwrap();
    assert_eq!(elements(&mut h, w), elements(&mut h, v));
    let w = h.vec_push_back(v, Val::Bool(true)).unwrap();
    assert_eq!(h.vec_back(w).unwrap(), Val::Bool(true));
    let w = h.vec_pop_back(w).unwrap();
    assert_eq!(elements(&mut h, w), elements(&mut h, v));
    let w = h.vec_insert(v, 3, Val::U32(4)).unwrap();
    assert_eq!(h.vec_get(w, 3).unwrap(), Val::U32(4));
    assert!(failed(h.vec_insert(v, 4, Val::Void), ScErrorType::Object, ScErrorCode::IndexBounds));
    let front = h.vec_slice(v, 0, 1).unwrap();
    let back = h.vec_slice(v, 1, 3).unwrap();
    let w = h.vec_append(front, back).unwrap();
    assert_eq!(elements(&mut h, w), elements(&mut h, v));
    assert!(failed(h.vec_slice(v, 2, 1), ScErrorType::Value, ScErrorCode::InvalidInput));
    assert!(failed(h.vec_slice(v, 0, 4), ScErrorType::Object, ScErrorCode::IndexBounds));
    let empty = h.vec_new().unwrap();
    assert!(failed(h.vec_pop_front(empty), ScErrorType::Object, ScErrorCode::IndexBounds));
    assert!(failed(h.vec_pop_back(empty), ScErrorType::Object, ScErrorCode::IndexBounds));
    assert!(failed(h.vec_front(empty), ScErrorType::Object, ScErrorCode::IndexBounds));
    assert!(failed(h.vec_back(empty), ScErrorType::Object, ScErrorCode::IndexBounds));
}

#[test]
fn vec_searches() {
    let mut h = new_host();
    let v = vec_of(&mut h, &[Val::U32(1), Val::U32(3), Val::U32(3), Val::U32(7)]);
    assert_eq!(h.vec_first_index_of(v, Val::U32(3)).unwrap(), Val::U32(1));
    assert_eq!(h.vec_last_index_of(v, Val::U32(3)).unwrap(), Val::U32(2));
    assert_eq!(h.vec_first_index_of(v, Val::U32(4)).unwrap(), Val::Void);
    assert_eq!(h.vec_last_index_of(v, Val::U32(4)).unwrap(), Val::Void);
    assert_eq!(h.vec_binary_search(v, Val::U32(7)).unwrap(), (1 << 32) + 3);
    assert_eq!(h.vec_binary_search(v, Val::U32(1)).unwrap(), 1 << 32);
    assert_eq!(h.vec_binary_search(v, Val::U32(0)).unwrap(), 0);
    assert_eq!(h.vec_binary_search(v, Val::U32(5)).unwrap(), 3);
    assert_eq!(h.vec_binary_search(v, Val::U32(8)).unwrap(), 4);
}

#[test]
fn vec_to_slice_and_back() {
    let mut h = new_host();
    let v = vec_of(&mut h, &[Val::U32(5), Val::Void]);
    let mut out = [Val::Bool(false); 2];
    h.vec_unpack_to_slice(v, &mut out).unwrap();
    assert_eq!(out, [Val::U32(5), Val::Void]);
    let mut short = [Val::Bool(false); 1];
    assert!(failed(h.vec_unpack_to_slice(v, &mut short), ScErrorType::Object, ScErrorCode::UnexpectedSize));
    assert_eq!(short, [Val::Bool(false)]);
    let unknown = Val::Object(Object { tag: ObjectTag::VecObject, handle: 77 });
    assert!(failed(h.vec_new_from_slice(&[unknown]), ScErrorType::Object, ScErrorCode::MissingValue));
}

#[test]
fn map_put_get_del() {
    let mut h = new_host();
    let m = h.map_new().unwrap();
    let m = h.map_put(m, Val::U32(2), Val::Bool(true)).unwrap();
    let m = h.map_put(m, Val::U32(1), Val::Bool(false)).unwrap();
    let m2 = h.map_put(m, Val::U32(2), Val::Void).unwrap();
    assert_eq!(h.map_len(m2).unwrap(), 2);
    assert_eq!(h.map_get(m2, Val::U32(2)).unwrap(), Val::Void);
    assert_eq!(h.map_get(m2, Val::U32(1)).unwrap(), Val::Bool(false));
    assert_eq!(h.map_get(m, Val::U32(2)).unwrap(), Val::Bool(true));
    assert!(h.map_has(m, Val::U32(1)).unwrap());
    assert!(!h.map_has(m, Val::U32(3)).unwrap());
    assert!(failed(h.map_get(m, Val::U32(3)), ScErrorType::Object, ScErrorCode::MissingValue));
    let m3 = h.map_del(m, Val::U32(1)).unwrap();
    assert!(!h.map_has(m3, Val::U32(1)).unwrap());
    assert!(h.map_has(m3, Val::U32(2)).unwrap());
    assert!(failed(h.map_del(m3, Val::U32(1)), ScErrorType::Object, ScErrorCode::MissingValue));
    assert_eq!(h.map_key_by_pos(m, 0).unwrap(), Val::U32(1));
    assert_eq!(h.map_val_by_pos(m, 1).unwrap(), Val::Bool(true));
    assert!(failed(h.map_key_by_pos(m, 2), ScErrorType::Object, ScErrorCode::IndexBounds));
    assert!(failed(h.map_val_by_pos(m, 2), ScErrorType::Object, ScErrorCode::IndexBounds));
    let keys = h.map_keys(m).unwrap();
    assert_eq!(elements(&mut h, keys), vec![Val::U32(1), Val::U32(2)]);
    let values = h.map_values(m).unwrap();
    assert_eq!(elements(&mut h, values), vec![Val::Bool(false), Val::Bool(true)]);
}

#[test]
fn map_keys_are_compared_by_what_they_denote() {
    let mut h = new_host();
    let a = vec_of(&mut h, &[Val::U32(1)]).to_val();
    let b = vec_of(&mut h, &[Val::U32(1)]).to_val();
    let m = h.map_new().unwrap();
    let m = h.map_put(m, a, Val::U32(10)).unwrap();
    assert_eq!(h.map_get(m, b).unwrap(), Val::U32(10));
    let m = h.map_put(m, b, Val::U32(11)).unwrap();
    assert_eq!(h.map_len(m).unwrap(), 1);
    assert_eq!(h.map_get(m, a).unwrap(), Val::U32(11));
}

#[test]
fn map_of_slices_round_trip() {
    let mut h = new_host();
    let keys = ["a", "bcd", "much_longer_key"];
    let vals = [Val::U32(1), Val::Void, Val::Bool(true)];
    let m = h.map_new_from_slices(&keys, &vals).unwrap();
    let sym = h.symbol_from_str("much_longer_key").unwrap();
    assert_eq!(h.map_get(m, sym.to_val()).unwrap(), Val::Bool(true));
    let mut out = [Val::Void; 3];
    h.map_unpack_to_slice(m, &keys, &mut out).unwrap();
    assert_eq!(out, vals);
    let mut out = [Val::U32(7); 3];
    assert!(failed(
        h.map_unpack_to_slice(m, &["a", "bcx", "much_longer_key"], &mut out),
        ScErrorType::Value,
        ScErrorCode::InvalidInput
    ));
    assert_eq!(out, [Val::U32(7); 3]);
    let mut two = [Val::Void; 2];
    assert!(failed(h.map_unpack_to_slice(m, &keys, &mut two), ScErrorType::Object, ScErrorCode::UnexpectedSize));
    assert!(failed(
        h.map_unpack_to_slice(m, &["a", "b"], &mut two),
        ScErrorType::Object,
        ScErrorCode::UnexpectedSize
    ));
    let numbers = h.map_new().unwrap();
    let numbers = h.map_put(numbers, Val::U32(1), Val::Void).unwrap();
    let mut one = [Val::Void; 1];
    assert!(failed(
        h.map_unpack_to_slice(numbers, &["a"], &mut one),
        ScErrorType::Value,
        ScErrorCode::UnexpectedType
    ));
}

#[test]
fn map_of_slices_refuses_bad_input() {
    let mut h = new_host();
    assert!(failed(h.map_new_from_slices(&["a"], &[]), ScErrorType::Object, ScErrorCode::UnexpectedSize));
    assert!(failed(
        h.map_new_from_slices(&["b", "a"], &[Val::Void, Val::Void]),
        ScErrorType::Object,
        ScErrorCode::InvalidInput
    ));
    assert!(failed(
        h.map_new_from_slices(&["a", "a"], &[Val::Void, Val::Void]),
        ScErrorType::Object,
        ScErrorCode::InvalidInput
    ));
    assert!(failed(h.map_new_from_slices(&["a-b"], &[Val::Void]), ScErrorType::Value, ScErrorCode::InvalidInput));
    let unknown = Val::Object(Object { tag: ObjectTag::VecObject, handle: 77 });
    assert!(failed(h.map_new_from_slices(&["a"], &[unknown]), ScErrorType::Object, ScErrorCode::MissingValue));
}

#[test]
fn symbols() {
    let mut h = new_host();
    let small = h.symbol_from_str("abc_19Z").unwrap();
    assert!(matches!(small, Symbol::Small(_)));
    let nine = h.symbol_from_str("zzzzzzzzz").unwrap();
    assert!(matches!(nine, Symbol::Small(_)));
    let ten = h.symbol_from_str("zzzzzzzzzz").unwrap();
    assert!(matches!(ten, Symbol::Object(_)));
    assert!(h.symbol_matches(b"abc_19Z", small).unwrap());
    assert!(!h.symbol_matches(b"abc_19", small).unwrap());
    assert!(h.symbol_matches(b"zzzzzzzzzz", ten).unwrap());
    assert!(h.check_symbol_matches(b"zzzzzzzzz", nine).is_ok());
    assert!(failed(h.check_symbol_matches(b"x", nine), ScErrorType::Value, ScErrorCode::InvalidInput));
    assert!(failed(h.symbol_from_str("no space"), ScErrorType::Value, ScErrorCode::InvalidInput));
    assert!(failed(
        h.symbol_new_from_slice("a23456789012345678901234567890123"),
        ScErrorType::Value,
        ScErrorCode::InvalidInput
    ));
    assert_eq!(h.symbol_index_in_strs(ten, &["x", "zzzzzzzzzz", "zzzzzzzzzz"]).unwrap(), 1);
    assert!(failed(h.symbol_index_in_strs(ten, &["x"]), ScErrorType::Value, ScErrorCode::InvalidInput));
    assert_eq!(h.symbol_len(match ten { Symbol::Object(o) => o, _ => panic!() }).unwrap(), 10);
}

#[test]
fn small_symbols_pack_six_bits_a_character() {
    let mut h = new_host();
    // `_` is 1, `0` is 2, `A` is 12, `a` is 38.
    assert_eq!(h.symbol_from_str("_0Aa").unwrap(), Symbol::Small(((1 * 64 + 2) * 64 + 12) * 64 + 38));
    assert_eq!(Val::SymbolSmall(38).get_payload(), 38 * 256 + 14);
}

#[test]
fn bytes_functions() {
    let mut h = new_host();
    let b = h.bytes_new_from_slice(&[1, 2, 3]).unwrap();
    let c = h.bytes_put(b, 0, 9).unwrap();
    assert_eq!(bytes_of(&mut h, c), vec![9, 2, 3]);
    assert_eq!(bytes_of(&mut h, b), vec![1, 2, 3]);
    assert_eq!(h.bytes_get(c, 0).unwrap(), 9);
    assert!(failed(h.bytes_put(b, 3, 0), ScErrorType::Object, ScErrorCode::IndexBounds));
    assert!(failed(h.bytes_put(b, 0, 256), ScErrorType::Value, ScErrorCode::InvalidInput));
    assert!(failed(h.bytes_get(b, 3), ScErrorType::Object, ScErrorCode::IndexBounds));
    let c = h.bytes_del(b, 1).unwrap();
    assert_eq!(bytes_of(&mut h, c), vec![1, 3]);
    assert!(failed(h.bytes_del(b, 3), ScErrorType::Object, ScErrorCode::IndexBounds));
    let c = h.bytes_push(b, 4).unwrap();
    assert_eq!(bytes_of(&mut h, c), vec![1, 2, 3, 4]);
    assert!(failed(h.bytes_push(b, 300), ScErrorType::Value, ScErrorCode::InvalidInput));
    let c = h.bytes_pop(c).unwrap();
    assert_eq!(bytes_of(&mut h, c), vec![1, 2, 3]);
    assert_eq!(h.bytes_front(b).unwrap(), 1);
    assert_eq!(h.bytes_back(b).unwrap(), 3);
    let c = h.bytes_insert(b, 1, 7).unwrap();
    assert_eq!(bytes_of(&mut h, c), vec![1, 7, 2, 3]);
    assert!(failed(h.bytes_insert(b, 4, 7), ScErrorType::Object, ScErrorCode::IndexBounds));
    let c = h.bytes_append(b, b).unwrap();
    assert_eq!(bytes_of(&mut h, c), vec![1, 2, 3, 1, 2, 3]);
    let c = h.bytes_slice(c, 1, 4).unwrap();
    assert_eq!(bytes_of(&mut h, c), vec![2, 3, 1]);
    assert!(failed(h.bytes_slice(b, 2, 1), ScErrorType::Value, ScErrorCode::InvalidInput));
    assert!(failed(h.bytes_slice(b, 0, 4), ScErrorType::Object, ScErrorCode::IndexBounds));
    let empty = h.bytes_new().unwrap();
    assert!(failed(h.bytes_pop(empty), ScErrorType::Object, ScErrorCode::IndexBounds));
    assert!(failed(h.bytes_front(empty), ScErrorType::Object, ScErrorCode::IndexBounds));
    assert!(failed(h.bytes_back(empty), ScErrorType::Object, ScErrorCode::IndexBounds));
    // Writing past the end grows the string with zeros.
    let c = h.bytes_copy_from_slice(b, 5, &[8, 8]).unwrap();
    assert_eq!(bytes_of(&mut h, c), vec![1, 2, 3, 0, 0, 8, 8]);
    assert!(failed(h.bytes_copy_from_slice(b, u32::MAX, &[8]), ScErrorType::Value, ScErrorCode::ArithDomain));
    let mut out = [0u8; 2];
    assert!(failed(h.bytes_copy_to_slice(b, 2, &mut out), ScErrorType::Object, ScErrorCode::IndexBounds));
    let s = h.string_new_from_slice("hello").unwrap();
    h.string_copy_to_slice(s, 1, &mut out).unwrap();
    assert_eq!(&out, b"el");
    assert_eq!(h.string_len(s).unwrap(), 5);
    let sym = h.symbol_new_from_slice("abcdefghijk").unwrap();
    h.symbol_copy_to_slice(sym, 9, &mut out).unwrap();
    assert_eq!(&out, b"jk");
}

#[test]
fn copies_of_bytes_are_charged_for() {
    let mut h = new_host();
    let b = h.bytes_new_from_slice(&[1, 2, 3, 4]).unwrap();
    let before = h.budget_cloned();
    // Room for each byte costs one.
    h.budget.mem_bytes.models[ContractCostType::HostMemAlloc.number()] = CostModel { const_term: 0, lin_term: 128 };
    let spent = |h: &Host| h.budget_ref().mem_bytes.total_count;
    h.bytes_put(b, 0, 9).unwrap();
    assert_eq!(spent(&h), 4);
    assert_eq!(h.bytes_put(b, 4, 9), Err(err(ScErrorType::Object, ScErrorCode::IndexBounds)));
    assert_eq!(spent(&h), 8);
    h.bytes_del(b, 0).unwrap();
    assert_eq!(spent(&h), 12);
    h.bytes_pop(b).unwrap();
    assert_eq!(spent(&h), 16);
    h.bytes_slice(b, 1, 3).unwrap();
    assert_eq!(spent(&h), 18);
    h.string_new_from_slice("hello").unwrap();
    assert_eq!(spent(&h), 23);
    h.symbol_new_from_slice("abcdefghijk").unwrap();
    assert_eq!(spent(&h), 34);
    // What was handed out before does not see the charges.
    assert_eq!(before.mem_bytes.total_count, 0);
    h.budget.mem_bytes.limit = 34;
    let out = || Err(err(ScErrorType::Budget, ScErrorCode::ExceededLimit));
    assert_eq!(h.bytes_put(b, 0, 9), out());
    assert_eq!(h.bytes_del(b, 0), out());
    assert_eq!(h.bytes_pop(b), out());
    assert_eq!(h.bytes_slice(b, 1, 3), out());
    assert!(h.string_new_from_slice("hello").is_err());
    assert!(h.symbol_new_from_slice("abcdefghijk").is_err());
}

#[test]
fn charges_are_made_and_limits_hold() {
    let mut h = new_host();
    let b = h.bytes_new_from_slice(&[1, 2, 3]).unwrap();
    h.budget.mem_bytes.models[ContractCostType::HostMemAlloc.number()] = CostModel { const_term: 1, lin_term: 128 };
    h.budget.mem_bytes.limit = 10;
    // Room for four bytes costs five.
    let b = h.bytes_push(b, 4).unwrap();
    assert_eq!(h.budget_cloned().mem_bytes.total_count, 5);
    let objects = h.objects.len();
    assert_eq!(
        h.bytes_push(b, 5),
        Err(err(ScErrorType::Budget, ScErrorCode::ExceededLimit))
    );
    assert_eq!(h.budget_ref().mem_bytes.total_count, 11);
    assert_eq!(h.objects.len(), objects);
    let left = h.with_budget(|b| (b, Ok(b.mem_bytes.limit))).unwrap();
    assert_eq!(left, 10);
    assert_eq!(
        h.charge_budget(ContractCostType::HostMemCpy, Some(3)),
        Err(err(ScErrorType::Budget, ScErrorCode::ExceededLimit))
    );
    // A cost has a constant part and a slope in 128ths.
    let model = CostModel { const_term: 100, lin_term: 64 };
    assert_eq!(model.evaluate(Some(10)), 105);
    assert_eq!(model.evaluate(None), 100);
}

#[test]
fn integer_objects() {
    let mut h = new_host();
    let o = h.obj_from_u64(u64::MAX).unwrap();
    assert_eq!(h.obj_to_u64(o).unwrap(), u64::MAX);
    let o = h.obj_from_i64(i64::MIN).unwrap();
    assert_eq!(h.obj_to_i64(o).unwrap(), i64::MIN);
    let o = h.timepoint_obj_from_u64(12).unwrap();
    assert_eq!(h.timepoint_obj_to_u64(o).unwrap(), 12);
    let o = h.duration_obj_from_u64(13).unwrap();
    assert_eq!(h.duration_obj_to_u64(o).unwrap(), 13);
    let o = h.obj_from_u128_pieces(7, 9).unwrap();
    assert_eq!((h.obj_to_u128_hi64(o).unwrap(), h.obj_to_u128_lo64(o).unwrap()), (7, 9));
    let o = h.obj_from_i128_pieces(-7, 9).unwrap();
    assert_eq!((h.obj_to_i128_hi64(o).unwrap(), h.obj_to_i128_lo64(o).unwrap()), (-7, 9));
    let o = h.obj_from_u256_pieces(1, 2, 3, 4).unwrap();
    assert_eq!(h.obj_to_u256_hi_hi(o).unwrap(), 1);
    assert_eq!(h.obj_to_u256_hi_lo(o).unwrap(), 2);
    assert_eq!(h.obj_to_u256_lo_hi(o).unwrap(), 3);
    assert_eq!(h.obj_to_u256_lo_lo(o).unwrap(), 4);
    let o = h.obj_from_i256_pieces(-1, 2, 3, 4).unwrap();
    assert_eq!(h.obj_to_i256_hi_hi(o).unwrap(), -1);
    assert_eq!(h.obj_to_i256_hi_lo(o).unwrap(), 2);
    assert_eq!(h.obj_to_i256_lo_hi(o).unwrap(), 3);
    assert_eq!(h.obj_to_i256_lo_lo(o).unwrap(), 4);
}

fn u256(h: &mut Host, hi: u128, lo: u128) -> U256Val {
    U256Val::Object(
        h.obj_from_u256_pieces((hi >> 64) as u64, hi as u64, (lo >> 64) as u64, lo as u64).unwrap(),
    )
}

#[test]
fn u256_arithmetic() {
    let mut h = new_host();
    let max = u256(&mut h, u128::MAX, u128::MAX);
    let two = U256Val::Small(2);
    assert!(failed(h.u256_add(max, two), ScErrorType::Object, ScErrorCode::ArithDomain));
    assert_eq!(h.u256_add(two, U256Val::Small(3)).unwrap(), U256Val::Small(5));
    assert_eq!(h.u256_sub(U256Val::Small(3), two).unwrap(), U256Val::Small(1));
    assert!(failed(h.u256_sub(two, U256Val::Small(3)), ScErrorType::Object, ScErrorCode::ArithDomain));
    assert_eq!(h.u256_mul(two, U256Val::Small(21)).unwrap(), U256Val::Small(42));
    assert!(failed(h.u256_mul(max, two), ScErrorType::Object, ScErrorCode::ArithDomain));
    assert_eq!(h.u256_div(U256Val::Small(7), two).unwrap(), U256Val::Small(3));
    assert!(failed(h.u256_div(two, U256Val::Small(0)), ScErrorType::Object, ScErrorCode::ArithDomain));
    assert_eq!(h.u256_pow(two, 10).unwrap(), U256Val::Small(1024));
    assert!(failed(h.u256_pow(two, 256), ScErrorType::Object, ScErrorCode::ArithDomain));
    assert_eq!(h.u256_shl(two, 4).unwrap(), U256Val::Small(32));
    assert_eq!(h.u256_shr(max, 250).unwrap(), U256Val::Small(63));
    assert!(failed(h.u256_shl(two, 256), ScErrorType::Object, ScErrorCode::ArithDomain));
    assert!(failed(h.u256_shr(two, 256), ScErrorType::Object, ScErrorCode::ArithDomain));
    // What does not fit in 56 bits becomes an object.
    match h.u256_shl(U256Val::Small(1), 56).unwrap() {
        U256Val::Object(o) => assert_eq!(h.obj_to_u256_lo_lo(o).unwrap(), 1 << 56),
        U256Val::Small(_) => panic!("too large"),
    }
}

#[test]
fn i256_arithmetic() {
    let mut h = new_host();
    let two = I256Val::Small(2);
    let minus7 = I256Val::Small(-7);
    assert_eq!(h.i256_add(minus7, two).unwrap(), I256Val::Small(-5));
    assert_eq!(h.i256_sub(two, minus7).unwrap(), I256Val::Small(9));
    assert_eq!(h.i256_mul(minus7, two).unwrap(), I256Val::Small(-14));
    assert_eq!(h.i256_div(minus7, two).unwrap(), I256Val::Small(-3));
    assert!(failed(h.i256_div(two, I256Val::Small(0)), ScErrorType::Object, ScErrorCode::ArithDomain));
    assert_eq!(h.i256_pow(minus7, 3).unwrap(), I256Val::Small(-343));
    assert_eq!(h.i256_shl(minus7, 1).unwrap(), I256Val::Small(-14));
    assert_eq!(h.i256_shr(minus7, 1).unwrap(), I256Val::Small(-4));
    let min = I256Val::Object(h.obj_from_i256_pieces(i64::MIN, 0, 0, 0).unwrap());
    assert!(failed(h.i256_sub(min, two), ScErrorType::Object, ScErrorCode::ArithDomain));
    assert!(failed(h.i256_add(min, min), ScErrorType::Object, ScErrorCode::ArithDomain));
    assert!(failed(h.i256_mul(min, two), ScErrorType::Object, ScErrorCode::ArithDomain));
    assert!(failed(h.i256_div(min, I256Val::Small(-1)), ScErrorType::Object, ScErrorCode::ArithDomain));
    assert!(failed(h.i256_pow(two, 255), ScErrorType::Object, ScErrorCode::ArithDomain));
    assert!(failed(h.i256_shl(two, 256), ScErrorType::Object, ScErrorCode::ArithDomain));
    assert!(failed(h.i256_shr(two, 256), ScErrorType::Object, ScErrorCode::ArithDomain));
}

#[test]
fn wide_numbers_as_bytes() {
    let mut h = new_host();
    let mut bytes = [0u8; 32];
    bytes[31] = 5;
    let b = h.bytes_new_from_slice(&bytes).unwrap();
    assert_eq!(h.u256_val_from_be_bytes(b).unwrap(), U256Val::Small(5));
    assert_eq!(h.i256_val_from_be_bytes(b).unwrap(), I256Val::Small(5));
    let ones = h.bytes_new_from_slice(&[0xffu8; 32]).unwrap();
    assert_eq!(h.i256_val_from_be_bytes(ones).unwrap(), I256Val::Small(-1));
    let back = h.i256_val_to_be_bytes(I256Val::Small(-1)).unwrap();
    assert_eq!(bytes_of(&mut h, back), vec![0xffu8; 32]);
    let back = h.u256_val_to_be_bytes(U256Val::Small(5)).unwrap();
    assert_eq!(bytes_of(&mut h, back), bytes.to_vec());
    let large = h.u256_val_from_be_bytes(ones).unwrap();
    let back = h.u256_val_to_be_bytes(large).unwrap();
    assert_eq!(bytes_of(&mut h, back), vec![0xffu8; 32]);
    let short = h.bytes_new_from_slice(&[1]).unwrap();
    assert!(failed(h.u256_val_from_be_bytes(short), ScErrorType::Object, ScErrorCode::UnexpectedSize));
    assert!(failed(h.i256_val_from_be_bytes(short), ScErrorType::Object, ScErrorCode::UnexpectedSize));
}

fn same(h: &mut Host, t: ScVal) -> bool {
    let v = h.inject_val(&t).unwrap();
    let back = h.from_host_val(v).unwrap();
    soroban_env_host::scval::sc_eq(&t, &back)
}

#[test]
fn values_come_back_from_trees() {
    let mut h = new_host();
    assert!(same(&mut h, ScVal::Bool(true)));
    assert!(same(&mut h, ScVal::Void));
    assert!(same(&mut h, ScVal::Error(Error::from_contract_error(7))));
    assert!(same(&mut h, ScVal::U64(u64::MAX)));
    assert!(same(&mut h, ScVal::U64(5)));
    assert!(same(&mut h, ScVal::I64(-5)));
    assert!(same(&mut h, ScVal::I64(i64::MIN)));
    assert!(same(&mut h, ScVal::Timepoint(1)));
    assert!(same(&mut h, ScVal::Duration(u64::MAX)));
    assert!(same(&mut h, ScVal::U128(u128::MAX)));
    assert!(same(&mut h, ScVal::I128(-1)));
    assert!(same(&mut h, ScVal::I128(i128::MIN)));
    assert!(same(&mut h, ScVal::U256(U256 { hi: 1, lo: 2 })));
    assert!(same(&mut h, ScVal::I256(I256 { hi: -1, lo: u128::MAX - 9 })));
    assert!(same(&mut h, ScVal::I256(I256 { hi: -9, lo: 3 })));
    assert!(same(&mut h, ScVal::Bytes(vec![1, 2])));
    assert!(same(&mut h, ScVal::Text(vec![0xff])));
    assert!(same(&mut h, ScVal::Symbol(b"short".to_vec())));
    assert!(same(&mut h, ScVal::Symbol(b"a_longer_symbol".to_vec())));
    assert!(same(&mut h, ScVal::ScVec(vec![ScVal::U32(1), ScVal::ScVec(vec![])])));
    assert!(same(
        &mut h,
        ScVal::ScMap(vec![
            ScMapEntry { key: ScVal::U32(1), val: ScVal::Void },
            ScMapEntry { key: ScVal::U64(1), val: ScVal::I32(-3) },
        ])
    ));
}

#[test]
fn small_numbers_need_no_object() {
    let mut h = new_host();
    assert_eq!(h.inject_val(&ScVal::U64((1 << 56) - 1)).unwrap(), Val::U64Small((1 << 56) - 1));
    assert_eq!(h.inject_val(&ScVal::I128(-(1 << 55))).unwrap(), Val::I128Small(-(1 << 55)));
    assert_eq!(h.objects.len(), 0);
    assert!(h.inject_val(&ScVal::U64(1 << 56)).unwrap().is_object());
    assert!(h.inject_val(&ScVal::I128(1 << 55)).unwrap().is_object());
    assert_eq!(h.objects.len(), 2);
}

#[test]
fn bad_trees_are_refused() {
    let mut h = new_host();
    let entry = |n: u32| ScMapEntry { key: ScVal::U32(n), val: ScVal::Void };
    assert!(failed(
        h.inject_val(&ScVal::ScMap(vec![entry(2), entry(1)])),
        ScErrorType::Object,
        ScErrorCode::InvalidInput
    ));
    assert!(failed(
        h.inject_val(&ScVal::Symbol(b"not a symbol at all".to_vec())),
        ScErrorType::Value,
        ScErrorCode::InvalidInput
    ));
    let mut t = ScVal::Void;
    for _ in 0..100 {
        t = ScVal::ScVec(vec![t]);
    }
    assert!(failed(h.inject_val(&t), ScErrorType::Context, ScErrorCode::ExceededLimit));
}

#[test]
fn packed_words_round_trip() {
    let vals = [
        Val::Bool(true),
        Val::Bool(false),
        Val::Void,
        Val::Error(Error::from_type_and_code(ScErrorType::Storage, ScErrorCode::MissingValue)),
        Val::U32(u32::MAX),
        Val::I32(-1),
        Val::U64Small((1 << 56) - 1),
        Val::I64Small(-(1 << 55)),
        Val::SymbolSmall(77),
        Val::Object(Object { tag: ObjectTag::AddressObject, handle: 12 }),
    ];
    for v in vals {
        assert_eq!(Val::from_payload(v.get_payload()), v);
    }
    assert_eq!(Val::from_payload(15), Val::Bad(15));
    assert_eq!(Val::U32(1).get_payload(), (1 << 32) + 4);
    assert_eq!(U64Val::Small(3).to_val(), Val::U64Small(3));
    assert!(matches!(Frame::HostFunction, Frame::HostFunction));
}
