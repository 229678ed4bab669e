use soroban_env_host::{
    Budget, BudgetDimension, BytesObject, CostModel, DebugInfo, DiagnosticLevel, Error, Event, Frame, Hash32,
    Host, HostError, MapObject, Object, ObjectTag, ScErrorCode, ScErrorType, Storage, Symbol, Val, VmCaller, U256,
};

fn dimension() -> BudgetDimension {
    BudgetDimension { models: [CostModel { const_term: 0, lin_term: 0 }; 29], limit: u64::MAX, total_count: 0 }
}

fn new_host() -> Host {
    Host::with_storage_and_budget(Storage::new(), Budget { cpu_insns: dimension(), mem_bytes: dimension() })
}

fn guest_host() -> Host {
    let mut h = new_host();
    let contract_id = Hash32(U256 { hi: 0, lo: 1 });
    h.push_frame(Frame::ContractVM { contract_id, fn_name: Symbol::Small(38), args: vec![] }, vec![]).unwrap();
    h
}

fn failed<T>(r: Result<T, HostError>, t: ScErrorType, c: ScErrorCode) -> bool {
    match r {
        Ok(_) => false,
        Err(e) => e.error == Error::from_type_and_code(t, c),
    }
}

fn put_word(mem: &mut Vec<u8>, pos: usize, w: u64) {
    mem[pos..pos + 8].copy_from_slice(&w.to_le_bytes());
}

fn word(mem: &[u8], pos: usize) -> u64 {
    let mut b = [0u8; 8];
    b.copy_from_slice(&mem[pos..pos + 8]);
    u64::from_le_bytes(b)
}

fn bytes_of(h: &mut Host, b: BytesObject) -> Vec<u8> {
    let mut out = vec![0u8; h.bytes_len(b).unwrap() as usize];
    h.bytes_copy_to_slice(b, 0, &mut out).unwrap();
    out
}

/// Memory with the texts from 1000 on, a table of them at 0, and room behind.
fn memory_with_texts(texts: &[&str]) -> VmCaller {
    let mut memory = vec![0u8; 2000];
    let mut at = 1000usize;
    for (i, t) in texts.iter().enumerate() {
        memory[at..at + t.len()].copy_from_slice(t.as_bytes());
        put_word(&mut memory, 8 * i, at as u64 + ((t.len() as u64) << 32));
        at += t.len();
    }
    VmCaller { memory }
}

#[test]
fn map_from_memory_and_back() {
    let mut h = guest_host();
    let keys = ["abc", "b", "longer_than_nine"];
    let mut vm = memory_with_texts(&keys);
    put_word(&mut vm.memory, 100, Val::U32(1).get_payload());
    put_word(&mut vm.memory, 108, Val::Void.get_payload());
    put_word(&mut vm.memory, 116, Val::Bool(true).get_payload());
    let m = h.map_new_from_linear_memory(&vm, 0, 100, 3).unwrap();
    assert_eq!(h.map_len(m).unwrap(), 3);
    let sym = h.symbol_from_str("longer_than_nine").unwrap();
    assert_eq!(h.map_get(m, sym.to_val()).unwrap(), Val::Bool(true));
    h.map_unpack_to_linear_memory(&mut vm, m, 0, 200, 3).unwrap();
    assert_eq!(word(&vm.memory, 200), Val::U32(1).get_payload());
    assert_eq!(word(&vm.memory, 208), Val::Void.get_payload());
    assert_eq!(word(&vm.memory, 216), Val::Bool(true).get_payload());
}

#[test]
fn map_from_memory_refuses_bad_input() {
    let mut h = guest_host();
    let mut vm = memory_with_texts(&["b", "a"]);
    put_word(&mut vm.memory, 100, Val::Void.get_payload());
    put_word(&mut vm.memory, 108, Val::Void.get_payload());
    // Keys out of order.
    assert!(failed(h.map_new_from_linear_memory(&vm, 0, 100, 2), ScErrorType::Object, ScErrorCode::InvalidInput));
    // The table, a text or the values are not in memory.
    assert!(failed(h.map_new_from_linear_memory(&vm, 1999, 100, 1), ScErrorType::WasmVm, ScErrorCode::IndexBounds));
    assert!(failed(h.map_new_from_linear_memory(&vm, 0, 1999, 1), ScErrorType::WasmVm, ScErrorCode::IndexBounds));
    put_word(&mut vm.memory, 0, 1999 + (5u64 << 32));
    assert!(failed(h.map_new_from_linear_memory(&vm, 0, 100, 1), ScErrorType::WasmVm, ScErrorCode::IndexBounds));
    // A text that is too long for a symbol.
    put_word(&mut vm.memory, 0, 1000 + (33u64 << 32));
    assert!(failed(h.map_new_from_linear_memory(&vm, 0, 100, 1), ScErrorType::Value, ScErrorCode::InvalidInput));
}

#[test]
fn map_to_memory_checks_the_keys() {
    let mut h = guest_host();
    let m = h.map_new_from_slices(&["a", "b"], &[Val::U32(1), Val::U32(2)]).unwrap();
    let mut vm = memory_with_texts(&["a", "c"]);
    let before = vm.memory.clone();
    assert!(failed(
        h.map_unpack_to_linear_memory(&mut vm, m, 0, 200, 2),
        ScErrorType::Value,
        ScErrorCode::InvalidInput
    ));
    assert_eq!(vm.memory, before);
    let mut vm = memory_with_texts(&["a", "b", "c"]);
    assert!(failed(
        h.map_unpack_to_linear_memory(&mut vm, m, 0, 200, 3),
        ScErrorType::Object,
        ScErrorCode::IndexBounds
    ));
    // Fewer keys may be named than there are; all values are written.
    let mut vm = memory_with_texts(&["a"]);
    h.map_unpack_to_linear_memory(&mut vm, m, 0, 200, 1).unwrap();
    assert_eq!(word(&vm.memory, 208), Val::U32(2).get_payload());
    assert!(failed(
        h.map_unpack_to_linear_memory(&mut vm, MapObject { handle: 99 }, 0, 200, 1),
        ScErrorType::Object,
        ScErrorCode::MissingValue
    ));
    assert!(failed(
        h.map_unpack_to_linear_memory(&mut vm, m, 0, 1990, 1),
        ScErrorType::WasmVm,
        ScErrorCode::IndexBounds
    ));
}

#[test]
fn objects_cross_by_relative_handles() {
    let mut h = guest_host();
    let inner = h.bytes_new_from_slice(&[1]).unwrap();
    let v = h.vec_new_from_slice(&[Val::U32(1), inner.to_val(), inner.to_val()]).unwrap();
    let mut vm = VmCaller { memory: vec![0u8; 64] };
    h.vec_unpack_to_linear_memory(&mut vm, v, 8, 3).unwrap();
    // The guest sees relative handles, a new one for each object.
    assert_eq!(
        Val::from_payload(word(&vm.memory, 16)),
        Val::Object(Object { tag: ObjectTag::BytesObject, handle: 0 })
    );
    assert_eq!(
        Val::from_payload(word(&vm.memory, 24)),
        Val::Object(Object { tag: ObjectTag::BytesObject, handle: 2 })
    );
    // What was written is read back.
    let w = h.vec_new_from_linear_memory(&vm, 8, 3).unwrap();
    assert_eq!(h.obj_cmp(v.to_val(), w.to_val()).unwrap(), 0);
    assert_eq!(h.vec_get(w, 2).unwrap(), inner.to_val());
    // Forged, unknown and absolute handles are refused.
    let forged = Val::Object(Object { tag: ObjectTag::MapObject, handle: 0 });
    assert!(failed(h.relative_to_absolute(forged), ScErrorType::Value, ScErrorCode::InvalidInput));
    let unknown = Val::Object(Object { tag: ObjectTag::BytesObject, handle: 4 });
    assert!(failed(h.relative_to_absolute(unknown), ScErrorType::Value, ScErrorCode::InvalidInput));
    assert!(failed(h.relative_to_absolute(inner.to_val()), ScErrorType::Value, ScErrorCode::InvalidInput));
    assert_eq!(h.relative_to_absolute(Val::U32(4)).unwrap(), Val::U32(4));
    let seen = Val::from_payload(word(&vm.memory, 24));
    assert_eq!(h.relative_to_absolute(seen).unwrap(), inner.to_val());
    // A word that is no value.
    put_word(&mut vm.memory, 0, 15);
    assert!(failed(h.vec_new_from_linear_memory(&vm, 0, 1), ScErrorType::Value, ScErrorCode::InvalidInput));
    assert!(failed(h.vec_new_from_linear_memory(&vm, 60, 1), ScErrorType::WasmVm, ScErrorCode::IndexBounds));
    assert!(failed(
        h.vec_unpack_to_linear_memory(&mut vm, v, 48, 3),
        ScErrorType::WasmVm,
        ScErrorCode::IndexBounds
    ));
}

#[test]
fn memory_needs_a_running_guest() {
    let mut h = new_host();
    let vm = VmCaller { memory: vec![0u8; 64] };
    assert!(failed(h.vec_new_from_linear_memory(&vm, 0, 1), ScErrorType::Context, ScErrorCode::MissingValue));
    h.push_frame(Frame::HostFunction, vec![]).unwrap();
    assert!(failed(h.vec_new_from_linear_memory(&vm, 0, 1), ScErrorType::WasmVm, ScErrorCode::MissingValue));
    assert!(failed(h.bytes_new_from_linear_memory(&vm, 0, 1), ScErrorType::WasmVm, ScErrorCode::MissingValue));
    assert!(failed(
        h.symbol_index_in_linear_memory(&vm, Symbol::Small(1), 0, 1),
        ScErrorType::WasmVm,
        ScErrorCode::MissingValue
    ));
}

#[test]
fn symbol_index_in_memory() {
    let mut h = guest_host();
    let vm = memory_with_texts(&["x", "a_long_enough_one", "x"]);
    let long = h.symbol_from_str("a_long_enough_one").unwrap();
    let x = h.symbol_from_str("x").unwrap();
    let y = h.symbol_from_str("y").unwrap();
    assert_eq!(h.symbol_index_in_linear_memory(&vm, long, 0, 3).unwrap(), 1);
    assert_eq!(h.symbol_index_in_linear_memory(&vm, x, 0, 3).unwrap(), 0);
    assert!(failed(
        h.symbol_index_in_linear_memory(&vm, y, 0, 3),
        ScErrorType::Value,
        ScErrorCode::MissingValue
    ));
    assert!(failed(
        h.symbol_index_in_linear_memory(&vm, y, 1996, 1),
        ScErrorType::WasmVm,
        ScErrorCode::IndexBounds
    ));
}

#[test]
fn bytes_texts_and_symbols_cross_memory() {
    let mut h = guest_host();
    let mut vm = VmCaller { memory: b"hello world 0123456789".to_vec() };
    let b = h.bytes_new_from_linear_memory(&vm, 0, 5).unwrap();
    assert_eq!(bytes_of(&mut h, b), b"hello".to_vec());
    let s = h.string_new_from_linear_memory(&vm, 6, 5).unwrap();
    assert_eq!(h.string_len(s).unwrap(), 5);
    let sym = h.symbol_new_from_linear_memory(&vm, 12, 10).unwrap();
    assert_eq!(h.symbol_len(sym).unwrap(), 10);
    assert!(failed(
        h.symbol_new_from_linear_memory(&vm, 4, 4),
        ScErrorType::Value,
        ScErrorCode::InvalidInput
    ));
    assert!(failed(h.bytes_new_from_linear_memory(&vm, 20, 5), ScErrorType::WasmVm, ScErrorCode::IndexBounds));
    h.bytes_copy_to_linear_memory(&mut vm, b, 1, 0, 3).unwrap();
    assert_eq!(&vm.memory[..5], b"elllo");
    h.string_copy_to_linear_memory(&mut vm, s, 0, 0, 5).unwrap();
    assert_eq!(&vm.memory[..5], b"world");
    h.symbol_copy_to_linear_memory(&mut vm, sym, 8, 0, 2).unwrap();
    assert_eq!(&vm.memory[..5], b"89rld");
    assert!(failed(
        h.bytes_copy_to_linear_memory(&mut vm, b, 3, 0, 3),
        ScErrorType::Object,
        ScErrorCode::IndexBounds
    ));
    assert!(failed(
        h.bytes_copy_to_linear_memory(&mut vm, b, 0, 20, 3),
        ScErrorType::WasmVm,
        ScErrorCode::IndexBounds
    ));
    assert!(failed(
        h.bytes_copy_to_linear_memory(&mut vm, b, u32::MAX, 0, 1),
        ScErrorType::Value,
        ScErrorCode::ArithDomain
    ));
    let grown = h.bytes_copy_from_linear_memory(&vm, b, 4, 12, 4).unwrap();
    assert_eq!(bytes_of(&mut h, grown), b"hell0123".to_vec());
    assert!(failed(
        h.bytes_copy_from_linear_memory(&vm, b, u32::MAX, 0, 1),
        ScErrorType::Value,
        ScErrorCode::ArithDomain
    ));
}

#[test]
fn logs_only_in_debug_mode() {
    let mut h = guest_host();
    let mut vm = VmCaller { memory: vec![0u8; 64] };
    vm.memory[..3].copy_from_slice(&[b'o', b'k', 0xff]);
    put_word(&mut vm.memory, 8, Val::U32(3).get_payload());
    // Without debug mode memory is not looked at.
    h.log_from_linear_memory(&vm, 1000, 5, 0, 0).unwrap();
    h.log_from_slice("nothing", &[]).unwrap();
    assert_eq!(h.events.len(), 0);
    h.set_diagnostic_level(DiagnosticLevel::Debug);
    assert!(failed(
        h.log_from_linear_memory(&vm, 1000, 5, 0, 0),
        ScErrorType::WasmVm,
        ScErrorCode::IndexBounds
    ));
    h.log_from_linear_memory(&vm, 0, 3, 8, 1).unwrap();
    h.log_from_slice("hi", &[Val::Void]).unwrap();
    match &h.events[0] {
        Event::Diagnostic { message, args, .. } => {
            assert_eq!(message, "ok\u{fffd}");
            assert_eq!(args, &vec![Val::U32(3)]);
        }
        _ => panic!("no note"),
    }
    match &h.events[1] {
        Event::Diagnostic { message, args, .. } => {
            assert_eq!(message, "hi");
            assert_eq!(args, &vec![Val::Void]);
        }
        _ => panic!("no note"),
    }
    // What a guest notes need not be values.
    put_word(&mut vm.memory, 8, 15);
    h.log_from_linear_memory(&vm, 0, 1, 8, 1).unwrap();
    match &h.events[2] {
        Event::Diagnostic { args, .. } => assert_eq!(args, &vec![Val::Bad(15)]),
        _ => panic!("no note"),
    }
    // Errors then carry what is known for debugging.
    let e = h.vec_len(soroban_env_host::VecObject { handle: 99 }).unwrap_err();
    assert_eq!(e.info, Some(DebugInfo { events: 3 }));
}
