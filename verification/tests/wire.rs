use sassi::backend::file::{
    absolute_expiry_millis, file_wire_from_slice, file_wire_to_vec, now_millis, temp_name,
    temp_path, FileBackend,
};
use sassi::backend::keyspace::{
    encode_hex, keyspace_storage_key, keyspace_storage_key_prefix, BackendKeyspace,
};
use sassi::backend::policy::{
    attempts_for, begin_retry, continue_retry, is_retryable_backend_error, jitter_cap_micros,
    jittered_delay, settle_read, settle_write, with_jitter, write_route, RetryStep, WriteRoute,
};
use sassi::payload::WirePayload;
use sassi::portable::{from_slice_portable, to_vec_portable, WirePortable};
use sassi::wire::{
    decode_entries_into, decode_header, decode_punnu_entries_body, decode_punnu_entries_len,
    decode_punnu_entries_with_hints, encode_punnu_entries, encode_punnu_entries_with_hints_header,
    from_slice, peek_kind, to_vec, WireKind,
};
use sassi::{
    BackendError, BackendFailureMode, Cacheable, MemoryBackend, NoBackend, WireFormatError,
};
use std::sync::Arc;

#[derive(Debug, Clone, PartialEq)]
struct User {
    id: i64,
    name: String,
}

fn user(id: i64, name: &str) -> User {
    User { id, name: name.to_owned() }
}

impl Cacheable for User {
    type Fields = ();

    fn id(&self) -> i64 {
        self.id
    }

    fn fields() -> Self::Fields {}

    fn cache_type_name() -> &'static str {
        "app.User"
    }
}

impl WirePayload for User {
    fn encode(&self) -> Result<Vec<u8>, String> {
        if self.name == "unwritable" {
            return Err("cannot write".to_owned());
        }
        postcard::to_allocvec(&(self.id, &self.name)).map_err(|err| err.to_string())
    }

    fn decode(bytes: &[u8]) -> Result<(Self, usize), String> {
        let ((id, name), rest): ((i64, String), &[u8]) =
            postcard::take_from_bytes(bytes).map_err(|err| err.to_string())?;
        Ok((User { id, name }, bytes.len() - rest.len()))
    }
}

impl WirePortable for User {}

struct Order;

impl Cacheable for Order {
    type Fields = ();

    fn id(&self) -> i64 {
        0
    }

    fn fields() -> Self::Fields {}

    fn cache_type_name() -> &'static str {
        "app.Order"
    }
}

#[test]
fn a_value_is_read_back() {
    let value = user(7, "Ada");
    let bytes = to_vec(&value).unwrap();
    let mut expected = b"SASSI\0W\0".to_vec();
    expected.extend_from_slice(&[1, 0, 1, 0, 8, 0]);
    expected.extend_from_slice(b"app.User");
    expected.extend_from_slice(&[14, 3, b'A', b'd', b'a']);
    assert_eq!(bytes, expected);
    assert_eq!(from_slice::<User>(&bytes).unwrap(), value);
    assert_eq!(to_vec_portable(&value).unwrap(), bytes);
    assert_eq!(from_slice_portable::<User>(&bytes).unwrap(), value);
    assert_eq!(peek_kind(&bytes).unwrap(), 1);
}

#[test]
fn an_encoder_error_is_passed_on() {
    match to_vec(&user(1, "unwritable")) {
        Err(WireFormatError::Codec(text)) => assert_eq!(text, "cannot write"),
        other => panic!("unexpected {other:?}"),
    }
}

#[test]
fn every_part_of_the_header_is_checked() {
    let bytes = to_vec(&user(7, "Ada")).unwrap();

    match from_slice::<User>(b"{\"id\":1}") {
        Err(WireFormatError::VersionMismatch { got: 0, expected: 1 }) => {}
        other => panic!("unexpected {other:?}"),
    }
    match from_slice::<User>(&bytes[..13]) {
        Err(WireFormatError::MalformedHeader(text)) => assert_eq!(text, "header too short"),
        other => panic!("unexpected {other:?}"),
    }
    let mut magic = bytes.clone();
    magic[4] = b'J';
    assert!(matches!(from_slice::<User>(&magic), Err(WireFormatError::InvalidMagic)));
    let mut major = bytes.clone();
    major[9] = 1;
    assert!(matches!(
        from_slice::<User>(&major),
        Err(WireFormatError::VersionMismatch { got: 257, expected: 1 })
    ));
    let mut reserved = bytes.clone();
    reserved[10] = 5;
    assert!(matches!(
        from_slice::<User>(&reserved),
        Err(WireFormatError::UnsupportedKind { kind: 5 })
    ));
    let mut kind = bytes.clone();
    kind[10] = 3;
    assert!(matches!(
        from_slice::<User>(&kind),
        Err(WireFormatError::KindMismatch { got: 3, expected: 1 })
    ));
    let mut flags = bytes.clone();
    flags[11] = 4;
    assert!(matches!(
        from_slice::<User>(&flags),
        Err(WireFormatError::UnsupportedFlags { flags: 4 })
    ));
    match from_slice::<User>(&bytes[..20]) {
        Err(WireFormatError::MalformedHeader(text)) => {
            assert_eq!(text, "type name extends past input")
        }
        other => panic!("unexpected {other:?}"),
    }
    let mut text = bytes.clone();
    text[14] = 0xff;
    match from_slice::<User>(&text) {
        Err(WireFormatError::MalformedHeader(text)) => {
            assert_eq!(text, std::str::from_utf8(b"\xffpp.User").unwrap_err().to_string())
        }
        other => panic!("unexpected {other:?}"),
    }
    match decode_header::<Order>(&bytes, WireKind::Value) {
        Err(WireFormatError::TypeNameMismatch { got, expected }) => {
            assert_eq!(got, "app.User");
            assert_eq!(expected, "app.Order");
        }
        _ => panic!("another type was accepted"),
    }
}

#[test]
fn bodies_are_read_whole() {
    let bytes = to_vec(&user(7, "Ada")).unwrap();
    let mut longer = bytes.clone();
    longer.push(0);
    match from_slice::<User>(&longer) {
        Err(WireFormatError::Codec(text)) => {
            assert_eq!(text, "trailing bytes after postcard body")
        }
        other => panic!("unexpected {other:?}"),
    }
    assert!(matches!(
        from_slice::<User>(&bytes[..bytes.len() - 1]),
        Err(WireFormatError::Codec(_))
    ));
}

#[test]
fn snapshots_of_entries_are_read_back() {
    let entries = vec![Arc::new(user(1, "a")), Arc::new(user(2, "bc"))];
    let bytes = encode_punnu_entries(&entries).unwrap();
    let (count, body) = decode_punnu_entries_len::<User>(&bytes).unwrap();
    assert_eq!(count, 2);
    assert_eq!(
        decode_punnu_entries_body::<User>(body, count).unwrap(),
        vec![user(1, "a"), user(2, "bc")]
    );
    match decode_punnu_entries_body::<User>(body, 1) {
        Err(WireFormatError::Codec(text)) => {
            assert_eq!(text, "trailing bytes after punnu entries body")
        }
        other => panic!("unexpected {other:?}"),
    }
    assert!(matches!(
        decode_punnu_entries_body::<User>(body, 3),
        Err(WireFormatError::Codec(_))
    ));
    assert_eq!(decode_punnu_entries_body::<User>(&[], 0).unwrap(), vec![]);
    assert!(matches!(
        decode_punnu_entries_body::<User>(body, 0),
        Err(WireFormatError::Codec(text)) if text == "trailing bytes after punnu entries body"
    ));
    assert_eq!(
        decode_entries_into::<User>(body, 2, Vec::new()).unwrap(),
        vec![user(1, "a"), user(2, "bc")]
    );
    match decode_punnu_entries_body::<User>(body, usize::MAX) {
        Err(WireFormatError::Codec(text)) => assert!(text.starts_with(&format!(
            "could not reserve capacity for {} punnu entries: ",
            usize::MAX
        ))),
        other => panic!("unexpected {other:?}"),
    }
    match decode_punnu_entries_len::<User>(&bytes[..24]) {
        Err(WireFormatError::MalformedHeader(text)) => {
            assert_eq!(text, "punnu entries body missing count")
        }
        other => panic!("unexpected {other:?}"),
    }
    match encode_punnu_entries(&vec![Arc::new(user(1, "a")), Arc::new(user(1, "unwritable"))]) {
        Err(WireFormatError::Codec(text)) => assert_eq!(text, "cannot write"),
        other => panic!("unexpected {other:?}"),
    }
}

#[test]
fn snapshots_with_internal_state_have_a_kind_of_their_own() {
    let mut bytes = Vec::new();
    encode_punnu_entries_with_hints_header::<User>(&mut bytes).unwrap();
    bytes.extend_from_slice(&[9, 9]);
    assert_eq!(decode_punnu_entries_with_hints::<User>(&bytes).unwrap(), &[9, 9]);
    assert!(matches!(
        from_slice::<User>(&bytes),
        Err(WireFormatError::KindMismatch { got: 4, expected: 1 })
    ));
}

fn keyspace(namespace: Option<&str>) -> BackendKeyspace {
    BackendKeyspace::for_type::<User>(namespace)
}

#[test]
fn ids_are_written_as_varints() {
    assert_eq!(0i64.encode().unwrap(), vec![0]);
    assert_eq!((-1i64).encode().unwrap(), vec![1]);
    assert_eq!(1i64.encode().unwrap(), vec![2]);
    assert_eq!(300i64.encode().unwrap(), vec![0xd8, 0x04]);
    assert_eq!(i64::MIN.encode().unwrap(), vec![255, 255, 255, 255, 255, 255, 255, 255, 255, 1]);
    for id in [0, -1, 1, 300, -64, i64::MAX, i64::MIN] {
        let mut bytes = id.encode().unwrap();
        let len = bytes.len();
        bytes.push(77);
        assert_eq!(i64::decode(&bytes).unwrap(), (id, len));
    }
    assert_eq!(
        i64::decode(&[0x80]).unwrap_err(),
        "Hit the end of buffer, expected more data"
    );
}

#[test]
fn storage_keys() {
    assert_eq!(encode_hex(&[0x00, 0x1f, 0xa9]), "001fa9");
    let key = keyspace_storage_key(&keyspace(None), &7).unwrap();
    assert_eq!(key, "ns_none/ty_6170702e55736572/id_0e");
    let key = keyspace_storage_key(&keyspace(Some("eu")), &-3).unwrap();
    assert_eq!(key, "ns_6575/ty_6170702e55736572/id_05");
    assert_eq!(
        keyspace_storage_key_prefix(&keyspace(Some("eu"))),
        "ns_6575/ty_6170702e55736572/"
    );
}

#[test]
fn the_memory_backend_gives_back_what_it_stores() {
    let mut backend = MemoryBackend::default();
    let eu = keyspace(Some("eu"));
    let us = keyspace(Some("us"));
    assert!(backend.get::<User>(&eu, &1, 0).unwrap().is_none());
    backend.put(&eu, &1, &user(1, "a"), None, 0).unwrap();
    backend.put(&us, &1, &user(1, "b"), Some(10), 0).unwrap();
    assert_eq!(backend.get::<User>(&eu, &1, 100).unwrap(), Some(user(1, "a")));
    assert_eq!(backend.get::<User>(&us, &1, 9).unwrap(), Some(user(1, "b")));
    assert!(backend.get::<User>(&us, &1, 10).unwrap().is_none());
    assert!(backend.get::<User>(&us, &1, 0).unwrap().is_none());

    backend.put(&eu, &2, &user(2, "c"), None, 0).unwrap();
    backend.put(&us, &2, &user(2, "d"), None, 0).unwrap();
    backend.invalidate(&eu, &1).unwrap();
    assert!(backend.get::<User>(&eu, &1, 0).unwrap().is_none());
    assert!(backend.get::<User>(&eu, &2, 0).unwrap().is_some());
    backend.invalidate_all(&eu).unwrap();
    assert!(backend.get::<User>(&eu, &2, 0).unwrap().is_none());
    assert_eq!(backend.get::<User>(&us, &2, 0).unwrap(), Some(user(2, "d")));

    assert!(matches!(
        backend.put(&us, &2, &user(2, "unwritable"), None, 0),
        Err(BackendError::WireFormat(WireFormatError::Codec(_)))
    ));
    assert_eq!(backend.get::<User>(&us, &2, 0).unwrap(), Some(user(2, "d")));
}

#[test]
fn no_backend_stores_nothing() {
    let backend = NoBackend::default();
    backend.put(&keyspace(None), &1, &user(1, "a"), None).unwrap();
    assert!(backend.get::<User>(&keyspace(None), &1).unwrap().is_none());
    backend.invalidate(&keyspace(None), &1).unwrap();
    backend.invalidate_all(&keyspace(None)).unwrap();
}

#[test]
fn file_entries_carry_their_expiry() {
    let value = user(7, "Ada");
    let open = file_wire_to_vec(&value, None).unwrap();
    assert_eq!(file_wire_from_slice::<User>(&open, u64::MAX).unwrap(), (None, Some(value.clone())));
    let dated = file_wire_to_vec(&value, Some(1_000)).unwrap();
    assert_eq!(&dated[22..31], &[1, 0xe8, 0x03, 0, 0, 0, 0, 0, 0]);
    assert_eq!(
        file_wire_from_slice::<User>(&dated, 999).unwrap(),
        (Some(1_000), Some(value))
    );
    assert_eq!(file_wire_from_slice::<User>(&dated, 1_000).unwrap(), (Some(1_000), None));

    match file_wire_from_slice::<User>(&dated[..30], 0) {
        Err(BackendError::Serialization(text)) => assert_eq!(text, "file entry body too short"),
        other => panic!("unexpected {other:?}"),
    }
    let mut tag = dated.clone();
    tag[22] = 9;
    match file_wire_from_slice::<User>(&tag, 0) {
        Err(BackendError::Serialization(text)) => {
            assert_eq!(text, "unsupported file expiry tag 9")
        }
        other => panic!("unexpected {other:?}"),
    }
    match file_wire_from_slice::<User>(&to_vec(&user(1, "a")).unwrap(), 0) {
        Err(BackendError::WireFormat(WireFormatError::KindMismatch { got: 1, expected: 2 })) => {}
        other => panic!("unexpected {other:?}"),
    }
    match file_wire_to_vec(&user(1, "unwritable"), None) {
        Err(BackendError::Serialization(text)) => assert_eq!(text, "cannot write"),
        other => panic!("unexpected {other:?}"),
    }
}

#[test]
fn expiries_are_in_milliseconds() {
    assert_eq!(absolute_expiry_millis(5_000_000, 2_500_000).unwrap(), 7);
    assert_eq!(now_millis(7_999_999).unwrap(), 7);
    let too_far = u64::MAX as u128 * 1_000_000 + 1_000_000;
    for result in [
        now_millis(too_far),
        absolute_expiry_millis(too_far, 0),
        absolute_expiry_millis(u128::MAX, 1),
    ] {
        match result {
            Err(BackendError::Serialization(text)) => {
                assert_eq!(text, "file expiry exceeds u64 milliseconds")
            }
            other => panic!("unexpected {other:?}"),
        }
    }
}

#[test]
fn file_paths_follow_the_storage_key() {
    let backend = FileBackend::new("/var/cache");
    assert_eq!(backend.root(), "/var/cache");
    assert_eq!(
        backend.data_path(&keyspace(None), &7).unwrap(),
        "ns_none/ty_6170702e55736572/id_0e.sassi"
    );
    assert_eq!(
        backend.keyspace_dir(&keyspace(None)),
        "ns_none/ty_6170702e55736572/"
    );
}

#[test]
fn temp_path_includes_entropy_beyond_pid_and_counter() {
    let first_name = temp_path(4321, 0);
    let second_name = temp_path(4321, 1);

    assert_ne!(first_name, second_name);
    assert!(
        first_name.rsplit('-').next().unwrap().len() >= 16,
        "temp file suffix should include random entropy for shared-volume process collisions"
    );
}

#[test]
fn temporary_names_pad_the_entropy() {
    assert_eq!(temp_name(12, 3, 0xab), ".tmp-12-3-00000000000000ab");
    assert_eq!(temp_name(0, u64::MAX, u64::MAX), format!(".tmp-0-{}-{:016x}", u64::MAX, u64::MAX));
}

#[test]
fn only_some_errors_are_worth_another_try() {
    assert!(is_retryable_backend_error(&BackendError::Network(String::new())));
    assert!(is_retryable_backend_error(&BackendError::Other(String::new())));
    assert!(!is_retryable_backend_error(&BackendError::NotFound));
    assert!(!is_retryable_backend_error(&BackendError::Serialization(String::new())));
}

fn network() -> Result<(), BackendError> {
    Err(BackendError::Network("down".to_owned()))
}

#[test]
fn a_call_is_tried_as_often_as_the_mode_says() {
    assert_eq!(attempts_for(BackendFailureMode::L1Only), 1);
    assert_eq!(attempts_for(BackendFailureMode::Retry { attempts: 3 }), 3);
    assert_eq!(begin_retry(0), RetryStep::Stop);
    assert_eq!(begin_retry(3), RetryStep::Ask(1));
    assert_eq!(continue_retry(1, 3, &network()), RetryStep::Ask(2));
    assert_eq!(continue_retry(3, 3, &network()), RetryStep::Stop);
    assert_eq!(continue_retry(1, 3, &Ok(())), RetryStep::Stop);
    assert_eq!(
        continue_retry::<()>(1, 3, &Err(BackendError::NotFound)),
        RetryStep::Stop
    );
}

#[test]
fn reads_fail_only_in_strict_mode() {
    let (result, reported) =
        settle_read::<User>(BackendFailureMode::Error, Some(Err(BackendError::NotFound)));
    assert!(matches!(result, Err(BackendError::NotFound)));
    assert!(reported.is_none());
    let (result, reported) =
        settle_read::<User>(BackendFailureMode::L1Only, Some(Err(BackendError::NotFound)));
    assert!(matches!(result, Ok(None)));
    assert!(matches!(reported, Some(BackendError::NotFound)));
    let (result, _) = settle_read(BackendFailureMode::L1Only, Some(Ok(Some(user(1, "a")))));
    assert_eq!(result.unwrap(), Some(user(1, "a")));
    assert!(settle_write(Some(Ok(()))).is_none());
    assert!(settle_write(Some(network())).is_some());
}

#[test]
fn the_mode_decides_the_order_of_writes() {
    assert_eq!(write_route(BackendFailureMode::Error, true), WriteRoute::BackendFirst);
    assert_eq!(write_route(BackendFailureMode::L1Only, true), WriteRoute::PoolFirst);
    assert_eq!(
        write_route(BackendFailureMode::Retry { attempts: 2 }, true),
        WriteRoute::PoolFirst
    );
    assert_eq!(write_route(BackendFailureMode::Error, false), WriteRoute::PoolOnly);
}

#[test]
fn drawn_microseconds_are_added() {
    assert_eq!(jitter_cap_micros(0), 0);
    assert_eq!(jitter_cap_micros(3_999), 0);
    assert_eq!(jitter_cap_micros(4_000), 1);
    assert_eq!(jitter_cap_micros(100_000_000), 25_000);
    assert_eq!(jitter_cap_micros(u128::MAX), u64::MAX);
    assert_eq!(with_jitter(100_000_000, 0), 100_000_000);
    assert_eq!(with_jitter(100_000_000, 25_000), 125_000_000);
}

#[test]
fn delays_grow_by_a_quarter_at_most() {
    assert_eq!(jittered_delay(0), 0);
    assert_eq!(jittered_delay(3_999), 3_999);
    let base = 100_000_000;
    let mut moved = false;
    for _ in 0..200 {
        let delay = jittered_delay(base);
        assert!(base <= delay && delay <= base + base / 4);
        moved = moved || delay != base;
    }
    assert!(moved);
}
