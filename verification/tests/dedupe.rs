use ledger::import::dedupe::{build_dedupe_key, dedupe_material_text};

// 2026-04-20T10:00:00Z
const APRIL_20_10H: i64 = 1776679200;

#[test]
fn dedupe_key_should_be_stable() {
    let user_id = uuid::Uuid::new_v4().as_u128();
    let dt = APRIL_20_10H;
    let key1 = build_dedupe_key(
        user_id,
        Some("shinhan_card"),
        dt,
        10000,
        Some("스타벅스"),
        Some("커피"),
        None,
        None,
        Some("1234"),
    );
    let key2 = build_dedupe_key(
        user_id,
        Some("shinhan_card"),
        dt,
        10000,
        Some("스타벅스"),
        Some("커피"),
        None,
        None,
        Some("1234"),
    );
    assert_eq!(key1, key2);
}

#[test]
fn dedupe_key_changes_on_amount() {
    let user_id = uuid::Uuid::new_v4().as_u128();
    let dt = 1_700_000_000;
    let a = build_dedupe_key(user_id, None, dt, 1000, None, None, None, None, None);
    let b = build_dedupe_key(user_id, None, dt, 2000, None, None, None, None, None);
    assert_ne!(a, b);
}

#[test]
fn dedupe_key_is_lowercase_hex_sha256() {
    let key = build_dedupe_key(7, Some("Shinhan_Card"), APRIL_20_10H, 5, None, None, None, None, None).unwrap();
    assert_eq!(key.len(), 64);
    assert!(key.chars().all(|c| c.is_ascii_hexdigit() && !c.is_ascii_uppercase()));
}

#[test]
fn dedupe_key_ignores_case_and_surrounding_space() {
    let a = build_dedupe_key(7, Some("Shinhan_Card"), APRIL_20_10H, 5, Some(" Cafe "), None, None, None, None);
    let b = build_dedupe_key(7, Some("shinhan_card"), APRIL_20_10H, 5, Some("cafe"), None, None, None, None);
    assert_eq!(a, b);
}

#[test]
fn dedupe_key_depends_on_user_and_time() {
    let a = build_dedupe_key(1, None, APRIL_20_10H, 5, None, None, None, None, None);
    let b = build_dedupe_key(2, None, APRIL_20_10H, 5, None, None, None, None, None);
    let c = build_dedupe_key(1, None, APRIL_20_10H + 1, 5, None, None, None, None, None);
    assert_ne!(a, b);
    assert_ne!(a, c);
}

#[test]
fn dedupe_material_joins_normalized_fields() {
    let text = dedupe_material_text(0, None, "2026-04-20T10:00:00", 5, None, None, None, None, None);
    assert_eq!(text, "00000000-0000-0000-0000-000000000000|unknown|2026-04-20T10:00:00|5|||||none");
    let text = dedupe_material_text(
        7,
        Some(" Shinhan_Card "),
        "2026-04-20T10:00:00",
        10000,
        Some("스타벅스"),
        Some("커피"),
        Some(0x1234),
        None,
        Some("1234"),
    );
    assert_eq!(
        text,
        "00000000-0000-0000-0000-000000000007|shinhan_card|2026-04-20T10:00:00|10000|스타벅스|커피|00000000-0000-0000-0000-000000001234||1234"
    );
}

#[test]
fn dedupe_key_is_sha256_of_the_material() {
    let key = build_dedupe_key(0, None, APRIL_20_10H, 5, None, None, None, None, None).unwrap();
    assert_eq!(key, "2eb705d91a91081133d9ba5f1a1f84e412d88ac3da71efc18dffeea39bfd5bef");
    let key = build_dedupe_key(7, Some("shinhan_card"), APRIL_20_10H, 10000, Some("스타벅스"), Some("커피"), None, None, Some("1234"))
        .unwrap();
    assert_eq!(key, "ecfa0039034b83d05160479e3341f492b828e5b246905259bdfcd186000c7005");
}
