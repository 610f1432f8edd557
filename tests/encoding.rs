use system_ingest::json_text::{encode_opt_int, encode_opt_list};
use system_ingest::record::{
    check_document, document_to_properties, encode, planet_ids, prepare_unit, transform,
    DetailDocument, ErrorKind, PlanetDoc, Position, RawDocument,
};

fn position() -> Position {
    Position { x_bits: 1.5f64.to_bits(), y_bits: (-2.25f64).to_bits(), z_bits: 0.0f64.to_bits() }
}

fn full_raw() -> RawDocument {
    RawDocument {
        system_id: Some(30000142),
        name: Some("Jita".to_string()),
        constellation_id: Some(20000020),
        security_status_bits: Some(0.9459131360054016f64.to_bits()),
        security_class: Some("B".to_string()),
        star_id: Some(40009076),
        stargates: Some(vec![50001248, 50001249]),
        planets: Some(vec![
            PlanetDoc { planet_id: 40009077, moons: None, asteroid_belts: None },
            PlanetDoc {
                planet_id: 40009078,
                moons: Some(vec![40009079]),
                asteroid_belts: Some(vec![40009080, 40009081]),
            },
        ]),
        position: Some(position()),
    }
}

fn sparse_detail() -> DetailDocument {
    DetailDocument {
        system_id: 30000144,
        name: None,
        constellation_id: None,
        security_status_bits: (-0.5f64).to_bits(),
        security_class: None,
        star_id: None,
        stargates: None,
        planets: None,
        position: position(),
    }
}

#[test]
fn optional_integer_text() {
    assert_eq!(encode_opt_int(&Some(30000142)), "30000142");
    assert_eq!(encode_opt_int(&Some(0)), "0");
    assert_eq!(encode_opt_int(&Some(-17)), "-17");
    assert_eq!(encode_opt_int(&Some(i64::MIN)), "-9223372036854775808");
    assert_eq!(encode_opt_int(&Some(i64::MAX)), "9223372036854775807");
    assert_eq!(encode_opt_int(&None), "null");
}

#[test]
fn optional_list_text() {
    assert_eq!(encode_opt_list(&Some(vec![1, 2, 3])), "[1,2,3]");
    assert_eq!(encode_opt_list(&Some(vec![-4])), "[-4]");
    assert_eq!(encode_opt_list(&Some(vec![])), "[]");
    assert_eq!(encode_opt_list(&None), "null");
}

#[test]
fn missing_position_is_decode_error() {
    let mut raw = full_raw();
    raw.position = None;
    assert!(matches!(check_document(raw.clone()), Err(ErrorKind::Decode)));
    assert!(matches!(prepare_unit(Ok(raw)), Err(ErrorKind::Decode)));
}

#[test]
fn missing_system_id_or_status_is_decode_error() {
    let mut raw = full_raw();
    raw.system_id = None;
    assert!(matches!(check_document(raw), Err(ErrorKind::Decode)));
    let mut raw = full_raw();
    raw.security_status_bits = None;
    assert!(matches!(check_document(raw), Err(ErrorKind::Decode)));
}

#[test]
fn fetch_error_is_kept() {
    assert!(matches!(prepare_unit(Err(ErrorKind::Transport)), Err(ErrorKind::Transport)));
    assert!(matches!(prepare_unit(Err(ErrorKind::Decode)), Err(ErrorKind::Decode)));
}

#[test]
fn transform_flattens_document() {
    let doc = check_document(full_raw()).unwrap();
    let rec = transform(doc);
    assert_eq!(rec.system_id, 30000142);
    assert_eq!(rec.name.as_deref(), Some("Jita"));
    assert_eq!(f64::from_bits(rec.x_bits), 1.5);
    assert_eq!(f64::from_bits(rec.y_bits), -2.25);
    assert_eq!(f64::from_bits(rec.z_bits), 0.0);
    assert_eq!(rec.planet_ids, Some(vec![40009077, 40009078]));
    assert_eq!(rec.stargate_ids, Some(vec![50001248, 50001249]));
    assert_eq!(rec.star_id, Some(40009076));
}

#[test]
fn planet_ids_drop_moons_and_belts() {
    let planets = vec![
        PlanetDoc { planet_id: 7, moons: Some(vec![8, 9]), asteroid_belts: Some(vec![10]) },
        PlanetDoc { planet_id: 11, moons: None, asteroid_belts: None },
    ];
    assert_eq!(planet_ids(&planets), vec![7, 11]);
    assert_eq!(planet_ids(&vec![]), Vec::<i64>::new());
}

#[test]
fn encode_full_record() {
    let props = encode(&transform(check_document(full_raw()).unwrap()));
    assert_eq!(props.system_id, 30000142);
    assert_eq!(props.name, "Jita");
    assert_eq!(props.constellation_id, "20000020");
    assert_eq!(props.star_id, "40009076");
    assert_eq!(props.security_class, "B");
    assert_eq!(props.planets, "[40009077,40009078]");
    assert_eq!(props.stargates, "[50001248,50001249]");
    assert_eq!(f64::from_bits(props.security_status_bits), 0.9459131360054016);
}

#[test]
fn encode_absent_fields() {
    let props = document_to_properties(sparse_detail());
    assert_eq!(props.system_id, 30000144);
    assert_eq!(props.name, "");
    assert_eq!(props.security_class, "");
    assert_eq!(props.constellation_id, "null");
    assert_eq!(props.star_id, "null");
    assert_eq!(props.planets, "null");
    assert_eq!(props.stargates, "null");
    assert_eq!(f64::from_bits(props.security_status_bits), -0.5);
}

#[test]
fn encoding_is_deterministic() {
    let a = prepare_unit(Ok(full_raw())).unwrap();
    let b = prepare_unit(Ok(full_raw())).unwrap();
    assert_eq!(a.name.as_bytes(), b.name.as_bytes());
    assert_eq!(a.constellation_id.as_bytes(), b.constellation_id.as_bytes());
    assert_eq!(a.star_id.as_bytes(), b.star_id.as_bytes());
    assert_eq!(a.security_class.as_bytes(), b.security_class.as_bytes());
    assert_eq!(a.planets.as_bytes(), b.planets.as_bytes());
    assert_eq!(a.stargates.as_bytes(), b.stargates.as_bytes());
    assert_eq!(
        (a.system_id, a.security_status_bits, a.x_bits, a.y_bits, a.z_bits),
        (b.system_id, b.security_status_bits, b.x_bits, b.y_bits, b.z_bits)
    );
}
