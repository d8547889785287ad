use libproof::codec::{bits, decimal_to_le32};
use libproof::envelope::{decode_envelope, encode_envelope};
use libproof::errors::Error;
use libproof::header::{generator_capacity, parse_header, validate_characteristic};
use libproof::backend::pedersen_default;
use libproof::constraints::generate_constraints;
use libproof::resolver::CsSession;
use libproof::orchestrator::{
    load_inputs, string_to_scalar, Prove, ProveSession, Verify, VerifySession,
};

const ORDER: &str = "7237005577332262213973186563042994240857116359379907606001950938285454250989";

fn header_line(c: u32, i: u32, w: u32) -> String {
    format!(
        "{{\"r1cs\": {{\"constraint_nb\": {}, \"instance_nb\": {}, \"witness_nb\": {}, \"field_characteristic\": \"{}\"}}}}",
        c, i, w, ORDER
    )
}

fn one_constraint(c: &str) -> Vec<String> {
    vec![format!(
        "{{\"A\": [[1, \"1\"]], \"B\": [[2, \"1\"]], \"C\": [[0, \"{}\"]]}}",
        c
    )]
}

#[test]
fn it_works() {
    assert_eq!(2 + 2, 4);
}

#[test]
fn prove_verify_round_trip() {
    let header = header_line(1, 1, 1);
    let lines = one_constraint("12");
    let assignment = "{\"inputs\": [\"3\"], \"witnesses\": [\"4\"]}";
    let envelope = Prove(&header, &lines, assignment).expect("proving should succeed");
    let envelope_str = String::from_utf8(envelope).expect("envelope is ASCII");
    let public = "{\"inputs\": [\"3\"]}";
    let accepted = Verify(&header, &lines, public, &envelope_str).expect("verifying should run");
    assert!(accepted);
}

#[test]
fn changed_constant_rejected() {
    let header = header_line(1, 1, 1);
    let lines = one_constraint("12");
    let assignment = "{\"inputs\": [\"3\"], \"witnesses\": [\"4\"]}";
    let envelope = Prove(&header, &lines, assignment).expect("proving should succeed");
    let envelope_str = String::from_utf8(envelope).unwrap();
    let tampered_lines = one_constraint("13");
    let r = Verify(&header, &tampered_lines, "{\"inputs\": [\"3\"]}", &envelope_str);
    assert!(!matches!(r, Ok(true)));
}

#[test]
fn unsatisfied_circuit_rejected() {
    // the witness 5 does not satisfy 3 * w = 12; proving still goes
    // through, verification must say no
    let header = header_line(1, 1, 1);
    let lines = one_constraint("12");
    let assignment = "{\"inputs\": [\"3\"], \"witnesses\": [\"5\"]}";
    let envelope = Prove(&header, &lines, assignment).expect("proving should succeed");
    let envelope_str = String::from_utf8(envelope).unwrap();
    let r = Verify(&header, &lines, "{\"inputs\": [\"3\"]}", &envelope_str);
    assert!(!matches!(r, Ok(true)));
}

#[test]
fn tampered_proof_rejected() {
    let header = header_line(1, 1, 1);
    let lines = one_constraint("12");
    let assignment = "{\"inputs\": [\"3\"], \"witnesses\": [\"4\"]}";
    let envelope = Prove(&header, &lines, assignment).expect("proving should succeed");
    let envelope_str = String::from_utf8(envelope).unwrap();
    let parsed: serde_json::Value = serde_json::from_str(&envelope_str).unwrap();
    let bytes = parsed.get("proof").unwrap().as_array().unwrap();
    let n = bytes.len();
    for flip_at in [0usize, n / 2, n - 1] {
        let mut copy: Vec<u64> = bytes.iter().map(|b| b.as_u64().unwrap()).collect();
        copy[flip_at] ^= 1;
        let rendered: Vec<String> = copy.iter().map(|b| b.to_string()).collect();
        let tampered = format!(
            "{{\"proof\": [{}], \"name\": \"no comment\", \"scheme\": \"dalek-bulletproof\"}}",
            rendered.join(", ")
        );
        let r = Verify(&header, &lines, "{\"inputs\": [\"3\"]}", &tampered);
        assert!(!matches!(r, Ok(true)), "flipping byte {} must reject", flip_at);
    }
}

#[test]
fn constant_index_in_combination() {
    // index 0 used inside A with coefficient 3: 3 * 1 * w = 12
    let header = header_line(1, 0, 1);
    let lines = vec![
        "{\"A\": [[0, \"3\"]], \"B\": [[1, \"1\"]], \"C\": [[0, \"12\"]]}".to_string(),
    ];
    let assignment = "{\"inputs\": [], \"witnesses\": [\"4\"]}";
    let envelope = Prove(&header, &lines, assignment).expect("proving should succeed");
    let envelope_str = String::from_utf8(envelope).unwrap();
    let accepted = Verify(&header, &lines, "{\"inputs\": []}", &envelope_str).unwrap();
    assert!(accepted);
}

#[test]
fn repeated_index_resolves_once() {
    // the same witness index on both sides of the multiplication: w * w = 16
    let header = header_line(1, 0, 1);
    let lines = vec![
        "{\"A\": [[1, \"1\"]], \"B\": [[1, \"1\"]], \"C\": [[0, \"16\"]]}".to_string(),
    ];
    let assignment = "{\"inputs\": [], \"witnesses\": [\"4\"]}";
    let envelope = Prove(&header, &lines, assignment).expect("proving should succeed");
    let envelope_str = String::from_utf8(envelope).unwrap();
    let accepted = Verify(&header, &lines, "{\"inputs\": []}", &envelope_str).unwrap();
    assert!(accepted);
}

#[test]
fn defining_constraint_chains() {
    // two records: first defines variable 2 as in*w, second constrains
    // that defined variable times 1 to equal 12
    let header = header_line(2, 1, 1);
    let lines = vec![
        "{\"A\": [[1, \"1\"]], \"B\": [[2, \"1\"]], \"C\": [[3, \"1\"]]}".to_string(),
        "{\"A\": [[3, \"1\"]], \"B\": [[0, \"1\"]], \"C\": [[0, \"12\"]]}".to_string(),
    ];
    let assignment = "{\"inputs\": [\"3\"], \"witnesses\": [\"4\"]}";
    let envelope = Prove(&header, &lines, assignment).expect("proving should succeed");
    let envelope_str = String::from_utf8(envelope).unwrap();
    let accepted = Verify(&header, &lines, "{\"inputs\": [\"3\"]}", &envelope_str).unwrap();
    assert!(accepted);
}

#[test]
fn bits_exact_values() {
    assert_eq!(bits(0), 0);
    assert_eq!(bits(1), 1);
    assert_eq!(bits(2), 2);
    assert_eq!(bits(3), 2);
    assert_eq!(bits(4), 3);
    assert_eq!(bits(255), 8);
    assert_eq!(bits(256), 9);
    assert_eq!(bits(u32::MAX), 32);
}

#[test]
fn bits_monotone_spot_checks() {
    let mut prev = 0u32;
    for n in [0u32, 1, 2, 3, 5, 16, 100, 1 << 20, u32::MAX] {
        let b = bits(n);
        assert!(b >= prev);
        prev = b;
    }
}

#[test]
fn generator_capacity_values() {
    assert_eq!(generator_capacity(0, 0), 1);
    assert_eq!(generator_capacity(1, 1), 4);
    assert_eq!(generator_capacity(3, 4), 8);
    assert_eq!(generator_capacity(8, 0), 16);
    assert_eq!(generator_capacity(u32::MAX, 1), 1 << 33);
}

#[test]
fn decimal_codec_matches_bignum() {
    let s = "4975441334397345751130612518500927154628011511324180036903450236863266160640";
    let fe = decimal_to_le32(s).expect("valid decimal");
    let big: num_bigint::BigUint = s.parse().unwrap();
    let mut expected = big.to_bytes_le();
    expected.resize(32, 0);
    assert_eq!(fe.bytes, expected);
}

#[test]
fn decimal_codec_small_values() {
    let fe = decimal_to_le32("0").unwrap();
    assert_eq!(fe.bytes, vec![0u8; 32]);
    let fe = decimal_to_le32("1").unwrap();
    let mut one = vec![0u8; 32];
    one[0] = 1;
    assert_eq!(fe.bytes, one);
    let fe = decimal_to_le32("65537").unwrap();
    let mut v = vec![0u8; 32];
    v[0] = 1;
    v[2] = 1;
    assert_eq!(fe.bytes, v);
}

#[test]
fn decimal_codec_rejects_bad_input() {
    assert!(decimal_to_le32("").is_none());
    assert!(decimal_to_le32("12a").is_none());
    assert!(decimal_to_le32("-5").is_none());
    assert!(decimal_to_le32(" 5").is_none());
    // 2^256 needs 33 bytes
    let too_big = "115792089237316195423570985008687907853269984665640564039457584007913129639936";
    assert!(decimal_to_le32(too_big).is_none());
    // 2^256 - 1 still fits
    let max = "115792089237316195423570985008687907853269984665640564039457584007913129639935";
    assert_eq!(decimal_to_le32(max).unwrap().bytes, vec![0xffu8; 32]);
}

#[test]
fn string_to_scalar_matches_backend() {
    let s = "4975441334397345751130612518500927154628011511324180036903450236863266160640";
    let scalar = string_to_scalar(s.to_string());
    let fe = decimal_to_le32(s).unwrap();
    let mut b = [0u8; 32];
    b.copy_from_slice(&fe.bytes);
    let expected = curve25519_dalek_ng::scalar::Scalar::from_bits(b);
    assert_eq!(scalar, expected);
}

#[test]
fn header_parses_and_validates() {
    let h = parse_header(&header_line(7, 2, 3)).unwrap();
    assert_eq!(h.constraint_nb, 7);
    assert_eq!(h.instance_nb, 2);
    assert_eq!(h.witness_nb, 3);
    assert_eq!(h.field_characteristic, ORDER);
    assert!(validate_characteristic(&h).is_ok());
}

#[test]
fn header_rejects_malformed() {
    assert!(matches!(parse_header("not json"), Err(Error::MalformedHeader)));
    assert!(matches!(parse_header("{}"), Err(Error::MalformedHeader)));
    assert!(matches!(
        parse_header("{\"r1cs\": {\"constraint_nb\": 1}}"),
        Err(Error::MalformedHeader)
    ));
    assert!(matches!(
        parse_header(
            "{\"r1cs\": {\"constraint_nb\": \"x\", \"instance_nb\": 1, \"witness_nb\": 1, \"field_characteristic\": \"7\"}}"
        ),
        Err(Error::MalformedHeader)
    ));
}

#[test]
fn wrong_characteristic_rejected() {
    let mut h = parse_header(&header_line(1, 1, 1)).unwrap();
    h.field_characteristic = "7".to_string();
    assert!(matches!(validate_characteristic(&h), Err(Error::InvalidField)));
    h.field_characteristic = "banana".to_string();
    assert!(matches!(validate_characteristic(&h), Err(Error::MalformedNumber)));
}

#[test]
fn invalid_field_aborts_session() {
    let header = format!(
        "{{\"r1cs\": {{\"constraint_nb\": 1, \"instance_nb\": 1, \"witness_nb\": 1, \"field_characteristic\": \"7\"}}}}"
    );
    let lines = one_constraint("12");
    let r = Prove(&header, &lines, "{\"inputs\": [\"3\"], \"witnesses\": [\"4\"]}");
    assert_eq!(r.unwrap_err(), Error::InvalidField);
}

#[test]
fn malformed_constraint_aborts() {
    let header = header_line(1, 1, 1);
    let lines = vec!["not json at all".to_string()];
    let r = Prove(&header, &lines, "{\"inputs\": [\"3\"], \"witnesses\": [\"4\"]}");
    assert_eq!(r.unwrap_err(), Error::MalformedConstraint);
}

#[test]
fn malformed_coefficient_aborts() {
    let header = header_line(1, 1, 1);
    let lines = vec![
        "{\"A\": [[1, \"x\"]], \"B\": [[2, \"1\"]], \"C\": [[0, \"12\"]]}".to_string(),
    ];
    let r = Prove(&header, &lines, "{\"inputs\": [\"3\"], \"witnesses\": [\"4\"]}");
    assert_eq!(r.unwrap_err(), Error::MalformedNumber);
}

#[test]
fn malformed_assignment_aborts() {
    let header = header_line(1, 1, 1);
    let lines = one_constraint("12");
    let r = Prove(&header, &lines, "{\"inputs\": [\"3\"]}");
    assert_eq!(r.unwrap_err(), Error::MalformedAssignment);
}

#[test]
fn out_of_range_witness_index_aborts() {
    // index 5 names a witness the prover never loaded
    let header = header_line(1, 1, 1);
    let lines = vec![
        "{\"A\": [[1, \"1\"]], \"B\": [[5, \"1\"]], \"C\": [[0, \"12\"]]}".to_string(),
    ];
    let r = Prove(&header, &lines, "{\"inputs\": [\"3\"], \"witnesses\": [\"4\"]}");
    assert_eq!(r.unwrap_err(), Error::IndexOutOfRange);
}

#[test]
fn corrupt_envelope_rejected() {
    let header = header_line(1, 1, 1);
    let lines = one_constraint("12");
    let r = Verify(&header, &lines, "{\"inputs\": [\"3\"]}", "{}");
    assert_eq!(r.unwrap_err(), Error::CorruptProof);
    let r = Verify(
        &header,
        &lines,
        "{\"inputs\": [\"3\"]}",
        "{\"proof\": [1, 2], \"name\": \"n\", \"scheme\": \"s\"}",
    );
    assert_eq!(r.unwrap_err(), Error::CorruptProof);
}

#[test]
fn envelope_round_trip() {
    let payload = vec![0u8, 1, 9, 10, 42, 99, 100, 200, 255];
    let encoded = encode_envelope(&payload);
    let text = String::from_utf8(encoded).unwrap();
    assert_eq!(
        text,
        "{\"proof\":[0,1,9,10,42,99,100,200,255],\"name\":\"no comment\",\"scheme\":\"dalek-bulletproof\"}"
    );
    let decoded = decode_envelope(&text).unwrap();
    assert_eq!(decoded.proof, payload);
    assert_eq!(decoded.name, "no comment");
    assert_eq!(decoded.scheme, "dalek-bulletproof");
    // serde_json agrees about the shape
    let v: serde_json::Value = serde_json::from_str(&text).unwrap();
    assert_eq!(v.get("proof").unwrap().as_array().unwrap().len(), 9);
}

#[test]
fn verifier_ignores_witness_array() {
    let r1 = load_inputs("{\"inputs\": [\"3\"]}", false).unwrap();
    assert_eq!(r1.input.len(), 1);
    assert_eq!(r1.witness.len(), 0);
    let r1 = load_inputs("{\"inputs\": [\"3\"], \"witnesses\": [\"4\"]}", true).unwrap();
    assert_eq!(r1.input.len(), 1);
    assert_eq!(r1.witness.len(), 1);
}

#[test]
fn streaming_sessions_round_trip() {
    let header = header_line(1, 1, 1);
    let assignment = "{\"inputs\": [\"3\"], \"witnesses\": [\"4\"]}";
    let pc = pedersen_default();
    let mut prover = ProveSession::begin(&pc, &header, assignment).unwrap();
    prover
        .feed("{\"A\": [[1, \"1\"]], \"B\": [[2, \"1\"]], \"C\": [[0, \"12\"]]}")
        .unwrap();
    let envelope = prover.finish().unwrap();
    let envelope_str = String::from_utf8(envelope).unwrap();
    let mut verifier = VerifySession::begin(&header, "{\"inputs\": [\"3\"]}").unwrap();
    verifier
        .feed("{\"A\": [[1, \"1\"]], \"B\": [[2, \"1\"]], \"C\": [[0, \"12\"]]}")
        .unwrap();
    assert!(verifier.finish(&envelope_str).unwrap());
}

#[test]
fn buffered_emission_matches_streaming() {
    let mut r1 = load_inputs("{\"inputs\": [\"3\"]}", false).unwrap();
    let mut cs = CsSession::new_verifier();
    let lines = vec![
        "{\"A\": [[1, \"1\"]], \"B\": [[2, \"1\"]], \"C\": [[0, \"12\"]]}".to_string(),
    ];
    assert!(generate_constraints(&mut cs, &lines, &mut r1, false).is_ok());
    let bad = vec!["nonsense".to_string()];
    let mut r2 = load_inputs("{\"inputs\": [\"3\"]}", false).unwrap();
    let mut cs2 = CsSession::new_verifier();
    assert_eq!(
        generate_constraints(&mut cs2, &bad, &mut r2, false),
        Err(Error::MalformedConstraint)
    );
}

#[test]
fn as_scalar_selects_by_range() {
    let r1 = load_inputs("{\"inputs\": [\"3\"], \"witnesses\": [\"4\"]}", true).unwrap();
    let one = r1.as_scalar(0);
    assert_eq!(one.bytes[0], 1);
    assert!(one.bytes[1..].iter().all(|b| *b == 0));
    let input = r1.as_scalar(1);
    assert_eq!(input.bytes[0], 3);
    let witness = r1.as_scalar(2);
    assert_eq!(witness.bytes[0], 4);
}

#[test]
fn value_at_group_order_rejected() {
    // spec: loaded values must be canonical, strictly below the group
    // order; the order itself is the first non-canonical value
    let header = header_line(1, 1, 1);
    let lines = one_constraint("12");
    let assignment = format!("{{\"inputs\": [\"3\"], \"witnesses\": [\"{}\"]}}", ORDER);
    let r = Prove(&header, &lines, &assignment);
    assert_eq!(r.unwrap_err(), Error::MalformedNumber);
    let bad_coef = vec![format!(
        "{{\"A\": [[1, \"{}\"]], \"B\": [[2, \"1\"]], \"C\": [[0, \"12\"]]}}",
        ORDER
    )];
    let r = Prove(&header, &bad_coef, "{\"inputs\": [\"3\"], \"witnesses\": [\"4\"]}");
    assert_eq!(r.unwrap_err(), Error::MalformedNumber);
}

#[test]
fn value_below_group_order_accepted() {
    // one below the group order is still canonical
    let below = "7237005577332262213973186563042994240857116359379907606001950938285454250988";
    let header = header_line(1, 1, 1);
    let lines = one_constraint("12");
    let assignment = format!("{{\"inputs\": [\"3\"], \"witnesses\": [\"{}\"]}}", below);
    // the assignment no longer satisfies the circuit, but loading and
    // proving must still go through
    assert!(Prove(&header, &lines, &assignment).is_ok());
}

#[test]
fn empty_header_line_rejected() {
    let lines = one_constraint("12");
    let r = Prove("", &lines, "{\"inputs\": [\"3\"], \"witnesses\": [\"4\"]}");
    assert_eq!(r.unwrap_err(), Error::MalformedHeader);
}
