use ipc_codegen::emitter::generate;
use ipc_codegen::error::ErrorKind;
use ipc_codegen::model::{MethodDef, Parameter, ServiceDef};

fn param(name: &str, ty: &str) -> Parameter {
    Parameter { name: name.to_string(), ty: ty.to_string() }
}

fn method(name: &str, params: Vec<Parameter>, ret: Option<&str>) -> MethodDef {
    MethodDef { name: name.to_string(), params, return_type: ret.map(|t| t.to_string()) }
}

fn sample_service() -> ServiceDef {
    ServiceDef {
        name: "Calculator".to_string(),
        methods: vec![
            method(
                "add",
                vec![param("self", ""), param("a", "i32"), param("b", "i32")],
                Some("i32"),
            ),
            method("ping", vec![param("self", "")], None),
        ],
    }
}

#[test]
fn ordinal_determinism_two_runs() {
    let a1 = generate(&sample_service()).unwrap_or_else(|_| panic!("generation failed"));
    let a2 = generate(&sample_service()).unwrap_or_else(|_| panic!("generation failed"));
    assert_eq!(a1.arms.len(), 2);
    assert_eq!(a2.arms.len(), 2);
    for i in 0..a1.arms.len() {
        assert_eq!(a1.arms[i].ordinal, i as u16);
        assert_eq!(a2.arms[i].ordinal, i as u16);
        assert_eq!(a1.arms[i].method_name, a2.arms[i].method_name);
    }
    assert_eq!(a1.arms[0].method_name, "add");
    assert_eq!(a1.arms[1].method_name, "ping");
}

#[test]
fn record_shape_two_params() {
    let a = generate(&sample_service()).unwrap_or_else(|_| panic!("generation failed"));
    let input = a.arms[0].input_record.as_ref().expect("add needs an input record");
    assert_eq!(input.name, "add_input");
    assert_eq!(input.fields.len(), 2);
    assert_eq!(input.fields[0].name, "a");
    assert_eq!(input.fields[0].ty, "i32");
    assert_eq!(input.fields[1].name, "b");
    assert_eq!(input.fields[1].ty, "i32");
}

#[test]
fn output_record_wraps_payload() {
    let a = generate(&sample_service()).unwrap_or_else(|_| panic!("generation failed"));
    let output = a.arms[0].output_record.as_ref().expect("add needs an output record");
    assert_eq!(output.name, "add_output");
    assert_eq!(output.fields.len(), 1);
    assert_eq!(output.fields[0].name, "payload");
    assert_eq!(output.fields[0].ty, "i32");
}

#[test]
fn no_real_params_no_records() {
    let a = generate(&sample_service()).unwrap_or_else(|_| panic!("generation failed"));
    assert!(a.arms[1].input_record.is_none());
    assert!(a.arms[1].output_record.is_none());
}

#[test]
fn single_param_still_gets_a_record() {
    let s = ServiceDef {
        name: "Echo".to_string(),
        methods: vec![method("echo", vec![param("self", ""), param("x", "u64")], Some("u64"))],
    };
    let a = generate(&s).unwrap_or_else(|_| panic!("generation failed"));
    let input = a.arms[0].input_record.as_ref().expect("one real parameter still needs a record");
    assert_eq!(input.fields.len(), 1);
    assert_eq!(input.fields[0].name, "x");
}

#[test]
fn receiverless_method_keeps_all_params() {
    let s = ServiceDef {
        name: "Free".to_string(),
        methods: vec![method("sum", vec![param("a", "i32"), param("b", "i32")], Some("i32"))],
    };
    let a = generate(&s).unwrap_or_else(|_| panic!("generation failed"));
    let input = a.arms[0].input_record.as_ref().expect("two real parameters need a record");
    assert_eq!(input.fields.len(), 2);
    assert_eq!(input.fields[0].name, "a");
}

#[test]
fn records_are_registered_in_namespace() {
    let a = generate(&sample_service()).unwrap_or_else(|_| panic!("generation failed"));
    assert_eq!(a.records.len(), 2);
    assert_eq!(a.records[0].name, "add_input");
    assert_eq!(a.records[1].name, "add_output");
    assert_eq!(a.service_name, "Calculator");
}

#[test]
fn misplaced_receiver_is_malformed() {
    let s = ServiceDef {
        name: "Bad".to_string(),
        methods: vec![method("m", vec![param("a", "i32"), param("self", "")], None)],
    };
    match generate(&s) {
        Ok(_) => panic!("a misplaced receiver must be rejected"),
        Err(e) => {
            assert!(matches!(e.kind, ErrorKind::MalformedSignature));
            assert_eq!(e.method, "m");
            assert_eq!(e.position, 1);
            assert_eq!(e.name, "self");
        }
    }
}

#[test]
fn duplicate_field_is_rejected() {
    let s = ServiceDef {
        name: "Bad".to_string(),
        methods: vec![method(
            "m",
            vec![param("self", ""), param("x", "i32"), param("x", "u64")],
            None,
        )],
    };
    match generate(&s) {
        Ok(_) => panic!("a duplicated field name must be rejected"),
        Err(e) => {
            assert!(matches!(e.kind, ErrorKind::DuplicateField));
            assert_eq!(e.method, "m");
            assert_eq!(e.name, "x");
            assert_eq!(e.position, 1);
        }
    }
}

#[test]
fn duplicate_type_name_reports_both_methods() {
    let s = ServiceDef {
        name: "Bad".to_string(),
        methods: vec![
            method("m", vec![param("self", ""), param("x", "i32")], None),
            method("m", vec![param("self", ""), param("y", "u64")], None),
        ],
    };
    match generate(&s) {
        Ok(_) => panic!("a colliding record name must be rejected"),
        Err(e) => {
            assert!(matches!(e.kind, ErrorKind::DuplicateTypeName));
            assert_eq!(e.name, "m_input");
            assert_eq!(e.method, "m");
            assert_eq!(e.other_method, "m");
        }
    }
}

#[test]
fn error_ordering_malformed_before_duplicate() {
    // The receiver check comes first: a method that is both malformed and
    // carries a duplicate field reports the malformed signature.
    let s = ServiceDef {
        name: "Bad".to_string(),
        methods: vec![method(
            "m",
            vec![param("self", ""), param("x", "i32"), param("x", "i32"), param("self", "")],
            None,
        )],
    };
    match generate(&s) {
        Ok(_) => panic!("must be rejected"),
        Err(e) => {
            assert!(matches!(e.kind, ErrorKind::MalformedSignature));
            assert_eq!(e.position, 3);
        }
    }
}

#[test]
fn generation_stops_at_first_failing_method() {
    let s = ServiceDef {
        name: "Mixed".to_string(),
        methods: vec![
            method("ok", vec![param("self", ""), param("x", "i32")], None),
            method("bad", vec![param("y", "i32"), param("self", "")], None),
        ],
    };
    match generate(&s) {
        Ok(_) => panic!("must be rejected"),
        Err(e) => {
            assert!(matches!(e.kind, ErrorKind::MalformedSignature));
            assert_eq!(e.method, "bad");
        }
    }
}
