use std::cell::Cell;

use ipc_codegen::codec::Value;
use ipc_codegen::emitter::generate;
use ipc_codegen::interface::{DispatchOutcome, Handler, IpcInterface, IpcServer};
use ipc_codegen::model::{MethodDef, Parameter, ServiceDef};

fn param(name: &str, ty: &str) -> Parameter {
    Parameter { name: name.to_string(), ty: ty.to_string() }
}

fn method(name: &str, params: Vec<Parameter>, ret: Option<&str>) -> MethodDef {
    MethodDef { name: name.to_string(), params, return_type: ret.map(|t| t.to_string()) }
}

fn calculator_service() -> ServiceDef {
    ServiceDef {
        name: "Calculator".to_string(),
        methods: vec![
            method(
                "add",
                vec![param("self", ""), param("a", "i32"), param("b", "i32")],
                Some("i32"),
            ),
            method("ping", vec![param("self", "")], None),
        ],
    }
}

struct Calculator {
    calls: Cell<u32>,
}

impl Handler for Calculator {
    fn handle(&self, ordinal: u16, args: Vec<Value>) -> Value {
        self.calls.set(self.calls.get() + 1);
        match ordinal {
            0 => match (args[0], args[1]) {
                (Value::I32(a), Value::I32(b)) => Value::I32(a + b),
                _ => panic!("add expects two i32 arguments"),
            },
            1 => Value::Unit,
            _ => panic!("the dispatcher must not invoke an unknown ordinal"),
        }
    }
}

fn calculator_server() -> IpcServer<Calculator> {
    let artifact =
        generate(&calculator_service()).unwrap_or_else(|_| panic!("generation failed"));
    IpcServer::new(artifact, Calculator { calls: Cell::new(0) })
}

#[test]
fn add_scenario_returns_encoded_sum() {
    let server = calculator_server();
    let request = vec![0x00u8, 0x00, 2, 0, 0, 0, 3, 0, 0, 0];
    let outcome = server.dispatch(&request);
    assert!(matches!(outcome, DispatchOutcome::Reply(_)));
    assert_eq!(outcome.into_bytes(), vec![5u8, 0, 0, 0]);
    assert_eq!(server.service.calls.get(), 1);
}

#[test]
fn ping_scenario_returns_empty_bytes() {
    let server = calculator_server();
    let outcome = server.dispatch(&vec![0x01u8, 0x00]);
    assert!(matches!(outcome, DispatchOutcome::Reply(_)));
    assert!(outcome.into_bytes().is_empty());
    assert_eq!(server.service.calls.get(), 1);
}

#[test]
fn unknown_ordinal_invokes_nothing() {
    let server = calculator_server();
    let outcome = server.dispatch(&vec![0x02u8, 0x00]);
    assert!(matches!(outcome, DispatchOutcome::UnknownOrdinal));
    assert!(outcome.into_bytes().is_empty());
    assert_eq!(server.service.calls.get(), 0);
}

#[test]
fn empty_request_is_clean_eof() {
    let server = calculator_server();
    let outcome = server.dispatch(&Vec::new());
    assert!(matches!(outcome, DispatchOutcome::CleanEof));
    assert!(outcome.into_bytes().is_empty());
    assert_eq!(server.service.calls.get(), 0);
}

#[test]
fn one_byte_request_is_fatal() {
    let server = calculator_server();
    let outcome = server.dispatch(&vec![0x00u8]);
    assert!(matches!(outcome, DispatchOutcome::TruncatedOrdinal));
    assert_eq!(server.service.calls.get(), 0);
}

#[test]
fn short_payload_is_malformed() {
    let server = calculator_server();
    let outcome = server.dispatch(&vec![0x00u8, 0x00, 2, 0]);
    assert!(matches!(outcome, DispatchOutcome::MalformedPayload));
    assert_eq!(server.service.calls.get(), 0);
}

#[test]
fn leftover_payload_is_malformed() {
    let server = calculator_server();
    let outcome = server.dispatch(&vec![0x01u8, 0x00, 9]);
    assert!(matches!(outcome, DispatchOutcome::MalformedPayload));
    assert_eq!(server.service.calls.get(), 0);
}

#[test]
fn unknown_type_descriptor_is_malformed() {
    let service = ServiceDef {
        name: "Texty".to_string(),
        methods: vec![method("shout", vec![param("self", ""), param("s", "String")], None)],
    };
    let artifact = generate(&service).unwrap_or_else(|_| panic!("generation failed"));
    let server = IpcServer::new(artifact, Calculator { calls: Cell::new(0) });
    let outcome = server.dispatch(&vec![0x00u8, 0x00, 1, 2, 3]);
    assert!(matches!(outcome, DispatchOutcome::MalformedPayload));
    assert_eq!(server.service.calls.get(), 0);
}

#[test]
fn invoke_frames_ordinal_then_payload() {
    let server = calculator_server();
    let frame = server.invoke(7, &Some(vec![9u8, 8u8]));
    assert_eq!(frame, vec![7u8, 0, 9, 8]);
    let bare = server.invoke(0x1234, &None);
    assert_eq!(bare, vec![0x34u8, 0x12]);
}

#[test]
fn invoke_frame_dispatches_symmetrically() {
    let server = calculator_server();
    let frame = server.invoke(0, &Some(vec![2, 0, 0, 0, 3, 0, 0, 0]));
    let outcome = server.dispatch(&frame);
    assert_eq!(outcome.into_bytes(), vec![5u8, 0, 0, 0]);
}

#[test]
fn input_payload_sizes_are_fixed_by_shape() {
    let server = calculator_server();
    assert_eq!(server.artifact.input_payload_size(0), Some(8));
    assert_eq!(server.artifact.input_payload_size(1), Some(0));
    assert_eq!(server.artifact.input_payload_size(2), None);
}

struct Mixer;

impl Handler for Mixer {
    fn handle(&self, ordinal: u16, args: Vec<Value>) -> Value {
        assert_eq!(ordinal, 0);
        match (args[0], args[1], args[2]) {
            (Value::Bool(f), Value::U8(g), Value::U64(h)) => {
                Value::U64(if f { h + g as u64 } else { h })
            }
            _ => panic!("mix expects bool, u8, u64"),
        }
    }
}

#[test]
fn mixed_kinds_dispatch() {
    let service = ServiceDef {
        name: "Mixer".to_string(),
        methods: vec![method(
            "mix",
            vec![param("self", ""), param("f", "bool"), param("g", "u8"), param("h", "u64")],
            Some("u64"),
        )],
    };
    let artifact = generate(&service).unwrap_or_else(|_| panic!("generation failed"));
    assert_eq!(artifact.input_payload_size(0), Some(1 + 1 + 8));
    let server = IpcServer::new(artifact, Mixer);
    let mut request = vec![0x00u8, 0x00, 1, 5];
    request.extend_from_slice(&300u64.to_le_bytes());
    let outcome = server.dispatch(&request);
    assert_eq!(outcome.into_bytes(), 305u64.to_le_bytes().to_vec());
}

#[test]
fn empty_service_answers_every_ordinal_with_nothing() {
    let service = ServiceDef { name: "Idle".to_string(), methods: vec![] };
    let artifact = generate(&service).unwrap_or_else(|_| panic!("generation failed"));
    assert!(artifact.arms.is_empty());
    assert!(artifact.records.is_empty());
    let server = IpcServer::new(artifact, Mixer);
    let outcome = server.dispatch(&vec![0x00u8, 0x00]);
    assert!(matches!(outcome, DispatchOutcome::UnknownOrdinal));
    assert!(outcome.into_bytes().is_empty());
}
