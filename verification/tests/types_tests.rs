use ide_ui::types::{ConnectionValidation, DataType, PortDirection, PortId, PortSpec};

#[test]
fn test_type_compatibility() {
    assert!(DataType::Integer.is_compatible_with(&DataType::Integer));
    assert!(DataType::Integer.is_compatible_with(&DataType::Float));
    assert!(DataType::Any.is_compatible_with(&DataType::String));
    assert!(!DataType::String.is_compatible_with(&DataType::Boolean));
}

#[test]
fn test_port_compatibility() {
    let output = PortSpec::output("out", "Result", DataType::Integer);
    let input = PortSpec::input("in", "Value", DataType::Float);
    assert!(output.can_connect_to(&input));

    let input2 = PortSpec::input("in2", "Text", DataType::String);
    assert!(!output.can_connect_to(&input2));
}

#[test]
fn compatibility_is_symmetric_on_examples() {
    let all = vec![
        DataType::Any,
        DataType::Integer,
        DataType::Float,
        DataType::String,
        DataType::Boolean,
        DataType::Array(Box::new(DataType::Integer)),
        DataType::Array(Box::new(DataType::Float)),
        DataType::Array(Box::new(DataType::String)),
        DataType::Object,
        DataType::Function,
        DataType::ControlFlow,
        DataType::Custom("Point".to_string()),
        DataType::Custom("Line".to_string()),
        DataType::Void,
    ];
    for a in &all {
        assert!(a.is_compatible_with(a));
        assert!(DataType::Any.is_compatible_with(a));
        assert!(a.is_compatible_with(&DataType::Any));
        for b in &all {
            assert_eq!(a.is_compatible_with(b), b.is_compatible_with(a));
        }
    }
}

#[test]
fn array_compatibility_follows_elements() {
    let ai = DataType::Array(Box::new(DataType::Integer));
    let af = DataType::Array(Box::new(DataType::Float));
    let ab = DataType::Array(Box::new(DataType::Boolean));
    assert!(ai.is_compatible_with(&af));
    assert!(!ai.is_compatible_with(&ab));
    assert!(!ai.is_compatible_with(&DataType::Integer));
    assert!(!DataType::Custom("A".to_string()).is_compatible_with(&DataType::Custom("B".to_string())));
    assert!(DataType::Custom("A".to_string()).is_compatible_with(&DataType::Custom("A".to_string())));
    assert!(!DataType::ControlFlow.is_compatible_with(&DataType::Integer));
}

#[test]
fn display_names() {
    assert_eq!(DataType::Any.display_name(), "any");
    assert_eq!(DataType::Integer.display_name(), "int");
    assert_eq!(DataType::Float.display_name(), "float");
    assert_eq!(DataType::String.display_name(), "string");
    assert_eq!(DataType::Boolean.display_name(), "bool");
    assert_eq!(DataType::Object.display_name(), "object");
    assert_eq!(DataType::Function.display_name(), "function");
    assert_eq!(DataType::ControlFlow.display_name(), "exec");
    assert_eq!(DataType::Void.display_name(), "void");
    assert_eq!(DataType::Custom("Point".to_string()).display_name(), "Point");
    let nested = DataType::Array(Box::new(DataType::Array(Box::new(DataType::Integer))));
    assert_eq!(nested.display_name(), "int[][]");
}

#[test]
fn color_keys() {
    assert_eq!(DataType::Any.color_key(), "any");
    assert_eq!(DataType::Array(Box::new(DataType::String)).color_key(), "array");
    assert_eq!(DataType::ControlFlow.color_key(), "control");
    assert_eq!(DataType::Custom("X".to_string()).color_key(), "custom");
    assert_eq!(DataType::Void.color_key(), "void");
}

#[test]
fn port_directions() {
    assert!(PortDirection::Input.is_input());
    assert!(PortDirection::ExecInput.is_input());
    assert!(!PortDirection::Output.is_input());
    assert!(PortDirection::Output.is_output());
    assert!(PortDirection::ExecOutput.is_output());
    assert!(PortDirection::ExecInput.is_control());
    assert!(!PortDirection::Input.is_control());
    for d in [PortDirection::Input, PortDirection::Output, PortDirection::ExecInput, PortDirection::ExecOutput] {
        assert_eq!(d.opposite().opposite(), d);
        assert_eq!(d.opposite().is_input(), d.is_output());
    }
    assert_eq!(PortDirection::Input.opposite(), PortDirection::Output);
    assert_eq!(PortDirection::ExecOutput.opposite(), PortDirection::ExecInput);
}

#[test]
fn port_builders() {
    let p = PortSpec::input("a", "A", DataType::Integer);
    assert_eq!(p.id, "a");
    assert_eq!(p.name, "A");
    assert_eq!(p.direction, PortDirection::Input);
    assert!(p.required);
    assert_eq!(p.default_value, None);
    assert_eq!(p.description, "");

    let p = p.required(false);
    assert!(!p.required);
    let q = PortSpec::input("b", "B", DataType::Float).default("1.5");
    assert!(!q.required);
    assert_eq!(q.default_value.as_deref(), Some("1.5"));
    let r = PortSpec::output("o", "O", DataType::String).description("the result");
    assert_eq!(r.description, "the result");

    let e = PortSpec::exec_input("exec", "Exec");
    assert_eq!(e.direction, PortDirection::ExecInput);
    assert_eq!(e.data_type, DataType::ControlFlow);
    let x = PortSpec::exec_output("next", "Next");
    assert_eq!(x.direction, PortDirection::ExecOutput);
    assert!(x.can_connect_to(&e));
    assert!(e.can_connect_to(&x));
}

#[test]
fn connectability_rules() {
    let out_int = PortSpec::output("o", "O", DataType::Integer);
    let in_int = PortSpec::input("i", "I", DataType::Integer);
    let out_float = PortSpec::output("o2", "O", DataType::Float);
    let exec_in = PortSpec::exec_input("e", "E");
    assert!(!out_int.can_connect_to(&out_float));
    assert!(in_int.can_connect_to(&out_int));
    assert!(!exec_in.can_connect_to(&out_int));
    assert!(!out_int.can_connect_to(&exec_in));
}

#[test]
fn port_ids() {
    let p = PortId::new("block_1", "out");
    assert_eq!(p.block_id, "block_1");
    assert_eq!(p.port_id, "out");
}

#[test]
fn validation_messages() {
    assert!(ConnectionValidation::Valid.is_valid());
    assert_eq!(ConnectionValidation::Valid.error_message(), None);
    let v = ConnectionValidation::IncompatibleTypes {
        source_type: DataType::String,
        target_type: DataType::Array(Box::new(DataType::Integer)),
    };
    assert!(!v.is_valid());
    assert_eq!(v.error_message().unwrap(), "Type mismatch: string is not compatible with int[]");
    assert_eq!(
        ConnectionValidation::SameDirection.error_message().unwrap(),
        "Cannot connect ports with the same direction"
    );
    assert_eq!(
        ConnectionValidation::ControlDataMismatch.error_message().unwrap(),
        "Cannot connect control flow to data ports"
    );
    assert_eq!(ConnectionValidation::WouldCreateCycle.error_message().unwrap(), "Connection would create a cycle");
    assert_eq!(
        ConnectionValidation::TargetAlreadyConnected.error_message().unwrap(),
        "Target port is already connected"
    );
    assert_eq!(ConnectionValidation::SelfConnection.error_message().unwrap(), "Cannot connect a block to itself");
}
