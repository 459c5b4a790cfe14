use code_sandbox::code_node::{
    call_arguments, output_from_outcome, synthesize_program, CodeNode, CodeNodeError, HandleType,
};
use code_sandbox::python_sandbox::{MockPythonSandbox, PythonSandboxResult};

fn pairs(items: &[(&str, &str)]) -> Vec<(String, String)> {
    items.iter().map(|(k, v)| (k.to_string(), v.to_string())).collect()
}

const CODE: &str = "def main(x):\n    print(x)";

#[test]
fn arguments_join_entries_with_comma() {
    assert_eq!(call_arguments(&pairs(&[("x", "5"), ("y", "'a'")])), "x=5, y='a'");
    assert_eq!(call_arguments(&pairs(&[("only", "1")])), "only=1");
    assert_eq!(call_arguments(&Vec::new()), "");
}

#[test]
fn arguments_hold_one_entry_per_input_in_any_order() {
    let a = call_arguments(&pairs(&[("a", "1"), ("b", "2"), ("c", "3")]));
    let b = call_arguments(&pairs(&[("c", "3"), ("a", "1"), ("b", "2")]));
    let mut ea: Vec<&str> = a.split(", ").collect();
    let mut eb: Vec<&str> = b.split(", ").collect();
    assert_eq!(ea.len(), 3);
    ea.sort();
    eb.sort();
    assert_eq!(ea, vec!["a=1", "b=2", "c=3"]);
    assert_eq!(ea, eb);
}

#[test]
fn program_ends_with_main_call() {
    let text = synthesize_program(&CODE.to_string(), &pairs(&[("x", "5")]));
    assert!(text.ends_with("main(x=5)"));
    assert_eq!(text, "def main(x):\n    print(x)\n\nmain(x=5)");
    let none = synthesize_program(&"pass".to_string(), &Vec::new());
    assert_eq!(none, "pass\n\nmain()");
}

#[test]
fn remote_outcome_gives_first_text() {
    let outcome = PythonSandboxResult::from_parts(
        vec![("5".to_string(), None)],
        "5\n".to_string(),
        String::new(),
    );
    match output_from_outcome(outcome) {
        Ok(t) => assert_eq!(t, "5"),
        Err(_) => panic!("expected an output"),
    }
}

#[test]
fn output_ignores_image_and_later_results() {
    let outcome = PythonSandboxResult::from_parts(
        vec![
            ("first".to_string(), Some("aW1n".to_string())),
            ("second".to_string(), None),
        ],
        "out".to_string(),
        "err".to_string(),
    );
    match output_from_outcome(outcome) {
        Ok(t) => assert_eq!(t, "first"),
        Err(_) => panic!("expected an output"),
    }
}

#[test]
fn empty_results_fail_with_stderr() {
    let outcome = PythonSandboxResult::from_parts(
        Vec::new(),
        String::new(),
        "NameError: x is not defined".to_string(),
    );
    match output_from_outcome(outcome) {
        Err(CodeNodeError::UserCode(m)) => assert_eq!(m, "NameError: x is not defined"),
        _ => panic!("expected a user code failure"),
    }
}

#[test]
fn empty_results_and_stderr_fail_with_empty_message() {
    let outcome = PythonSandboxResult::from_parts(Vec::new(), "printed".to_string(), String::new());
    match output_from_outcome(outcome) {
        Err(CodeNodeError::UserCode(m)) => assert_eq!(m, ""),
        _ => panic!("expected a user code failure"),
    }
}

#[test]
fn node_without_output_fails_before_running() {
    let mut node = CodeNode::from_params("n", vec!["x"], CODE.to_string());
    node.outputs.clear();
    assert!(matches!(node.program_for(&pairs(&[("x", "5")])), Err(CodeNodeError::NoOutputHandle)));
    assert!(matches!(
        node.run(&pairs(&[("x", "5")]), &MockPythonSandbox {}),
        Err(CodeNodeError::NoOutputHandle)
    ));
    assert!(matches!(node.run(&Vec::new(), &MockPythonSandbox {}), Err(CodeNodeError::NoOutputHandle)));
}

#[test]
fn program_for_node_with_output() {
    let node = CodeNode::from_params("n", vec!["x"], CODE.to_string());
    match node.program_for(&pairs(&[("x", "5")])) {
        Ok(t) => assert_eq!(t, "def main(x):\n    print(x)\n\nmain(x=5)"),
        Err(_) => panic!("expected a program"),
    }
}

#[test]
fn mock_backed_node_fails_with_empty_message() {
    let node = CodeNode::from_params("n", vec!["x"], CODE.to_string());
    match node.run(&pairs(&[("x", "5")]), &MockPythonSandbox {}) {
        Err(CodeNodeError::UserCode(m)) => assert_eq!(m, ""),
        _ => panic!("expected a user code failure"),
    }
}

#[test]
fn from_params_builds_handles() {
    let node = CodeNode::from_params("adder", vec!["a", "b", "c"], "code".to_string());
    assert_eq!(node.name, "adder");
    assert_eq!(node.code, "code");
    assert_eq!(node.inputs.len(), 3);
    let names: Vec<String> = node.inputs.iter().map(|h| h.name.clone().unwrap()).collect();
    assert_eq!(names, vec!["a", "b", "c"]);
    for i in 0..3 {
        for j in (i + 1)..3 {
            assert_ne!(node.inputs[i].id, node.inputs[j].id);
        }
        assert_ne!(node.inputs[i].id, node.outputs[0].id);
        assert!(matches!(node.inputs[i].handle_type, HandleType::Any));
        assert!(!node.inputs[i].is_cyclic);
    }
    assert_eq!(node.outputs.len(), 1);
    assert_eq!(node.outputs[0].name.as_deref(), Some("output"));
    assert!(node.inputs_mappings.is_empty());
    assert_eq!((node.id >> 76) & 0xf, 4);
}

#[test]
fn from_params_with_no_inputs() {
    let node = CodeNode::from_params("empty", Vec::new(), String::new());
    assert!(node.inputs.is_empty());
    assert_eq!(node.outputs.len(), 1);
}

#[test]
fn with_ids_uses_given_ids() {
    let node = CodeNode::with_ids("n", &vec!["p", "q"], "c".to_string(), 7, &vec![10, 11], 12);
    assert_eq!(node.node_id(), 7);
    assert_eq!(node.inputs[0].id, 10);
    assert_eq!(node.inputs[1].id, 11);
    assert_eq!(node.inputs[1].name.as_deref(), Some("q"));
    assert_eq!(node.output_handle_id(), 12);
    assert_eq!(node.node_name(), "n");
    assert_eq!(node.node_type(), "Code");
}
