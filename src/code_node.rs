use vstd::prelude::*;

use std::collections::HashMap;

use crate::python_sandbox::{MockPythonSandbox, PythonSandbox, PythonSandboxResult};
use crate::SandboxError;

verus! {

broadcast use vstd::std_specs::hash::group_hash_axioms;

/// What kind of value a handle carries.
pub enum HandleType {
    Any,
}

/// An input or output port of a node.
pub struct Handle {
    pub id: u128,
    pub name: Option<String>,
    pub handle_type: HandleType,
    pub is_cyclic: bool,
}

/// A node that runs user code: its inputs become keyword arguments of a call
/// to `main` appended to `code`, and the first value the run produces becomes
/// its single output.
pub struct CodeNode {
    pub id: u128,
    pub name: String,
    pub inputs: Vec<Handle>,
    pub outputs: Vec<Handle>,
    /// From the id of an input handle of this node to the id of the upstream
    /// output handle that feeds it.
    pub inputs_mappings: HashMap<u128, u128>,
    pub code: String,
}

/// Why a code node produced no output.
pub enum CodeNodeError {
    /// The node declares no output handle; nothing was run.
    NoOutputHandle,
    /// The call to the sandbox failed.
    Sandbox(SandboxError),
    /// The run produced no value; the message is what the code wrote to stderr.
    UserCode(String),
}

/// The text of one keyword argument: `name=value`.
pub open spec fn entry(name: Seq<char>, value: Seq<char>) -> Seq<char> {
    name + seq!['='] + value
}

/// One keyword argument for each input, in the order given.
pub open spec fn entries(inputs: Seq<(String, String)>) -> Seq<Seq<char>> {
    inputs.map_values(|p: (String, String)| entry(p.0@, p.1@))
}

/// The parts joined, with `sep` between each two neighbours.
pub open spec fn join(parts: Seq<Seq<char>>, sep: Seq<char>) -> Seq<char>
    decreases parts.len(),
{
    if parts.len() == 0 {
        Seq::empty()
    } else if parts.len() == 1 {
        parts[0]
    } else {
        join(parts.drop_last(), sep) + sep + parts.last()
    }
}

pub open spec fn comma_sep() -> Seq<char> {
    seq![',', ' ']
}

/// The argument list of the call: the keyword arguments joined by `, `.
pub open spec fn argument_list(inputs: Seq<(String, String)>) -> Seq<char> {
    join(entries(inputs), comma_sep())
}

/// The program that is run: the code, a blank line, and the call of `main`.
pub open spec fn program(code: Seq<char>, inputs: Seq<(String, String)>) -> Seq<char> {
    code + seq!['\n', '\n', 'm', 'a', 'i', 'n', '('] + argument_list(inputs) + seq![')']
}

/// Whether `r` is what a node makes of the outcome `o`: the text of the first
/// result, or, where there is none, a failure that carries stderr.
pub open spec fn output_of(o: PythonSandboxResult, r: Result<String, CodeNodeError>) -> bool {
    if o.results@.len() > 0 {
        r matches Ok(t) && t@ == o.results@[0].text@
    } else {
        r matches Err(CodeNodeError::UserCode(m)) && m@ == o.stderr@
    }
}

/// Whether `r` is what a node makes of the sandbox's answer `a`.
pub open spec fn result_of(a: Result<PythonSandboxResult, SandboxError>, r: Result<String, CodeNodeError>) -> bool {
    match a {
        Ok(o) => output_of(o, r),
        Err(e) => r matches Err(CodeNodeError::Sandbox(e2)) && e2 == e,
    }
}

/// The keyword argument list for the given (name, value) pairs.
pub fn call_arguments(inputs: &Vec<(String, String)>) -> (r: String)
    ensures
        r@ == argument_list(inputs@),
{
    let mut args = String::new();
    let mut i: usize = 0;
    proof {
        assert(inputs@.take(0) =~= Seq::<(String, String)>::empty());
        assert(entries(inputs@.take(0)) =~= Seq::<Seq<char>>::empty());
    }
    while i < inputs.len()
        invariant
            i <= inputs@.len(),
            args@ == argument_list(inputs@.take(i as int)),
        decreases inputs@.len() - i,
    {
        let ghost before = args@;
        proof {
            reveal_strlit(", ");
            reveal_strlit("=");
        }
        if i > 0 {
            args.append(", ");
        }
        args.append(inputs[i].0.as_str());
        args.append("=");
        args.append(inputs[i].1.as_str());
        proof {
            let s = inputs@.take(i as int);
            let t = inputs@.take(i + 1);
            assert(t.drop_last() =~= s);
            assert(entries(t).drop_last() =~= entries(s));
            assert(entries(t).last() == entry(inputs@[i as int].0@, inputs@[i as int].1@));
            assert(entries(t).len() == i + 1);
            if i == 0 {
                assert(before =~= Seq::<char>::empty());
                assert(argument_list(t) == entries(t)[0]);
            } else {
                assert(argument_list(t) == join(entries(t).drop_last(), comma_sep()) + comma_sep()
                    + entries(t).last());
            }
            assert(args@ =~= argument_list(t));
        }
        i = i + 1;
    }
    proof {
        assert(inputs@.take(inputs@.len() as int) =~= inputs@);
    }
    args
}

/// The code followed by a blank line and a call of `main` with the inputs as
/// keyword arguments.
pub fn synthesize_program(code: &String, inputs: &Vec<(String, String)>) -> (r: String)
    ensures
        r@ == program(code@, inputs@),
{
    let args = call_arguments(inputs);
    let mut text = code.clone();
    text.append("\n\nmain(");
    text.append(args.as_str());
    text.append(")");
    proof {
        reveal_strlit("\n\nmain(");
        reveal_strlit(")");
    }
    text
}

/// The node's output for an outcome of the sandbox: the text of the first
/// result; with no result, a failure whose message is stderr.
pub fn output_from_outcome(outcome: PythonSandboxResult) -> (r: Result<String, CodeNodeError>)
    ensures
        output_of(outcome, r),
{
    if outcome.results.len() > 0 {
        Ok(outcome.results[0].text.clone())
    } else {
        Err(CodeNodeError::UserCode(outcome.stderr))
    }
}

/// Relies on uuid's `Uuid::new_v4` and `Uuid::as_u128`: a fresh random id
/// whose version field (bits 76 to 79 of the big-endian value) reads 4.
#[verifier::external_body]
fn new_v4_id() -> (r: u128)
    ensures
        r & 0xF000_0000_0000_0000_0000u128 == 0x4000_0000_0000_0000_0000u128,
{
    uuid::Uuid::new_v4().as_u128()
}

pub open spec fn output_name() -> Seq<char> {
    seq!['o', 'u', 't', 'p', 'u', 't']
}

/// Whether `h` is a plain handle named `name` with identifier `id`.
pub open spec fn is_handle(h: Handle, id: u128, name: Seq<char>) -> bool {
    &&& h.id == id
    &&& h.name matches Some(n) && n@ == name
    &&& h.handle_type == HandleType::Any
    &&& !h.is_cyclic
}

/// Whether `node` is the node named `name` with code `code`, one input handle
/// for each of `input_names`, in order, one output handle named `output`, and
/// no input mapped yet; whatever its identifiers.
pub open spec fn has_shape(node: CodeNode, name: Seq<char>, input_names: Seq<&str>, code: Seq<char>) -> bool {
    &&& node.name@ == name
    &&& node.code@ == code
    &&& node.inputs@.len() == input_names.len()
    &&& forall|i: int| 0 <= i < input_names.len() ==> is_handle(
        #[trigger] node.inputs@[i],
        node.inputs@[i].id,
        input_names[i]@,
    )
    &&& node.outputs@.len() == 1
    &&& is_handle(node.outputs@[0], node.outputs@[0].id, output_name())
    &&& node.inputs_mappings@ == Map::<u128, u128>::empty()
}

/// Whether `node` has that shape with the identifiers `id` for the node,
/// `input_ids` for its inputs and `output_id` for its output.
pub open spec fn is_built_from(
    node: CodeNode,
    name: Seq<char>,
    input_names: Seq<&str>,
    code: Seq<char>,
    id: u128,
    input_ids: Seq<u128>,
    output_id: u128,
) -> bool {
    &&& has_shape(node, name, input_names, code)
    &&& node.id == id
    &&& forall|i: int| 0 <= i < input_ids.len() ==> #[trigger] node.inputs@[i].id == input_ids[i]
    &&& node.outputs@[0].id == output_id
}

/// Whether the identifiers of a node's handles are pairwise distinct.
pub open spec fn handle_ids_unique(node: CodeNode) -> bool {
    &&& forall|i: int, j: int|
        0 <= i < j < node.inputs@.len() ==> #[trigger] node.inputs@[i].id != #[trigger] node.inputs@[j].id
    &&& forall|i: int, j: int|
        0 <= i < node.inputs@.len() && 0 <= j < node.outputs@.len() ==> #[trigger] node.inputs@[i].id
            != #[trigger] node.outputs@[j].id
}

fn plain_handle(id: u128, name: &str) -> (h: Handle)
    ensures
        is_handle(h, id, name@),
{
    Handle { id, name: Some(String::from_str(name)), handle_type: HandleType::Any, is_cyclic: false }
}

impl CodeNode {
    /// Every mapped input is an input handle of this node.
    pub open spec fn wf(&self) -> bool {
        forall|k: u128| #[trigger] self.inputs_mappings@.contains_key(k) ==> exists|i: int|
            0 <= i < self.inputs@.len() && self.inputs@[i].id == k
    }

    /// A node with the given identifiers: one input handle per name, in
    /// order, one output handle named `output`, and no input mapped.
    pub fn with_ids(
        name: &str,
        input_names: &Vec<&str>,
        code: String,
        id: u128,
        input_ids: &Vec<u128>,
        output_id: u128,
    ) -> (r: CodeNode)
        requires
            input_ids@.len() == input_names@.len(),
        ensures
            is_built_from(r, name@, input_names@, code@, id, input_ids@, output_id),
            r.wf(),
    {
        let mut inputs: Vec<Handle> = Vec::new();
        let mut i: usize = 0;
        while i < input_names.len()
            invariant
                input_ids@.len() == input_names@.len(),
                i <= input_names@.len(),
                inputs@.len() == i,
                forall|k: int| 0 <= k < i ==> is_handle(#[trigger] inputs@[k], input_ids@[k], input_names@[k]@),
            decreases input_names@.len() - i,
        {
            inputs.push(plain_handle(input_ids[i], input_names[i]));
            i = i + 1;
        }
        let mut outputs: Vec<Handle> = Vec::new();
        let output_label = "output";
        proof {
            reveal_strlit("output");
            assert(output_label@ =~= output_name());
        }
        outputs.push(plain_handle(output_id, output_label));
        let node = CodeNode {
            id,
            name: String::from_str(name),
            inputs,
            outputs,
            inputs_mappings: HashMap::new(),
            code,
        };
        proof {
            assert(node.inputs_mappings@ =~= Map::<u128, u128>::empty());
        }
        node
    }

    /// A node named `name` running `code`, with one input handle for each of
    /// `input_names` and one output handle named `output`, every handle with a
    /// fresh random identifier.
    pub fn from_params(name: &str, input_names: Vec<&str>, code: String) -> (r: CodeNode)
        ensures
            has_shape(r, name@, input_names@, code@),
            r.wf(),
    {
        let id = new_v4_id();
        let mut input_ids: Vec<u128> = Vec::new();
        let mut i: usize = 0;
        while i < input_names.len()
            invariant
                i <= input_names@.len(),
                input_ids@.len() == i,
            decreases input_names@.len() - i,
        {
            input_ids.push(new_v4_id());
            i = i + 1;
        }
        let output_id = new_v4_id();
        CodeNode::with_ids(name, &input_names, code, id, &input_ids, output_id)
    }

    /// The program to run for these inputs, or `NoOutputHandle` where the
    /// node declares no output.
    pub fn program_for(&self, inputs: &Vec<(String, String)>) -> (r: Result<String, CodeNodeError>)
        ensures
            self.outputs@.len() == 0 ==> r matches Err(CodeNodeError::NoOutputHandle),
            self.outputs@.len() > 0 ==> (r matches Ok(t) && t@ == program(self.code@, inputs@)),
    {
        if self.outputs.len() == 0 {
            return Err(CodeNodeError::NoOutputHandle);
        }
        Ok(synthesize_program(&self.code, inputs))
    }

    /// Runs the node: the program for `inputs` goes to `sandbox` once, and
    /// its answer becomes the node's output or failure. A node without an
    /// output handle fails before the sandbox is called.
    pub fn run<S: PythonSandbox>(&self, inputs: &Vec<(String, String)>, sandbox: &S) -> (r: Result<
        String,
        CodeNodeError,
    >)
        ensures
            self.outputs@.len() == 0 ==> r matches Err(CodeNodeError::NoOutputHandle),
            self.outputs@.len() > 0 ==> exists|a: Result<PythonSandboxResult, SandboxError>|
                sandbox.run_spec(program(self.code@, inputs@), a) && #[trigger] result_of(a, r),
    {
        let code = match self.program_for(inputs) {
            Ok(c) => c,
            Err(e) => return Err(e),
        };
        let answer = sandbox.run(&code);
        let ghost a = answer;
        let r = match answer {
            Ok(o) => output_from_outcome(o),
            Err(e) => Err(CodeNodeError::Sandbox(e)),
        };
        assert(sandbox.run_spec(program(self.code@, inputs@), a) && result_of(a, r));
        r
    }

    /// The id of the first output handle.
    pub fn output_handle_id(&self) -> (r: u128)
        requires
            self.outputs@.len() > 0,
        ensures
            r == self.outputs@[0].id,
    {
        self.outputs[0].id
    }

    pub fn node_name(&self) -> (r: String)
        ensures
            r@ == self.name@,
    {
        self.name.clone()
    }

    pub fn node_id(&self) -> (r: u128)
        ensures
            r == self.id,
    {
        self.id
    }

    /// The kind of node this is: `Code`.
    pub fn node_type(&self) -> (r: String)
        ensures
            r@ == seq!['C', 'o', 'd', 'e'],
    {
        proof {
            reveal_strlit("Code");
        }
        String::from_str("Code")
    }
}

/// The argument list holds one `name=value` entry per input, and two orders
/// of the same inputs give the same entries, each as often.
pub proof fn lemma_arguments_order_free(a: Seq<(String, String)>, b: Seq<(String, String)>)
    requires
        a.to_multiset() == b.to_multiset(),
    ensures
        argument_list(a) == join(entries(a), comma_sep()),
        entries(a).len() == a.len(),
        forall|i: int| 0 <= i < a.len() ==> #[trigger] entries(a)[i] == entry(a[i].0@, a[i].1@),
        entries(a).to_multiset() == entries(b).to_multiset(),
    decreases a.len(),
{
    broadcast use vstd::seq_lib::group_to_multiset_ensures;

    if a.len() == 0 {
        assert(a.to_multiset().len() == 0);
        assert(b.to_multiset().len() == b.len());
        assert(entries(a) =~= entries(b));
    } else {
        let x = a.last();
        let a2 = a.drop_last();
        assert(a =~= a2.push(x));
        assert(a.to_multiset().count(x) > 0);
        assert(b.contains(x));
        let j = choose|j: int| 0 <= j < b.len() && b[j] == x;
        let b2 = b.remove(j);
        assert(a2.to_multiset() =~= b2.to_multiset());
        lemma_arguments_order_free(a2, b2);
        let ex = entry(x.0@, x.1@);
        assert(entries(a) =~= entries(a2).push(ex));
        assert(entries(b2) =~= entries(b).remove(j));
        assert(entries(b)[j] == ex);
        assert(entries(a).to_multiset() =~= entries(b).to_multiset());
    }
}

/// With at least one result, the output is the text of the first result;
/// images and later results do not change it.
pub proof fn lemma_output_is_first_text(
    o1: PythonSandboxResult,
    o2: PythonSandboxResult,
    r: Result<String, CodeNodeError>,
)
    requires
        o1.results@.len() > 0,
        o2.results@.len() > 0,
        o1.results@[0].text@ == o2.results@[0].text@,
    ensures
        output_of(o1, r) == output_of(o2, r),
        output_of(o1, r) <==> (r matches Ok(t) && t@ == o1.results@[0].text@),
{
}

/// With no result, the node fails with stderr as the message, even where
/// stderr is empty.
pub proof fn lemma_no_result_fails_with_stderr(o: PythonSandboxResult, r: Result<String, CodeNodeError>)
    requires
        o.results@.len() == 0,
    ensures
        output_of(o, r) <==> (r matches Err(CodeNodeError::UserCode(m)) && m@ == o.stderr@),
{
}

/// A node that has an output and runs on the mock sandbox always fails with
/// an empty message, whatever its inputs.
pub proof fn lemma_mock_backed_node_fails(
    node: CodeNode,
    inputs: Seq<(String, String)>,
    sandbox: MockPythonSandbox,
    r: Result<String, CodeNodeError>,
)
    requires
        node.outputs@.len() > 0,
        exists|a: Result<PythonSandboxResult, SandboxError>|
            sandbox.run_spec(program(node.code@, inputs), a) && #[trigger] result_of(a, r),
    ensures
        r matches Err(CodeNodeError::UserCode(m)) && m@.len() == 0,
{
}

/// A node built with distinct identifiers has one input handle per name,
/// all identifiers distinct, and one output handle named `output`.
pub proof fn lemma_built_node_handles(
    node: CodeNode,
    name: Seq<char>,
    input_names: Seq<&str>,
    code: Seq<char>,
    id: u128,
    input_ids: Seq<u128>,
    output_id: u128,
)
    requires
        input_ids.len() == input_names.len(),
        is_built_from(node, name, input_names, code, id, input_ids, output_id),
        forall|i: int, j: int| 0 <= i < j < input_ids.len() ==> input_ids[i] != input_ids[j],
        forall|i: int| 0 <= i < input_ids.len() ==> input_ids[i] != output_id,
    ensures
        node.inputs@.len() == input_names.len(),
        node.outputs@.len() == 1,
        node.outputs@[0].name matches Some(n) && n@ == output_name(),
        handle_ids_unique(node),
{
    assert forall|i: int, j: int| 0 <= i < j < node.inputs@.len() implies #[trigger] node.inputs@[i].id
        != #[trigger] node.inputs@[j].id by {
        assert(node.inputs@[i].id == input_ids[i]);
        assert(node.inputs@[j].id == input_ids[j]);
    }
    assert forall|i: int, j: int| 0 <= i < node.inputs@.len() && 0 <= j < node.outputs@.len() implies #[trigger] node.inputs@[i].id
        != #[trigger] node.outputs@[j].id by {
        assert(node.inputs@[i].id == input_ids[i]);
    }
}

} // verus!
