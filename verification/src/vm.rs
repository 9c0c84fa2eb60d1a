//! Strict compatibility gate for contract modules: Soroban rejects
//! floating-point WebAssembly instructions, so a module whose code sections
//! use any `F32` or `F64` operator is refused before simulation.

use vstd::prelude::*;

use crate::types::spec_contains;
use crate::types::str_contains;

verus! {

/// The debug renderings of every operator in the module's code sections, in
/// order — a function of the module bytes alone.
pub uninterp spec fn code_operator_names(wasm: Seq<u8>) -> Seq<Seq<char>>;

/// Relies on wasmparser::Parser::parse_all and OperatorsReader: renders every
/// operator of every code section, in order, or the first parse error's
/// message.
#[verifier::external_body]
fn collect_operator_names(wasm: &[u8]) -> (r: Result<Vec<String>, String>)
    ensures
        r matches Ok(v) ==> v.deep_view() == code_operator_names(wasm@),
{
    let mut names = Vec::new();
    for payload in wasmparser::Parser::new(0).parse_all(wasm) {
        if let wasmparser::Payload::CodeSectionEntry(body) = payload.map_err(|e| e.to_string())? {
            let mut ops = body.get_operators_reader().map_err(|e| e.to_string())?;
            while !ops.eof() {
                names.push(format!("{:?}", ops.read().map_err(|e| e.to_string())?));
            }
        }
    }
    Ok(names)
}

/// Whether an operator's rendered name is a floating-point instruction.
pub open spec fn spec_is_float_op_name(name: Seq<char>) -> bool {
    spec_contains(name, "F32"@) || spec_contains(name, "F64"@)
}

/// Whether an operator's rendered name is a floating-point instruction.
pub fn is_float_op_name(name: &str) -> (r: bool)
    ensures
        r == spec_is_float_op_name(name@),
{
    str_contains(name, "F32") || str_contains(name, "F64")
}

/// Accepts a module's operator list exactly when no operator is a
/// floating-point instruction.
#[verifier::loop_isolation(false)]
pub fn check_no_float_ops(names: &Vec<String>) -> (r: Result<(), String>)
    ensures
        r is Ok <==> (forall|i: int|
            0 <= i < names.deep_view().len() ==> !spec_is_float_op_name(
                #[trigger] names.deep_view()[i],
            )),
        r matches Err(m) ==> m@
            == "floating-point instructions are not allowed under strict Soroban compatibility"@,
{
    let mut i: usize = 0;
    while i < names.len()
        invariant
            i <= names.len(),
            forall|t: int|
                0 <= t < i ==> !spec_is_float_op_name(#[trigger] names.deep_view()[t]),
        decreases names.len() - i,
    {
        if is_float_op_name(names[i].as_str()) {
            proof {
                assert(names.deep_view()[i as int] == names@[i as int]@);
            }
            return Err(
                "floating-point instructions are not allowed under strict Soroban compatibility".to_owned(),
            );
        }
        proof {
            assert(names.deep_view()[i as int] == names@[i as int]@);
        }
        i = i + 1;
    }
    Ok(())
}

/// Refuses a module that Soroban's strict mode would refuse: on success, no
/// operator in any of its code sections is a floating-point instruction.
pub fn enforce_soroban_compatibility(wasm: &[u8]) -> (r: Result<(), String>)
    ensures
        r is Ok ==> (forall|i: int|
            0 <= i < code_operator_names(wasm@).len() ==> !spec_is_float_op_name(
                #[trigger] code_operator_names(wasm@)[i],
            )),
{
    match collect_operator_names(wasm) {
        Err(e) => Err(e),
        Ok(names) => check_no_float_ops(&names),
    }
}

} // verus!
