//! WebAssembly type-section parsing and signature analysis for call-indirect
//! trap diagnostics: value types, function signatures, their human-readable
//! form, and a detailed comparison of two signatures.

use vstd::prelude::*;

verus! {

/// WebAssembly value type.
#[derive(Debug, Clone, Copy, PartialEq, Eq, Structural)]
pub enum ValueType {
    I32,
    I64,
    F32,
    F64,
    V128,
    FuncRef,
    ExternRef,
}

/// The WebAssembly text-format name of a value type.
pub open spec fn spec_type_name(t: ValueType) -> Seq<char> {
    match t {
        ValueType::I32 => "i32"@,
        ValueType::I64 => "i64"@,
        ValueType::F32 => "f32"@,
        ValueType::F64 => "f64"@,
        ValueType::V128 => "v128"@,
        ValueType::FuncRef => "funcref"@,
        ValueType::ExternRef => "externref"@,
    }
}

#[verifier::external_type_specification]
#[verifier::external_body]
pub struct ExValType(wasmparser::ValType);

impl ValueType {
    /// The type's text-format name: `i32`, `funcref`, and so on.
    pub fn name(&self) -> (r: String)
        ensures
            r@ == spec_type_name(*self),
    {
        match self {
            ValueType::I32 => "i32".to_owned(),
            ValueType::I64 => "i64".to_owned(),
            ValueType::F32 => "f32".to_owned(),
            ValueType::F64 => "f64".to_owned(),
            ValueType::V128 => "v128".to_owned(),
            ValueType::FuncRef => "funcref".to_owned(),
            ValueType::ExternRef => "externref".to_owned(),
        }
    }

    /// Relies on wasmparser::ValType and RefType::is_func_ref: renames each
    /// variant, a reference type becoming funcref or externref.
    #[verifier::external_body]
    fn from_valtype(vt: wasmparser::ValType) -> ValueType {
        match vt {
            wasmparser::ValType::I32 => ValueType::I32,
            wasmparser::ValType::I64 => ValueType::I64,
            wasmparser::ValType::F32 => ValueType::F32,
            wasmparser::ValType::F64 => ValueType::F64,
            wasmparser::ValType::V128 => ValueType::V128,
            wasmparser::ValType::Ref(rt) => if rt.is_func_ref() {
                ValueType::FuncRef
            } else {
                ValueType::ExternRef
            },
        }
    }
}

/// The listed type names joined with `, `.
pub open spec fn spec_join_names(ts: Seq<ValueType>) -> Seq<char>
    decreases ts.len(),
{
    if ts.len() == 0 {
        Seq::empty()
    } else if ts.len() == 1 {
        spec_type_name(ts[0])
    } else {
        spec_join_names(ts.drop_last()) + ", "@ + spec_type_name(ts.last())
    }
}

/// The human-readable form of a signature: `(params) -> (results)`.
pub open spec fn spec_format_signature(params: Seq<ValueType>, results: Seq<ValueType>) -> Seq<
    char,
> {
    "("@ + spec_join_names(params) + ") -> ("@ + spec_join_names(results) + ")"@
}

/// A function signature: parameter and result types in order.
#[derive(Debug, Clone)]
pub struct FunctionSignature {
    pub params: Vec<ValueType>,
    pub results: Vec<ValueType>,
}

/// The mismatching positions in the first `k` places of two type lists, each
/// as (index, expected, actual).
pub open spec fn spec_mismatches_upto(a: Seq<ValueType>, b: Seq<ValueType>, k: int) -> Seq<
    (usize, ValueType, ValueType),
>
    decreases k,
{
    if k <= 0 {
        Seq::empty()
    } else {
        let prev = spec_mismatches_upto(a, b, k - 1);
        if a[k - 1] != b[k - 1] {
            prev.push((((k - 1) as usize), a[k - 1], b[k - 1]))
        } else {
            prev
        }
    }
}

/// All mismatching positions two type lists share: (index, expected, actual)
/// for every index below both lengths where the types differ.
pub open spec fn spec_mismatches(a: Seq<ValueType>, b: Seq<ValueType>) -> Seq<
    (usize, ValueType, ValueType),
> {
    spec_mismatches_upto(a, b, vstd::math::min(a.len() as int, b.len() as int))
}

impl FunctionSignature {
    /// Creates a signature from its parameter and result types.
    pub fn new(params: Vec<ValueType>, results: Vec<ValueType>) -> (r: FunctionSignature)
        ensures
            r.params@ == params@,
            r.results@ == results@,
    {
        FunctionSignature { params, results }
    }

    /// Formats the signature as `(params) -> (results)`, the type names
    /// joined with `, `.
    #[verifier::loop_isolation(false)]
    pub fn format(&self) -> (r: String)
        ensures
            r@ == spec_format_signature(self.params@, self.results@),
    {
        let mut s = "(".to_owned();
        append_joined(&mut s, &self.params);
        s.append(") -> (");
        append_joined(&mut s, &self.results);
        s.append(")");
        proof {
            assert(s@ =~= spec_format_signature(self.params@, self.results@));
        }
        s
    }

    /// Compares this signature with another: whether the parameter and result
    /// counts match, and every position where the shared prefixes differ.
    #[verifier::loop_isolation(false)]
    pub fn compare(&self, other: &FunctionSignature) -> (r: SignatureDiff)
        ensures
            r.param_count_match == (self.params@.len() == other.params@.len()),
            r.result_count_match == (self.results@.len() == other.results@.len()),
            r.param_mismatches@ == spec_mismatches(self.params@, other.params@),
            r.result_mismatches@ == spec_mismatches(self.results@, other.results@),
    {
        let param_count_match = self.params.len() == other.params.len();
        let result_count_match = self.results.len() == other.results.len();
        let param_mismatches = collect_mismatches(&self.params, &other.params);
        let result_mismatches = collect_mismatches(&self.results, &other.results);
        SignatureDiff { param_count_match, result_count_match, param_mismatches, result_mismatches }
    }
}

/// Appends the joined type names of `ts` to `s`.
#[verifier::loop_isolation(false)]
fn append_joined(s: &mut String, ts: &Vec<ValueType>)
    ensures
        final(s)@ == old(s)@ + spec_join_names(ts@),
{
    let ghost base = s@;
    let mut i: usize = 0;
    while i < ts.len()
        invariant
            i <= ts.len(),
            s@ == base + spec_join_names(ts@.take(i as int)),
        decreases ts.len() - i,
    {
        if i > 0 {
            s.append(", ");
        }
        let name = ts[i].name();
        s.append(name.as_str());
        proof {
            assert(ts@.take(i + 1).drop_last() =~= ts@.take(i as int));
            assert(ts@.take(i + 1).last() == ts@[i as int]);
            if i == 0 {
                assert(ts@.take(1).len() == 1);
                assert(ts@.take(1)[0] == ts@[0]);
                assert(s@ =~= base + spec_join_names(ts@.take(i + 1)));
            } else {
                assert(s@ =~= base + spec_join_names(ts@.take(i + 1)));
            }
        }
        i = i + 1;
    }
    proof {
        assert(ts@.take(ts@.len() as int) =~= ts@);
    }
}

/// Collects the mismatching positions of the two lists' shared prefix.
#[verifier::loop_isolation(false)]
fn collect_mismatches(a: &Vec<ValueType>, b: &Vec<ValueType>) -> (r: Vec<
    (usize, ValueType, ValueType),
>)
    ensures
        r@ == spec_mismatches(a@, b@),
{
    let min = if a.len() < b.len() {
        a.len()
    } else {
        b.len()
    };
    let mut out: Vec<(usize, ValueType, ValueType)> = Vec::new();
    let mut i: usize = 0;
    while i < min
        invariant
            i <= min,
            out@ == spec_mismatches_upto(a@, b@, i as int),
        decreases min - i,
    {
        if a[i] != b[i] {
            out.push((i, a[i], b[i]));
        }
        i = i + 1;
    }
    out
}

/// Detailed comparison between two function signatures.
#[derive(Debug, Clone)]
pub struct SignatureDiff {
    pub param_count_match: bool,
    pub result_count_match: bool,
    /// (index, expected type, actual type)
    pub param_mismatches: Vec<(usize, ValueType, ValueType)>,
    /// (index, expected type, actual type)
    pub result_mismatches: Vec<(usize, ValueType, ValueType)>,
}

impl SignatureDiff {
    /// Whether the compared signatures are identical: both counts match and
    /// no position differs.
    pub fn is_match(&self) -> (r: bool)
        ensures
            r == (self.param_count_match && self.result_count_match && self.param_mismatches@.len()
                == 0 && self.result_mismatches@.len() == 0),
    {
        self.param_count_match && self.result_count_match && self.param_mismatches.len() == 0
            && self.result_mismatches.len() == 0
    }
}

/// The function signatures of a module's type section, in order.
#[derive(Debug, Clone)]
pub struct TypeSection {
    types: Vec<FunctionSignature>,
}

impl TypeSection {
    /// The parsed signatures, in type-index order.
    pub closed spec fn spec_types(&self) -> Seq<FunctionSignature> {
        self.types@
    }

    /// Relies on wasmparser::Parser::parse_all and the type-section reader:
    /// collects the function signatures of the module's type section, in
    /// order, or the first parse error's message.
    #[verifier::external_body]
    pub fn parse(wasm_bytes: &[u8]) -> Result<TypeSection, String> {
        let mut types = Vec::new();
        for payload in wasmparser::Parser::new(0).parse_all(wasm_bytes) {
            if let wasmparser::Payload::TypeSection(reader) = payload.map_err(|e| e.to_string())? {
                for rec_group in reader {
                    let rg = rec_group.map_err(|e| e.to_string())?;
                    for sub in rg.types() {
                        if let wasmparser::CompositeInnerType::Func(ft) = &sub.composite_type.inner {
                            let ps = ft.params().iter().map(|v| ValueType::from_valtype(*v)).collect();
                            types.push(FunctionSignature::new(ps, ft.results().iter().map(|v| ValueType::from_valtype(*v)).collect()));
                        }
                    }
                }
            }
        }
        Ok(TypeSection { types })
    }

    /// The signature at a type index, when the section has one.
    pub fn get_signature(&self, type_index: u32) -> (r: Option<&FunctionSignature>)
        ensures
            match r {
                None => self.spec_types().len() <= type_index,
                Some(sig) => type_index < self.spec_types().len() && *sig == self.spec_types()[
                    type_index as int
                ],
            },
    {
        if (type_index as usize) < self.types.len() {
            Some(&self.types[type_index as usize])
        } else {
            None
        }
    }

    /// The number of types in this section.
    pub fn len(&self) -> (r: usize)
        ensures
            r == self.spec_types().len(),
    {
        self.types.len()
    }

    /// Whether the type section is empty.
    pub fn is_empty(&self) -> (r: bool)
        ensures
            r == (self.spec_types().len() == 0),
    {
        self.types.len() == 0
    }
}

} // verus!
