//! Runtime intrinsics: their signatures, and how the `print`/`eprint`, `write` and
//! `__exit` builtins are lowered onto them.

use vstd::prelude::*;
use vstd::string::*;
use crate::codegen::ir::{
    bool_model, i32_model, i64_model, ir_models, lemma_ir_models_ext,
    ptr_len_model, ptr_len_type, FnSig, FnSigModel, IrModel, IrType,
};
use crate::text::{decimal, decimal_text};

verus! {

broadcast use vstd::std_specs::vec::group_vec_axioms;

/// The parameter types of runtime intrinsic `name`.
pub open spec fn intrinsic_params(name: Seq<char>) -> Seq<IrModel> {
    let p = IrModel::Ptr;
    let i = i64_model();
    let f = IrModel::F64;
    if name == "__alloc"@ {
        seq![i]
    } else if name == "__gc_init"@ {
        seq![]
    } else if name == "__exit"@ {
        seq![i32_model()]
    } else if name == "__index_fail"@ {
        seq![f, i]
    } else if name == "memcpy"@ {
        seq![p, p, i]
    } else if name == "__text_length"@ {
        seq![p, i]
    } else if name == "__text_cmp"@ {
        seq![p, i, p, i]
    } else if name == "__write_bytes"@ {
        seq![i, p, i]
    } else if name == "__print_num_fd"@ {
        seq![i, f]
    } else if name == "__print_bool_fd"@ {
        seq![i, i]
    } else if name == "__print_text_fd"@ {
        seq![i, p]
    } else if name == "__argv_to_text_array"@ {
        seq![i, p]
    } else if name == "__envp_to_pairs"@ {
        seq![p]
    } else if name == "__text_trim_start"@ || name == "__text_trim_end"@ || name
        == "__text_to_upper"@ || name == "__text_to_lower"@ {
        seq![p, i]
    } else if name == "__text_contains"@ || name == "__text_index_of"@ || name
        == "__text_split"@ {
        seq![p, i, p, i]
    } else if name == "__text_slice"@ {
        seq![p, i, i, i]
    } else if name == "__text_replace_all"@ {
        seq![p, i, p, i, p, i]
    } else {
        seq![p, i, p, i, p, i, i]
    }
}

/// The return type of runtime intrinsic `name` (`None` for `void`).
pub open spec fn intrinsic_ret(name: Seq<char>) -> Option<IrModel> {
    if name == "__alloc"@ {
        Some(IrModel::Ptr)
    } else if name == "__gc_init"@ || name == "__exit"@ || name == "__index_fail"@ {
        None
    } else if name == "memcpy"@ {
        Some(IrModel::Ptr)
    } else if name == "__text_length"@ {
        Some(i64_model())
    } else if name == "__text_cmp"@ {
        Some(i32_model())
    } else if name == "__write_bytes"@ {
        Some(i64_model())
    } else if name == "__print_num_fd"@ || name == "__print_bool_fd"@ || name
        == "__print_text_fd"@ {
        None
    } else if name == "__argv_to_text_array"@ || name == "__envp_to_pairs"@ || name
        == "__text_trim_start"@ || name == "__text_trim_end"@ || name == "__text_to_upper"@
        || name == "__text_to_lower"@ {
        Some(ptr_len_model())
    } else if name == "__text_contains"@ || name == "__text_index_of"@ {
        Some(i64_model())
    } else {
        Some(ptr_len_model())
    }
}

/// The runtime intrinsics the code generator may declare.
pub open spec fn is_intrinsic(name: Seq<char>) -> bool {
    name == "__alloc"@ || name == "__gc_init"@ || name == "__exit"@ || name == "__index_fail"@
        || name == "memcpy"@ || name == "__text_length"@ || name == "__text_cmp"@ || name
        == "__write_bytes"@ || name == "__print_num_fd"@ || name == "__print_bool_fd"@ || name
        == "__print_text_fd"@ || name == "__argv_to_text_array"@ || name == "__envp_to_pairs"@
        || name == "__text_trim_start"@ || name == "__text_trim_end"@ || name
        == "__text_to_upper"@ || name == "__text_to_lower"@ || name == "__text_contains"@ || name
        == "__text_index_of"@ || name == "__text_split"@ || name == "__text_slice"@ || name
        == "__text_replace_all"@ || name == "__text_replace_n"@
}

/// The signature of runtime intrinsic `name`, if it is one.
pub open spec fn intrinsic_sig(name: Seq<char>) -> Option<FnSigModel> {
    if is_intrinsic(name) {
        Some(FnSigModel { ret: intrinsic_ret(name), params: intrinsic_params(name) })
    } else {
        None
    }
}

/// Whether `name` spells `lit`.
fn spells(name: &String, lit: &str) -> (r: bool)
    ensures
        r == (name@ == lit@),
{
    *name == String::from_str(lit)
}

/// The signature of the runtime intrinsic `name`. These resolve to `#[no_mangle]`
/// symbols of the runtime library (or libc, e.g. `memcpy`), available both to the
/// in-process JIT and to ahead-of-time-linked executables.
pub fn intrinsic_signature(name: &str) -> (r: Result<FnSig, String>)
    ensures
        match r {
            Ok(sig) => intrinsic_sig(name@) == Some(sig@),
            Err(msg) => intrinsic_sig(name@) is None && msg@ == "Unknown runtime intrinsic: "@
                + name@,
        },
{
    let n = String::from_str(name);
    let params: Vec<IrType>;
    let ret: Option<IrType>;
    if spells(&n, "__alloc") {
        params = vec![IrType::Int { bits: 64 }];
        ret = Some(IrType::Ptr);
    } else if spells(&n, "__gc_init") {
        params = vec![];
        ret = None;
    } else if spells(&n, "__exit") {
        params = vec![IrType::Int { bits: 32 }];
        ret = None;
    } else if spells(&n, "__index_fail") {
        params = vec![IrType::F64, IrType::Int { bits: 64 }];
        ret = None;
    } else if spells(&n, "memcpy") {
        params = vec![IrType::Ptr, IrType::Ptr, IrType::Int { bits: 64 }];
        ret = Some(IrType::Ptr);
    } else if spells(&n, "__text_length") {
        params = vec![IrType::Ptr, IrType::Int { bits: 64 }];
        ret = Some(IrType::Int { bits: 64 });
    } else if spells(&n, "__text_cmp") {
        params = vec![IrType::Ptr, IrType::Int { bits: 64 }, IrType::Ptr, IrType::Int { bits: 64 }];
        ret = Some(IrType::Int { bits: 32 });
    } else if spells(&n, "__write_bytes") {
        params = vec![IrType::Int { bits: 64 }, IrType::Ptr, IrType::Int { bits: 64 }];
        ret = Some(IrType::Int { bits: 64 });
    } else if spells(&n, "__print_num_fd") {
        params = vec![IrType::Int { bits: 64 }, IrType::F64];
        ret = None;
    } else if spells(&n, "__print_bool_fd") {
        params = vec![IrType::Int { bits: 64 }, IrType::Int { bits: 64 }];
        ret = None;
    } else if spells(&n, "__print_text_fd") {
        params = vec![IrType::Int { bits: 64 }, IrType::Ptr];
        ret = None;
    } else if spells(&n, "__argv_to_text_array") {
        params = vec![IrType::Int { bits: 64 }, IrType::Ptr];
        ret = Some(ptr_len_type());
    } else if spells(&n, "__envp_to_pairs") {
        params = vec![IrType::Ptr];
        ret = Some(ptr_len_type());
    } else if spells(&n, "__text_trim_start") || spells(&n, "__text_trim_end") || spells(
        &n,
        "__text_to_upper",
    ) || spells(&n, "__text_to_lower") {
        params = vec![IrType::Ptr, IrType::Int { bits: 64 }];
        ret = Some(ptr_len_type());
    } else if spells(&n, "__text_contains") || spells(&n, "__text_index_of") {
        params = vec![IrType::Ptr, IrType::Int { bits: 64 }, IrType::Ptr, IrType::Int { bits: 64 }];
        ret = Some(IrType::Int { bits: 64 });
    } else if spells(&n, "__text_split") {
        params = vec![IrType::Ptr, IrType::Int { bits: 64 }, IrType::Ptr, IrType::Int { bits: 64 }];
        ret = Some(ptr_len_type());
    } else if spells(&n, "__text_slice") {
        params = vec![
            IrType::Ptr,
            IrType::Int { bits: 64 },
            IrType::Int { bits: 64 },
            IrType::Int { bits: 64 },
        ];
        ret = Some(ptr_len_type());
    } else if spells(&n, "__text_replace_all") {
        params = vec![
            IrType::Ptr,
            IrType::Int { bits: 64 },
            IrType::Ptr,
            IrType::Int { bits: 64 },
            IrType::Ptr,
            IrType::Int { bits: 64 },
        ];
        ret = Some(ptr_len_type());
    } else if spells(&n, "__text_replace_n") {
        params = vec![
            IrType::Ptr,
            IrType::Int { bits: 64 },
            IrType::Ptr,
            IrType::Int { bits: 64 },
            IrType::Ptr,
            IrType::Int { bits: 64 },
            IrType::Int { bits: 64 },
        ];
        ret = Some(ptr_len_type());
    } else {
        let mut msg = String::from_str("Unknown runtime intrinsic: ");
        msg.append(name);
        return Err(msg);
    }
    proof {
        lemma_ir_models_ext(params@, intrinsic_params(name@));
    }
    Ok(FnSig { ret, params })
}

/// Which runtime intrinsic renders a printed value.
#[derive(Debug, Clone, Copy, PartialEq, Eq, Structural)]
pub enum PrintIntrinsic {
    /// `__print_num_fd`: a number and a newline.
    Num,
    /// `__print_bool_fd`: `true`/`false` and a newline.
    Bool,
    /// `__print_text_fd`: a C string and a newline.
    Text,
}

/// How the printed value is turned into the intrinsic's argument.
#[derive(Debug, Clone, Copy, PartialEq, Eq, Structural)]
pub enum PrintArg {
    /// Passed as it is.
    AsIs,
    /// A `Text` struct's data pointer (field 0).
    TextData,
    /// A `Bool` zero-extended to `i64`.
    BoolToI64,
    /// A wider integer converted (unsigned) to `double`.
    IntToNum,
}

/// The lowering of a `print`/`eprint` call: the descriptor written to, the intrinsic,
/// and how the argument is passed.
#[derive(Debug, Clone, Copy, PartialEq, Eq, Structural)]
pub struct PrintPlan {
    pub fd: u64,
    pub intrinsic: PrintIntrinsic,
    pub arg: PrintArg,
}

/// The value a lowered builtin call yields.
#[derive(Debug, Clone, Copy, PartialEq, Eq, Structural)]
pub enum Yield {
    /// `$`.
    Unit,
    /// The `Num` 0.
    NumZero,
    /// The number of bytes written, as a `Num`.
    BytesWritten,
}

/// The symbol of a print intrinsic.
pub open spec fn print_intrinsic_name(p: PrintIntrinsic) -> Seq<char> {
    match p {
        PrintIntrinsic::Num => "__print_num_fd"@,
        PrintIntrinsic::Bool => "__print_bool_fd"@,
        PrintIntrinsic::Text => "__print_text_fd"@,
    }
}

/// The symbol of a print intrinsic.
pub fn print_intrinsic_symbol(p: PrintIntrinsic) -> (r: &'static str)
    ensures
        r@ == print_intrinsic_name(p),
{
    match p {
        PrintIntrinsic::Num => "__print_num_fd",
        PrintIntrinsic::Bool => "__print_bool_fd",
        PrintIntrinsic::Text => "__print_text_fd",
    }
}

/// The message for a builtin called with the wrong number of arguments.
pub open spec fn arity_message(name: Seq<char>, expected: Seq<char>, got: nat) -> Seq<char> {
    name + " expects exactly "@ + expected + ", got "@ + decimal(got)
}

/// Build the wrong-arity message.
fn arity_error(name: &str, expected: &str, got: usize) -> (r: String)
    ensures
        r@ == arity_message(name@, expected@, got as nat),
{
    let mut s = String::from_str(name);
    s.append(" expects exactly ");
    s.append(expected);
    s.append(", got ");
    let n = decimal_text(got);
    s.append(n.as_str());
    s
}

/// The message for a value of a type that cannot be printed, given the code
/// generator's spelling of that type.
pub open spec fn unprintable_message(type_text: Seq<char>) -> Seq<char> {
    "print does not support a value of type "@ + type_text
}

/// The message a failed extraction of a `Text` field is reported with: what was being
/// extracted, then the builder's out-of-range error.
pub open spec fn extract_failure(what: Seq<char>) -> Seq<char> {
    what + ": Aggregate extract index out of range"@
}

/// Build the message for a failed extraction of a `Text` field.
fn extract_error(what: &str) -> (r: String)
    ensures
        r@ == extract_failure(what@),
{
    let mut s = String::from_str(what);
    s.append(": Aggregate extract index out of range");
    s
}

/// A struct `print` passes on as a `Text` has its data pointer as its first field, if it
/// has a field at all.
pub open spec fn text_struct_shape(t: IrModel) -> bool {
    t matches IrModel::Struct { fields } ==> (fields.len() >= 1 ==> fields[0] is Ptr)
}

/// What `print`/`eprint` do with a single argument of machine type `t`.
pub open spec fn print_route(name: Seq<char>, t: IrModel, type_text: Seq<char>) -> Result<
    PrintPlan,
    Seq<char>,
> {
    let fd: u64 = if name == "eprint"@ {
        2
    } else {
        1
    };
    match t {
        IrModel::F64 => Ok(PrintPlan { fd, intrinsic: PrintIntrinsic::Num, arg: PrintArg::AsIs }),
        IrModel::Struct { fields } => if fields.len() == 0 {
            Err(extract_failure("Failed to extract text data"@))
        } else {
            Ok(PrintPlan { fd, intrinsic: PrintIntrinsic::Text, arg: PrintArg::TextData })
        },
        IrModel::Ptr => Ok(PrintPlan { fd, intrinsic: PrintIntrinsic::Text, arg: PrintArg::AsIs }),
        IrModel::Int { bits } => if bits == 1 {
            Ok(PrintPlan { fd, intrinsic: PrintIntrinsic::Bool, arg: PrintArg::BoolToI64 })
        } else {
            Ok(PrintPlan { fd, intrinsic: PrintIntrinsic::Num, arg: PrintArg::IntToNum })
        },
        IrModel::Array { .. } => Err(unprintable_message(type_text)),
    }
}

/// Lower a `print`/`eprint` builtin call whose arguments have the machine types
/// `arg_types`: the single argument is written, followed by a newline, to stdout
/// (`print`, fd 1) or stderr (`eprint`, fd 2). Floats print as numbers, `Text` structs
/// and pointers as C strings, `i1` as `true`/`false`, wider integers as numbers. The
/// call yields the `Num` 0, so it is usable in expression position. `type_text` is the
/// code generator's spelling of the argument's type, which an error names.
pub fn plan_print(name: &str, arg_types: &Vec<IrType>, type_text: &str) -> (r: Result<
    (PrintPlan, Yield),
    String,
>)
    requires
        arg_types@.len() == 1 ==> text_struct_shape(arg_types@[0]@),
    ensures
        arg_types@.len() != 1 ==> (r matches Err(m) && m@ == arity_message(
            name@,
            "1 argument"@,
            arg_types@.len() as nat,
        )),
        arg_types@.len() == 1 ==> match (r, print_route(name@, arg_types@[0]@, type_text@)) {
            (Ok((p, y)), Ok(q)) => p == q && y == Yield::NumZero,
            (Err(m), Err(n)) => m@ == n,
            _ => false,
        },
{
    if arg_types.len() != 1 {
        return Err(arity_error(name, "1 argument", arg_types.len()));
    }
    let fd: u64 = if String::from_str(name) == String::from_str("eprint") {
        2
    } else {
        1
    };
    let plan = match &arg_types[0] {
        IrType::F64 => PrintPlan { fd, intrinsic: PrintIntrinsic::Num, arg: PrintArg::AsIs },
        IrType::Struct { fields } => {
            proof {
                crate::codegen::ir::lemma_ir_models(fields@);
            }
            if fields.len() == 0 {
                return Err(extract_error("Failed to extract text data"));
            }
            PrintPlan { fd, intrinsic: PrintIntrinsic::Text, arg: PrintArg::TextData }
        },
        IrType::Ptr => PrintPlan { fd, intrinsic: PrintIntrinsic::Text, arg: PrintArg::AsIs },
        IrType::Int { bits } => {
            if *bits == 1 {
                PrintPlan { fd, intrinsic: PrintIntrinsic::Bool, arg: PrintArg::BoolToI64 }
            } else {
                PrintPlan { fd, intrinsic: PrintIntrinsic::Num, arg: PrintArg::IntToNum }
            }
        },
        IrType::Array { .. } => {
            let mut m = String::from_str("print does not support a value of type ");
            m.append(type_text);
            return Err(m);
        },
    };
    Ok((plan, Yield::NumZero))
}

/// `print` and `eprint` lower alike but for the descriptor: standard output for
/// `print`, standard error for `eprint`.
pub proof fn law_print_and_eprint_differ_only_in_descriptor(t: IrModel, type_text: Seq<char>)
    ensures
        match (print_route("print"@, t, type_text), print_route("eprint"@, t, type_text)) {
            (Ok(p), Ok(e)) => p.fd == 1 && e.fd == 2 && p.intrinsic == e.intrinsic && p.arg == e.arg,
            (Err(a), Err(b)) => a == b,
            _ => false,
        },
{
    reveal_strlit("print");
    reveal_strlit("eprint");
    assert("print"@ != "eprint"@) by {
        assert("print"@.len() != "eprint"@.len());
    }
}

/// What `__exit(code)` accepts: exactly one `Num` code.
pub open spec fn exit_check(arg_types: Seq<IrModel>) -> Result<(), Seq<char>> {
    if arg_types.len() != 1 {
        Err(arity_message("__exit"@, "1 argument"@, arg_types.len()))
    } else if !(arg_types[0] is F64) {
        Err("__exit expects a Num exit code"@)
    } else {
        Ok(())
    }
}

/// Check a `__exit(code)` call: the `Num` code is converted to an `i32` and passed to the
/// `__exit` intrinsic, which terminates the process. The call yields `$`.
pub fn plan_exit(arg_types: &Vec<IrType>) -> (r: Result<Yield, String>)
    ensures
        match (r, exit_check(ir_models(arg_types@))) {
            (Ok(y), Ok(())) => y == Yield::Unit,
            (Err(m), Err(n)) => m@ == n,
            _ => false,
        },
{
    proof {
        crate::codegen::ir::lemma_ir_models(arg_types@);
    }
    if arg_types.len() != 1 {
        return Err(arity_error("__exit", "1 argument", arg_types.len()));
    }
    if !arg_types[0].is_float() {
        return Err(String::from_str("__exit expects a Num exit code"));
    }
    Ok(Yield::Unit)
}

/// A struct `write` reads as a `Text` has its data pointer first and its integer length
/// second, as far as it has those fields.
pub open spec fn write_content_shape(t: IrModel) -> bool {
    t matches IrModel::Struct { fields } ==> (fields.len() >= 1 ==> fields[0] is Ptr) && (
    fields.len() >= 2 ==> fields[1] is Int)
}

/// What `write(content, fd)` accepts: a `Text` content (a struct with its data pointer
/// and length) and a `Num` descriptor. An error about an argument's type names it as the
/// code generator spells it (`content_text`, `fd_text`).
pub open spec fn write_check(arg_types: Seq<IrModel>, content_text: Seq<char>, fd_text: Seq<char>) -> Result<
    (),
    Seq<char>,
> {
    if arg_types.len() != 2 {
        Err(arity_message("write"@, "2 arguments (content, fd)"@, arg_types.len()))
    } else if !(arg_types[0] is Struct) {
        Err("write expects a Text content, got "@ + content_text)
    } else if arg_types[0]->Struct_fields.len() == 0 {
        Err(extract_failure("Failed to extract text data"@))
    } else if arg_types[0]->Struct_fields.len() == 1 {
        Err(extract_failure("Failed to extract text len"@))
    } else if !(arg_types[1] is F64) {
        Err("write expects a Num fd, got "@ + fd_text)
    } else {
        Ok(())
    }
}

/// Check a `write(content, fd)` call: the raw bytes of the `Text` are written to the
/// descriptor with no trailing newline, and the call yields the number of bytes
/// written, as a `Num`. `content_text` and `fd_text` are the code generator's spellings
/// of the two arguments' types, which an error names.
pub fn plan_write(arg_types: &Vec<IrType>, content_text: &str, fd_text: &str) -> (r: Result<
    Yield,
    String,
>)
    requires
        arg_types@.len() == 2 ==> write_content_shape(arg_types@[0]@),
    ensures
        match (r, write_check(ir_models(arg_types@), content_text@, fd_text@)) {
            (Ok(y), Ok(())) => y == Yield::BytesWritten,
            (Err(m), Err(n)) => m@ == n,
            _ => false,
        },
{
    proof {
        crate::codegen::ir::lemma_ir_models(arg_types@);
    }
    if arg_types.len() != 2 {
        return Err(arity_error("write", "2 arguments (content, fd)", arg_types.len()));
    }
    match &arg_types[0] {
        IrType::Struct { fields } => {
            proof {
                crate::codegen::ir::lemma_ir_models(fields@);
            }
            if fields.len() == 0 {
                return Err(extract_error("Failed to extract text data"));
            }
            if fields.len() == 1 {
                return Err(extract_error("Failed to extract text len"));
            }
        },
        _ => {
            let mut m = String::from_str("write expects a Text content, got ");
            m.append(content_text);
            return Err(m);
        },
    }
    if !arg_types[1].is_float() {
        let mut m = String::from_str("write expects a Num fd, got ");
        m.append(fd_text);
        return Err(m);
    }
    Ok(Yield::BytesWritten)
}

} // verus!
