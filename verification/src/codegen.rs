//! The native back end: it lowers the declared types of a function to
//! machine types and emits an empty function for each declaration of a
//! program into an LLVM module.

use vstd::prelude::*;
use vstd::string::StringSliceAdditionalSpecFns;
use vstd::utf8::is_char_boundary;
use inkwell::basic_block::BasicBlock;
use inkwell::builder::{Builder, BuilderError};
use inkwell::context::Context;
use inkwell::execution_engine::ExecutionEngine;
use inkwell::module::Module;
use inkwell::support::LLVMString;
use inkwell::types::{BasicMetadataTypeEnum, BasicType, BasicTypeEnum, FunctionType};
use inkwell::values::FunctionValue;
use crate::ast::{trees, Node, NodeType, Tree};
use crate::grammar::program;
use crate::lexer::token_stream;
use crate::parser::{diagnostics_of, parse};
use crate::span::Slice;
use crate::text::substring;

verus! {

#[verifier::external_type_specification]
#[verifier::external_body]
pub struct ExContext(Context);

#[verifier::external_type_specification]
#[verifier::external_body]
pub struct ExModule<'ctx>(Module<'ctx>);

#[verifier::external_type_specification]
#[verifier::external_body]
pub struct ExBuilder<'ctx>(Builder<'ctx>);

#[verifier::external_type_specification]
#[verifier::external_body]
pub struct ExExecutionEngine<'ctx>(ExecutionEngine<'ctx>);

#[verifier::external_type_specification]
#[verifier::external_body]
pub struct ExFunctionType<'ctx>(FunctionType<'ctx>);

#[verifier::external_type_specification]
#[verifier::external_body]
pub struct ExFunctionValue<'ctx>(FunctionValue<'ctx>);

#[verifier::external_type_specification]
#[verifier::external_body]
pub struct ExBasicBlock<'ctx>(BasicBlock<'ctx>);

#[verifier::external_type_specification]
#[verifier::external_body]
pub struct ExBasicTypeEnum<'ctx>(BasicTypeEnum<'ctx>);

#[verifier::external_type_specification]
#[verifier::external_body]
pub struct ExBasicMetadataTypeEnum<'ctx>(BasicMetadataTypeEnum<'ctx>);

#[verifier::external_type_specification]
#[verifier::external_body]
pub struct ExLLVMString(LLVMString);

#[verifier::external_type_specification]
#[verifier::external_body]
pub struct ExBuilderError(BuilderError);

/// The machine types that values are lowered to.
#[derive(Clone, Copy, Debug, PartialEq, Eq, Structural)]
pub enum MachineType {
    /// A one-bit integer.
    Bool,
    /// A 32-bit integer.
    Int32,
    /// A 32-bit float.
    Float32,
    /// A pointer to bytes.
    BytePointer,
}

/// Why the back end did not emit a function.
#[derive(Clone, Copy, Debug, PartialEq, Eq, Structural)]
pub enum CodegenError {
    /// The source text has diagnostics.
    Syntax,
    /// The node is no function declaration.
    ExpectedFunction,
    /// A parameter or the result has a type without a machine type.
    UnsupportedType,
    /// The name's range is no text of the source.
    Name,
    /// The body of the function is no block.
    ExpectedBlock,
    /// LLVM reported a failure.
    Backend,
}

/// The machine type of a declared type; characters, `void` and function
/// types have none.
pub open spec fn lowered(t: NodeType) -> Option<MachineType> {
    match t {
        NodeType::Bool => Some(MachineType::Bool),
        NodeType::Integer => Some(MachineType::Int32),
        NodeType::Float => Some(MachineType::Float32),
        NodeType::String => Some(MachineType::BytePointer),
        NodeType::Char | NodeType::Void | NodeType::Fn { .. } => None,
    }
}

/// The result and every parameter have a machine type.
pub open spec fn supported(params: Seq<(Slice, NodeType)>, return_type: NodeType) -> bool {
    lowered(return_type) is Some && forall|k: int|
        0 <= k < params.len() ==> lowered((#[trigger] params[k]).1) is Some
}

/// The range `s` lies in `src` and starts and ends where characters do.
pub open spec fn names_text(src: Seq<u8>, s: Slice) -> bool {
    s.start <= s.end <= src.len() && is_char_boundary(src, s.start as int) && is_char_boundary(
        src,
        s.end as int,
    )
}

/// Why a node of a program with the text `src` cannot be emitted, if it
/// cannot: the first of these that applies.
pub open spec fn refusal(src: Seq<u8>, node: Tree) -> Option<CodegenError> {
    match node {
        Tree::FunctionDeclaration { name, params, return_type, body } => if !supported(
            params,
            return_type,
        ) {
            Some(CodegenError::UnsupportedType)
        } else if !names_text(src, name) {
            Some(CodegenError::Name)
        } else if !(*body is Block) {
            Some(CodegenError::ExpectedBlock)
        } else {
            None
        },
        _ => Some(CodegenError::ExpectedFunction),
    }
}

/// The refusal of the first node that cannot be emitted, if there is one.
pub open spec fn first_refusal(src: Seq<u8>, nodes: Seq<Tree>) -> Option<CodegenError>
    decreases nodes.len(),
{
    if nodes.len() == 0 {
        None
    } else {
        match refusal(src, nodes[0]) {
            Some(e) => Some(e),
            None => first_refusal(src, nodes.drop_first()),
        }
    }
}

/// The machine type of a declared type, if it has one.
pub fn coerce_node_type(t: &NodeType) -> (r: Option<MachineType>)
    ensures
        r == lowered(*t),
{
    match t {
        NodeType::Bool => Some(MachineType::Bool),
        NodeType::Integer => Some(MachineType::Int32),
        NodeType::Float => Some(MachineType::Float32),
        NodeType::String => Some(MachineType::BytePointer),
        NodeType::Char | NodeType::Void | NodeType::Fn { .. } => None,
    }
}

/// The text of `source` in the range `s`, if the range lies in the source
/// and starts and ends where characters do.
pub fn name_of<'a>(source: &'a str, s: Slice) -> (r: Option<&'a str>)
    ensures
        r is Some <==> names_text(source.spec_bytes(), s),
        r matches Some(t) ==> t.spec_bytes() == source.spec_bytes().subrange(
            s.start as int,
            s.end as int,
        ),
{
    let n = source.as_bytes().len();
    if s.start <= s.end && s.end <= n && source.is_char_boundary(s.start)
        && source.is_char_boundary(s.end) {
        Some(substring(source, s.start, s.end))
    } else {
        None
    }
}

/// `Module::create_jit_execution_engine` of inkwell, without optimization.
/// Nothing is claimed of the engine or of the error.
#[verifier::external_body]
fn jit_engine<'ctx>(module: &Module<'ctx>) -> Result<ExecutionEngine<'ctx>, LLVMString> {
    module.create_jit_execution_engine(inkwell::OptimizationLevel::None)
}

/// `Context::create_builder` of inkwell. Nothing is claimed of the builder.
#[verifier::external_body]
fn new_builder<'ctx>(context: &'ctx Context) -> Builder<'ctx> {
    context.create_builder()
}

/// `Context::bool_type` of inkwell, as a basic type. Nothing is claimed of
/// the type.
#[verifier::external_body]
fn bool_type<'ctx>(context: &'ctx Context) -> BasicTypeEnum<'ctx> {
    context.bool_type().into()
}

/// `Context::i32_type` of inkwell, as a basic type. Nothing is claimed of
/// the type.
#[verifier::external_body]
fn i32_type<'ctx>(context: &'ctx Context) -> BasicTypeEnum<'ctx> {
    context.i32_type().into()
}

/// `Context::f32_type` of inkwell, as a basic type. Nothing is claimed of
/// the type.
#[verifier::external_body]
fn f32_type<'ctx>(context: &'ctx Context) -> BasicTypeEnum<'ctx> {
    context.f32_type().into()
}

/// `IntType::ptr_type` of inkwell on the type of `Context::i8_type`, in the
/// default address space, as a basic type. Nothing is claimed of the type.
#[verifier::external_body]
fn byte_pointer_type<'ctx>(context: &'ctx Context) -> BasicTypeEnum<'ctx> {
    context.i8_type().ptr_type(inkwell::AddressSpace::default()).into()
}

/// The conversion of inkwell from a basic type to the type of a parameter.
/// Nothing is claimed of the result.
#[verifier::external_body]
fn as_parameter<'ctx>(t: BasicTypeEnum<'ctx>) -> BasicMetadataTypeEnum<'ctx> {
    t.into()
}

/// `BasicType::fn_type` of inkwell, for a function that is not variadic.
/// Nothing is claimed of the type.
#[verifier::external_body]
fn function_type<'ctx>(
    result: BasicTypeEnum<'ctx>,
    params: &Vec<BasicMetadataTypeEnum<'ctx>>,
) -> FunctionType<'ctx> {
    result.fn_type(params.as_slice(), false)
}

/// `Module::add_function` of inkwell, without a linkage. Nothing is claimed
/// of the function that comes back.
#[verifier::external_body]
fn add_function<'ctx>(module: &Module<'ctx>, name: &str, ty: FunctionType<'ctx>) -> FunctionValue<
    'ctx,
> {
    module.add_function(name, ty, None)
}

/// `Context::append_basic_block` of inkwell, for a block named `entry`.
/// Nothing is claimed of the block.
#[verifier::external_body]
fn append_entry<'ctx>(context: &'ctx Context, function: FunctionValue<'ctx>) -> BasicBlock<'ctx> {
    context.append_basic_block(function, "entry")
}

/// `Builder::position_at_end` of inkwell.
#[verifier::external_body]
fn position_at_end<'ctx>(builder: &Builder<'ctx>, block: BasicBlock<'ctx>) {
    builder.position_at_end(block)
}

/// `Builder::build_return` of inkwell, without a value; the instruction
/// that it gives is dropped. Nothing is claimed of whether it succeeds.
#[verifier::external_body]
fn build_return<'ctx>(builder: &Builder<'ctx>) -> Result<(), BuilderError> {
    builder.build_return(None).map(|_| ())
}

/// What comes of an entry block: it stands if LLVM built its return, and
/// is a `Backend` failure otherwise.
pub fn entry_outcome(built: Result<(), BuilderError>) -> (r: Result<(), CodegenError>)
    ensures
        r is Ok <==> built is Ok,
        r matches Err(e) ==> e == CodegenError::Backend,
{
    match built {
        Ok(()) => Ok(()),
        Err(_) => Err(CodegenError::Backend),
    }
}

/// A back end that emits into one LLVM module.
pub struct Codegen<'ctx> {
    pub context: &'ctx Context,
    pub module: Module<'ctx>,
    pub builder: Builder<'ctx>,
    pub execution_engine: ExecutionEngine<'ctx>,
}

impl<'ctx> Codegen<'ctx> {
    /// A back end for `module`, with an execution engine and a builder of
    /// its own. Whether LLVM makes the engine is for LLVM to decide: if it
    /// does, the back end works in the given context and emits into the
    /// given module; if it does not, the failure is `Backend`.
    pub fn new(context: &'ctx Context, module: Module<'ctx>) -> (r: Result<Self, CodegenError>)
        ensures
            r matches Ok(made) ==> made.context == context && made.module == module,
            r matches Err(e) ==> e == CodegenError::Backend,
    {
        let engine = jit_engine(&module);
        Self::with_engine(context, module, engine)
    }

    /// A back end for `module` with the engine that LLVM made for it, or
    /// `Backend` if LLVM made none.
    pub fn with_engine(
        context: &'ctx Context,
        module: Module<'ctx>,
        engine: Result<ExecutionEngine<'ctx>, LLVMString>,
    ) -> (r: Result<Self, CodegenError>)
        ensures
            r is Ok <==> engine is Ok,
            r matches Ok(made) ==> made.context == context && made.module == module && Ok::<
                ExecutionEngine<'ctx>,
                LLVMString,
            >(made.execution_engine) == engine,
            r matches Err(e) ==> e == CodegenError::Backend,
    {
        match engine {
            Ok(execution_engine) => Ok(
                Codegen { context, module, builder: new_builder(context), execution_engine },
            ),
            Err(_) => Err(CodegenError::Backend),
        }
    }

    /// The LLVM type for a machine type.
    fn machine_type(&self, t: MachineType) -> BasicTypeEnum<'ctx> {
        match t {
            MachineType::Bool => bool_type(self.context),
            MachineType::Int32 => i32_type(self.context),
            MachineType::Float32 => f32_type(self.context),
            MachineType::BytePointer => byte_pointer_type(self.context),
        }
    }

    /// The LLVM type of a function with the given parameters and result
    /// type. There is one exactly if the result and every parameter have a
    /// machine type.
    pub fn type_for_function(&self, params: &Vec<(Slice, NodeType)>, return_type: &NodeType) -> (r:
        Option<FunctionType<'ctx>>)
        ensures
            r is Some <==> supported(params@, *return_type),
    {
        let result = match coerce_node_type(return_type) {
            Some(t) => self.machine_type(t),
            None => {
                return None;
            },
        };
        let mut lowered_params: Vec<BasicMetadataTypeEnum<'ctx>> = Vec::new();
        let mut k: usize = 0;
        while k < params.len()
            invariant
                k <= params@.len(),
                forall|j: int| 0 <= j < k ==> lowered((#[trigger] params@[j]).1) is Some,
            decreases params@.len() - k,
        {
            match coerce_node_type(&params[k].1) {
                Some(t) => {
                    lowered_params.push(as_parameter(self.machine_type(t)));
                },
                None => {
                    return None;
                },
            }
            k = k + 1;
        }
        Some(function_type(result, &lowered_params))
    }

    /// Gives the function `created` its entry block, which only returns.
    /// The body must be a block; `Backend` if LLVM cannot build the return.
    pub fn create_entry(&self, body: &Node, created: FunctionValue<'ctx>) -> (r: Result<
        (),
        CodegenError,
    >)
        ensures
            !(body@ is Block) ==> r == Err::<(), CodegenError>(CodegenError::ExpectedBlock),
            body@ is Block ==> r is Ok || r == Err::<(), CodegenError>(CodegenError::Backend),
    {
        match body {
            Node::Block(_) => {},
            _ => {
                return Err(CodegenError::ExpectedBlock);
            },
        }
        let entry = append_entry(self.context, created);
        position_at_end(&self.builder, entry);
        entry_outcome(build_return(&self.builder))
    }

    /// Emits the function that `func` declares in a program with the text
    /// `source`: adds it to the module under its name, with the type its
    /// signature lowers to, and gives it an entry block. Nothing is added
    /// if the node is refused.
    pub fn create_function(&self, source: &str, func: &Node) -> (r: Result<(), CodegenError>)
        ensures
            match refusal(source.spec_bytes(), func@) {
                Some(e) => r == Err::<(), CodegenError>(e),
                None => r is Ok || r == Err::<(), CodegenError>(CodegenError::Backend),
            },
    {
        proof {
            reveal_with_fuel(crate::ast::tree_of, 2);
        }
        match func {
            Node::FunctionDeclaration { name, params, return_type, body } => {
                let ty = match self.type_for_function(params, return_type) {
                    Some(ty) => ty,
                    None => {
                        return Err(CodegenError::UnsupportedType);
                    },
                };
                let text = match name_of(source, *name) {
                    Some(text) => text,
                    None => {
                        return Err(CodegenError::Name);
                    },
                };
                match **body {
                    Node::Block(_) => {},
                    _ => {
                        return Err(CodegenError::ExpectedBlock);
                    },
                }
                let created = add_function(&self.module, text, ty);
                self.create_entry(body, created)
            },
            _ => Err(CodegenError::ExpectedFunction),
        }
    }

    /// Parses `code` and emits its functions in order; gives their number.
    /// `Syntax` if the text has diagnostics, the refusal of the first
    /// function that cannot be emitted, `Backend` if LLVM reported a
    /// failure before that.
    pub fn interpret(&self, code: &str) -> (r: Result<usize, CodegenError>)
        ensures
            ({
                let outcome = program(token_stream(code.spec_bytes()), code.spec_bytes());
                if outcome.diagnostics.len() > 0 {
                    r == Err::<usize, CodegenError>(CodegenError::Syntax)
                } else {
                    match first_refusal(code.spec_bytes(), outcome.program.functions) {
                        Some(e) => r == Err::<usize, CodegenError>(e) || r == Err::<
                            usize,
                            CodegenError,
                        >(CodegenError::Backend),
                        None => (r matches Ok(n) && n == outcome.program.functions.len()) || r
                            == Err::<usize, CodegenError>(CodegenError::Backend),
                    }
                }
            }),
    {
        let (ast, errors) = parse(code);
        if errors.len() > 0 {
            return Err(CodegenError::Syntax);
        }
        let ghost src = code.spec_bytes();
        let ghost all = trees(ast.functions@);
        let mut k: usize = 0;
        assert(diagnostics_of(errors@).len() == 0);
        assert(all.subrange(0, all.len() as int) =~= all);
        while k < ast.functions.len()
            invariant
                src == code.spec_bytes(),
                all == trees(ast.functions@),
                program(token_stream(src), src).diagnostics.len() == 0,
                program(token_stream(src), src).program.functions == all,
                k <= ast.functions@.len(),
                first_refusal(src, all) == first_refusal(src, all.subrange(k as int, all.len() as int)),
            decreases ast.functions@.len() - k,
        {
            let ghost rest = all.subrange(k as int, all.len() as int);
            assert(rest[0] == ast.functions@[k as int]@);
            assert(rest.drop_first() =~= all.subrange(k + 1, all.len() as int));
            match self.create_function(code, &ast.functions[k]) {
                Ok(()) => {},
                Err(e) => {
                    return Err(e);
                },
            }
            k = k + 1;
        }
        assert(all.subrange(k as int, all.len() as int) =~= Seq::<Tree>::empty());
        Ok(k)
    }
}

} // verus!
