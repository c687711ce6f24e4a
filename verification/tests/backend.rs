use inkwell::builder::BuilderError;
use inkwell::context::Context;
use inkwell::types::BasicMetadataTypeEnum;
use inkwell::OptimizationLevel;
use qlang::ast::{Node, NodeType};
use qlang::codegen::{
    coerce_node_type, entry_outcome, name_of, Codegen, CodegenError, MachineType,
};
use qlang::span::Slice;

#[test]
fn declared_types_lower_to_machine_types() {
    assert_eq!(coerce_node_type(&NodeType::Bool), Some(MachineType::Bool));
    assert_eq!(coerce_node_type(&NodeType::Integer), Some(MachineType::Int32));
    assert_eq!(coerce_node_type(&NodeType::Float), Some(MachineType::Float32));
    assert_eq!(coerce_node_type(&NodeType::String), Some(MachineType::BytePointer));
    assert_eq!(coerce_node_type(&NodeType::Char), None);
    assert_eq!(coerce_node_type(&NodeType::Void), None);
    let function = NodeType::Fn { args: vec![NodeType::Integer], ret: Box::new(NodeType::Bool) };
    assert_eq!(coerce_node_type(&function), None);
}

#[test]
fn names_are_texts_of_the_source() {
    let source = "fn caf\u{e9}() -> int {}";
    assert_eq!(name_of(source, Slice { start: 3, end: 8 }), Some("caf\u{e9}"));
    assert_eq!(name_of(source, Slice { start: 3, end: 7 }), None);
    assert_eq!(name_of(source, Slice { start: 7, end: 8 }), None);
    assert_eq!(name_of(source, Slice { start: 5, end: 4 }), None);
    assert_eq!(name_of(source, Slice { start: 0, end: 500 }), None);
    assert_eq!(name_of(source, Slice { start: 2, end: 2 }), Some(""));
}

#[test]
fn interpret_emits_each_function() {
    let context = Context::create();
    let module = context.create_module("test");
    let codegen = Codegen::new(&context, module).unwrap();
    let code = "fn first(a: int, b: str) -> float { }\nfn second() -> int { first(1, \"x\"); }";
    assert_eq!(codegen.interpret(code), Ok(2));

    let first = codegen.module.get_function("first").unwrap();
    assert_eq!(first.count_params(), 2);
    assert_eq!(first.count_basic_blocks(), 1);
    let ty = first.get_type();
    assert!(!ty.is_var_arg());
    assert_eq!(ty.get_return_type(), Some(context.f32_type().into()));
    let params = ty.get_param_types();
    assert_eq!(params[0], BasicMetadataTypeEnum::from(context.i32_type()));
    assert!(params[1].is_pointer_type());

    let second = codegen.module.get_function("second").unwrap();
    assert_eq!(second.count_params(), 0);
    assert_eq!(second.get_type().get_return_type(), Some(context.i32_type().into()));
    assert!(codegen.module.get_function("third").is_none());
}

#[test]
fn interpret_refuses_what_it_cannot_emit() {
    let context = Context::create();
    let module = context.create_module("test");
    let codegen = Codegen::new(&context, module).unwrap();
    assert_eq!(codegen.interpret("fn f(a int) -> int {}"), Err(CodegenError::Syntax));
    assert_eq!(
        codegen.interpret("fn ok() -> int {} fn bad(c: char) -> int {} fn late() -> int {}"),
        Err(CodegenError::UnsupportedType)
    );
    assert!(codegen.module.get_function("ok").is_some());
    assert!(codegen.module.get_function("bad").is_none());
    assert!(codegen.module.get_function("late").is_none());
    assert_eq!(codegen.interpret("fn g() -> char {}"), Err(CodegenError::UnsupportedType));
    assert_eq!(codegen.interpret("const x = 1;"), Ok(0));
}

#[test]
fn create_function_checks_the_node_first() {
    let context = Context::create();
    let module = context.create_module("test");
    let codegen = Codegen::new(&context, module).unwrap();
    let source = "name";
    let name = Slice { start: 0, end: 4 };

    assert_eq!(
        codegen.create_function(source, &Node::Integer(1)),
        Err(CodegenError::ExpectedFunction)
    );
    let no_block = Node::FunctionDeclaration {
        name,
        params: vec![],
        return_type: NodeType::Bool,
        body: Box::new(Node::Null),
    };
    assert_eq!(codegen.create_function(source, &no_block), Err(CodegenError::ExpectedBlock));
    let no_name = Node::FunctionDeclaration {
        name: Slice { start: 2, end: 9 },
        params: vec![],
        return_type: NodeType::Bool,
        body: Box::new(Node::Block(vec![])),
    };
    assert_eq!(codegen.create_function(source, &no_name), Err(CodegenError::Name));
    let void = Node::FunctionDeclaration {
        name,
        params: vec![(name, NodeType::Integer)],
        return_type: NodeType::Void,
        body: Box::new(Node::Block(vec![])),
    };
    assert_eq!(codegen.create_function(source, &void), Err(CodegenError::UnsupportedType));
    assert!(codegen.module.get_function("name").is_none());

    let good = Node::FunctionDeclaration {
        name,
        params: vec![(name, NodeType::Bool)],
        return_type: NodeType::Bool,
        body: Box::new(Node::Block(vec![])),
    };
    assert_eq!(codegen.create_function(source, &good), Ok(()));
    let made = codegen.module.get_function("name").unwrap();
    assert_eq!(made.get_type().get_return_type(), Some(context.bool_type().into()));
    assert_eq!(
        codegen.create_entry(&Node::Null, made),
        Err(CodegenError::ExpectedBlock)
    );
    assert_eq!(made.count_basic_blocks(), 1);
}

#[test]
fn type_for_function_needs_supported_types() {
    let context = Context::create();
    let module = context.create_module("test");
    let codegen = Codegen::new(&context, module).unwrap();
    let s = Slice { start: 0, end: 0 };
    let ty = codegen
        .type_for_function(&vec![(s, NodeType::String), (s, NodeType::Float)], &NodeType::Integer)
        .unwrap();
    assert_eq!(ty.count_param_types(), 2);
    assert!(codegen.type_for_function(&vec![(s, NodeType::Char)], &NodeType::Integer).is_none());
    assert!(codegen.type_for_function(&vec![], &NodeType::Void).is_none());
    let function = NodeType::Fn { args: vec![], ret: Box::new(NodeType::Integer) };
    assert!(codegen.type_for_function(&vec![(s, function)], &NodeType::Integer).is_none());
}

#[test]
fn failures_of_llvm_are_back_end_errors() {
    assert_eq!(entry_outcome(Ok(())), Ok(()));
    assert_eq!(entry_outcome(Err(BuilderError::UnsetPosition)), Err(CodegenError::Backend));

    let context = Context::create();
    let module = context.create_module("owned");
    let _engine = module.create_jit_execution_engine(OptimizationLevel::None).unwrap();
    let second = module.create_jit_execution_engine(OptimizationLevel::None);
    assert!(second.is_err());
    assert!(matches!(
        Codegen::with_engine(&context, module, second),
        Err(CodegenError::Backend)
    ));

    let module = context.create_module("twice");
    let _engine = module.create_jit_execution_engine(OptimizationLevel::None).unwrap();
    assert!(matches!(Codegen::new(&context, module), Err(CodegenError::Backend)));

    let module = context.create_module("fresh");
    let engine = module.create_jit_execution_engine(OptimizationLevel::None);
    assert!(engine.is_ok());
    let made = Codegen::with_engine(&context, module, engine);
    assert!(made.is_ok());
    assert_eq!(made.ok().unwrap().interpret("fn f() -> int {}"), Ok(1));
}

#[test]
fn a_new_back_end_holds_what_it_was_given() {
    let context = Context::create();
    let module = context.create_module("given");
    let made = Codegen::new(&context, module).ok().unwrap();
    assert!(made.context == &context);
    assert_eq!(made.module.get_name().to_str(), Ok("given"));
    assert_eq!(made.interpret("fn kept() -> int {}"), Ok(1));
    assert!(made.module.get_function("kept").is_some());
}
