use kumojs::{Binding, CompileError, Compiler, MAX_LOCALS};

#[test]
fn a_new_context_is_empty_at_depth_zero() {
    let compiler = Compiler::new();
    assert_eq!(compiler.depth(), 0);
    assert!(compiler.bytecode().is_empty());
    assert!(compiler.disassembly().is_empty());
    assert_eq!(compiler.resolve_variable("x"), None);
}

#[test]
fn scopes_count_up_and_down() {
    let mut compiler = Compiler::new();
    compiler.enter_scope();
    compiler.enter_scope();
    assert_eq!(compiler.depth(), 2);
    compiler.exit_scope();
    assert_eq!(compiler.depth(), 1);
    compiler.exit_scope();
    assert_eq!(compiler.depth(), 0);
}

#[test]
fn a_declaration_at_depth_zero_is_global() {
    let mut compiler = Compiler::new();
    assert_eq!(compiler.declare_variable(String::from("x")), Ok(()));
    assert_eq!(compiler.resolve_variable("x"), Some(Binding::Global));
    assert_eq!(compiler.resolve_variable("y"), None);
    assert_eq!(Binding::Global.depth(), 0);
}

#[test]
fn declaring_a_global_twice_keeps_one() {
    let mut compiler = Compiler::new();
    assert_eq!(compiler.declare_variable(String::from("x")), Ok(()));
    assert_eq!(compiler.declare_variable(String::from("x")), Ok(()));
    assert_eq!(compiler.resolve_variable("x"), Some(Binding::Global));
}

#[test]
fn a_declaration_inside_a_scope_takes_the_next_slot() {
    let mut compiler = Compiler::new();
    compiler.enter_scope();
    assert_eq!(compiler.declare_variable(String::from("a")), Ok(()));
    assert_eq!(compiler.declare_variable(String::from("b")), Ok(()));
    assert_eq!(compiler.resolve_variable("a"), Some(Binding::Local { slot: 0, depth: 1 }));
    assert_eq!(compiler.resolve_variable("b"), Some(Binding::Local { slot: 1, depth: 1 }));
    assert_eq!(Binding::Local { slot: 1, depth: 1 }.depth(), 1);
}

#[test]
fn an_inner_binding_shadows_the_outer_until_its_scope_ends() {
    let mut compiler = Compiler::new();
    assert_eq!(compiler.declare_variable(String::from("x")), Ok(()));
    compiler.enter_scope();
    assert_eq!(compiler.resolve_variable("x"), Some(Binding::Global));
    assert_eq!(compiler.declare_variable(String::from("x")), Ok(()));
    assert_eq!(compiler.resolve_variable("x"), Some(Binding::Local { slot: 0, depth: 1 }));
    compiler.exit_scope();
    assert_eq!(compiler.depth(), 0);
    assert_eq!(compiler.resolve_variable("x"), Some(Binding::Global));
}

#[test]
fn a_local_shadows_a_local_of_an_outer_scope() {
    let mut compiler = Compiler::new();
    compiler.enter_scope();
    assert_eq!(compiler.declare_variable(String::from("x")), Ok(()));
    assert_eq!(compiler.declare_variable(String::from("y")), Ok(()));
    compiler.enter_scope();
    assert_eq!(compiler.declare_variable(String::from("x")), Ok(()));
    assert_eq!(compiler.resolve_variable("x"), Some(Binding::Local { slot: 2, depth: 2 }));
    assert_eq!(compiler.resolve_variable("y"), Some(Binding::Local { slot: 1, depth: 1 }));
    compiler.exit_scope();
    assert_eq!(compiler.resolve_variable("x"), Some(Binding::Local { slot: 0, depth: 1 }));
    assert_eq!(compiler.resolve_variable("y"), Some(Binding::Local { slot: 1, depth: 1 }));
    compiler.exit_scope();
    assert_eq!(compiler.resolve_variable("x"), None);
    assert_eq!(compiler.resolve_variable("y"), None);
}

#[test]
fn a_later_declaration_at_the_same_depth_shadows_the_earlier() {
    let mut compiler = Compiler::new();
    compiler.enter_scope();
    assert_eq!(compiler.declare_variable(String::from("x")), Ok(()));
    assert_eq!(compiler.declare_variable(String::from("x")), Ok(()));
    assert_eq!(compiler.resolve_variable("x"), Some(Binding::Local { slot: 1, depth: 1 }));
}

#[test]
fn leaving_a_scope_frees_its_slots() {
    let mut compiler = Compiler::new();
    compiler.enter_scope();
    assert_eq!(compiler.declare_variable(String::from("a")), Ok(()));
    compiler.enter_scope();
    assert_eq!(compiler.declare_variable(String::from("b")), Ok(()));
    assert_eq!(compiler.declare_variable(String::from("c")), Ok(()));
    compiler.exit_scope();
    compiler.enter_scope();
    assert_eq!(compiler.declare_variable(String::from("d")), Ok(()));
    assert_eq!(compiler.resolve_variable("d"), Some(Binding::Local { slot: 1, depth: 2 }));
    assert_eq!(compiler.resolve_variable("b"), None);
    assert_eq!(compiler.resolve_variable("c"), None);
}

#[test]
fn the_table_holds_256_locals_and_no_more() {
    assert_eq!(MAX_LOCALS, 256);
    let mut compiler = Compiler::new();
    compiler.enter_scope();
    for i in 0..256 {
        assert_eq!(compiler.declare_variable(format!("v{}", i)), Ok(()));
    }
    assert_eq!(compiler.resolve_variable("v255"), Some(Binding::Local { slot: 255, depth: 1 }));
    assert_eq!(compiler.declare_variable(String::from("one_too_many")), Err(CompileError::TooManyLocals));
    assert_eq!(compiler.resolve_variable("one_too_many"), None);
    assert_eq!(compiler.resolve_variable("v0"), Some(Binding::Local { slot: 0, depth: 1 }));
    assert!(compiler.bytecode().is_empty());
}

#[test]
fn a_full_table_takes_locals_again_once_a_scope_is_left() {
    let mut compiler = Compiler::new();
    compiler.enter_scope();
    assert_eq!(compiler.declare_variable(String::from("outer")), Ok(()));
    compiler.enter_scope();
    for i in 0..255 {
        assert_eq!(compiler.declare_variable(format!("v{}", i)), Ok(()));
    }
    assert_eq!(compiler.declare_variable(String::from("x")), Err(CompileError::TooManyLocals));
    compiler.exit_scope();
    assert_eq!(compiler.declare_variable(String::from("x")), Ok(()));
    assert_eq!(compiler.resolve_variable("x"), Some(Binding::Local { slot: 1, depth: 1 }));
}

#[test]
fn globals_have_no_limit() {
    let mut compiler = Compiler::new();
    for i in 0..300 {
        assert_eq!(compiler.declare_variable(format!("g{}", i)), Ok(()));
    }
    assert_eq!(compiler.resolve_variable("g299"), Some(Binding::Global));
}

#[test]
fn add_local_records_the_given_depth() {
    let mut compiler = Compiler::new();
    compiler.enter_scope();
    compiler.enter_scope();
    assert_eq!(compiler.add_local(String::from("a"), 1), Ok(()));
    assert_eq!(compiler.add_local(String::from("b"), 2), Ok(()));
    assert_eq!(compiler.resolve_variable("a"), Some(Binding::Local { slot: 0, depth: 1 }));
    assert_eq!(compiler.resolve_variable("b"), Some(Binding::Local { slot: 1, depth: 2 }));
    compiler.exit_scope();
    assert_eq!(compiler.resolve_variable("a"), Some(Binding::Local { slot: 0, depth: 1 }));
    assert_eq!(compiler.resolve_variable("b"), None);
}

#[test]
fn add_local_fails_on_a_full_table() {
    let mut compiler = Compiler::new();
    compiler.enter_scope();
    for i in 0..256 {
        assert_eq!(compiler.add_local(format!("v{}", i), 1), Ok(()));
    }
    assert_eq!(compiler.add_local(String::from("x"), 1), Err(CompileError::TooManyLocals));
    assert_eq!(compiler.resolve_variable("x"), None);
}

#[test]
fn an_inner_context_starts_empty_one_scope_further_in() {
    let mut outer = Compiler::new();
    assert_eq!(outer.declare_variable(String::from("g")), Ok(()));
    outer.enter_scope();
    assert_eq!(outer.declare_variable(String::from("a")), Ok(()));
    let mut inner = outer.new_enclosing();
    assert_eq!(inner.depth(), 2);
    assert!(inner.bytecode().is_empty());
    assert!(inner.disassembly().is_empty());
    assert_eq!(inner.resolve_variable("a"), None);
    assert_eq!(inner.resolve_variable("g"), None);
    assert_eq!(inner.declare_variable(String::from("p")), Ok(()));
    assert_eq!(inner.resolve_variable("p"), Some(Binding::Local { slot: 0, depth: 2 }));
}

#[test]
fn the_slot_table_can_be_read() {
    let mut compiler = Compiler::new();
    assert!(compiler.locals().is_empty());
    compiler.enter_scope();
    assert_eq!(compiler.declare_variable(String::from("a")), Ok(()));
    compiler.enter_scope();
    assert_eq!(compiler.declare_variable(String::from("b")), Ok(()));
    let table: Vec<(String, usize)> =
        compiler.locals().iter().map(|local| (local.name.clone(), local.depth)).collect();
    assert_eq!(table, vec![(String::from("a"), 1), (String::from("b"), 2)]);
    compiler.exit_scope();
    assert_eq!(compiler.locals().len(), 1);
}

#[test]
fn an_inner_context_knows_the_context_around_it() {
    let mut outer = Compiler::new();
    outer.emit_op(kumojs::Operation::LoadNull);
    assert!(outer.enclosing().is_none());
    let inner = outer.new_enclosing();
    let around = inner.enclosing().unwrap();
    assert_eq!(around.depth(), 0);
    assert_eq!(around.bytecode(), &vec![0x05]);
    let innermost = inner.new_enclosing();
    assert_eq!(innermost.depth(), 2);
    assert_eq!(innermost.enclosing().unwrap().depth(), 1);
}
