use inkwell::context::Context;
use serene::namespace::is_valid_name;
use serene::{create_context, Compiler, Error, Namespace};

fn key(text: &str) -> String {
    String::from(text)
}

#[test]
fn new_session_is_empty() {
    let context = create_context();
    let mut compiler = Compiler::new(&context);
    assert_eq!(compiler.namespace_count(), 0);
    assert!(compiler.current_ns().is_none());
    assert_eq!(compiler.resolve_key(&key("core")), None);
}

#[test]
fn session_works_in_the_context_it_was_given() {
    let context = create_context();
    let other = create_context();
    let compiler = Compiler::new(&context);
    assert!(std::ptr::eq(compiler.context(), &context));
    assert!(!std::ptr::eq(compiler.context(), &other));
    assert!(std::ptr::eq(compiler.context, &context));
    assert!(std::ptr::eq(compiler.builder(), &compiler.builder));
}

#[test]
fn name_and_source_path_lead_to_one_namespace() {
    let context = create_context();
    let mut compiler = Compiler::new(&context);
    assert_eq!(compiler.create_ns(key("user"), None), Ok(()));
    assert_eq!(
        compiler.create_ns(key("abc.xyz"), Some("/path/to/abc/xyz.srn")),
        Ok(())
    );
    assert_eq!(compiler.resolve_key(&key("abc.xyz")), Some(1));
    assert_eq!(compiler.resolve_key(&key("/path/to/abc/xyz.srn")), Some(1));
    let by_name = compiler.namespace(&key("abc.xyz")).unwrap();
    let by_path = compiler.namespace(&key("/path/to/abc/xyz.srn")).unwrap();
    assert!(std::ptr::eq(by_name, by_path));
    let other = compiler.namespace(&key("user")).unwrap();
    assert!(!std::ptr::eq(by_name, other));
}

#[test]
fn a_change_through_one_key_is_seen_through_the_other() {
    let context = create_context();
    let mut compiler = Compiler::new(&context);
    compiler
        .create_ns(key("abc.xyz"), Some("/path/to/abc/xyz.srn"))
        .unwrap();
    let signature = context.void_type().fn_type(&[], false);

    assert_eq!(compiler.set_current_ns(key("/path/to/abc/xyz.srn")), Ok(()));
    let defined = compiler
        .current_ns()
        .unwrap()
        .define_function(key("main"), signature)
        .unwrap();

    assert_eq!(compiler.set_current_ns(key("abc.xyz")), Ok(()));
    assert_eq!(
        compiler.current_ns().unwrap().get_function(&key("main")),
        Some(defined)
    );
    let by_name = compiler.namespace(&key("abc.xyz")).unwrap();
    assert_eq!(by_name.get_function(&key("main")), Some(defined));
    assert_eq!(by_name.name(), "abc.xyz");
    assert_eq!(by_name.source_path(), Some(&key("/path/to/abc/xyz.srn")));
}

#[test]
fn name_with_separator_is_refused() {
    let context = create_context();
    let mut compiler = Compiler::new(&context);
    assert_eq!(compiler.create_ns(key("abc/xyz"), None), Err(Error::InvalidName));
    assert_eq!(compiler.create_ns(key("/"), None), Err(Error::InvalidName));
    assert_eq!(compiler.namespace_count(), 0);
    assert!(!is_valid_name("abc/xyz"));
    assert!(!is_valid_name("xyz/"));
    assert!(is_valid_name("abc.xyz"));
    assert!(is_valid_name(""));
    assert!(is_valid_name("\u{3bb}.\u{1f600}"));
    assert!(!is_valid_name("\u{3bb}/\u{1f600}"));
    assert!(!is_valid_name("\u{1f600}\u{3bb}/"));
    assert!(Namespace::new(&context, key("a/b"), None).is_err());
}

#[test]
fn existing_namespace_is_never_replaced() {
    let context = create_context();
    let mut compiler = Compiler::new(&context);
    compiler.create_ns(key("core"), None).unwrap();
    compiler.set_current_ns(key("core")).unwrap();
    let signature = context.void_type().fn_type(&[], false);
    let defined = compiler
        .current_ns()
        .unwrap()
        .define_function(key("main"), signature)
        .unwrap();

    assert_eq!(compiler.create_ns(key("core"), None), Err(Error::DuplicateNamespace));
    assert_eq!(
        compiler.create_ns(key("core"), Some("/src/core.srn")),
        Err(Error::DuplicateNamespace)
    );
    assert_eq!(compiler.namespace_count(), 1);
    assert_eq!(compiler.resolve_key(&key("/src/core.srn")), None);
    let kept = compiler.namespace(&key("core")).unwrap();
    assert_eq!(kept.get_function(&key("main")), Some(defined));
}

#[test]
fn source_path_in_use_is_refused() {
    let context = create_context();
    let mut compiler = Compiler::new(&context);
    compiler.create_ns(key("one"), Some("/src/one.srn")).unwrap();
    assert_eq!(
        compiler.create_ns(key("two"), Some("/src/one.srn")),
        Err(Error::DuplicateNamespace)
    );
    // A source path without a separator may not shadow a name either.
    assert_eq!(
        compiler.create_ns(key("three"), Some("one")),
        Err(Error::DuplicateNamespace)
    );
    assert_eq!(compiler.namespace_count(), 1);
    assert_eq!(compiler.resolve_key(&key("two")), None);
    assert_eq!(compiler.resolve_key(&key("three")), None);
}

#[test]
fn selecting_an_unknown_namespace_fails() {
    let context = create_context();
    let mut compiler = Compiler::new(&context);
    assert_eq!(compiler.set_current_ns(key("core")), Err(Error::UnknownNamespace));
    assert!(compiler.current_ns().is_none());
    compiler.create_ns(key("core"), None).unwrap();
    assert_eq!(compiler.set_current_ns(key("core")), Ok(()));
    assert_eq!(compiler.set_current_ns(key("other")), Err(Error::UnknownNamespace));
    assert_eq!(compiler.current_ns().unwrap().name(), "core");
}

#[test]
fn selection_stays_until_reselected() {
    let context = create_context();
    let mut compiler = Compiler::new(&context);
    compiler.create_ns(key("first"), None).unwrap();
    compiler.create_ns(key("second"), None).unwrap();
    compiler.set_current_ns(key("first")).unwrap();
    compiler.create_ns(key("third"), None).unwrap();
    assert_eq!(compiler.current_ns().unwrap().name(), "first");
    compiler.set_current_ns(key("second")).unwrap();
    assert_eq!(compiler.current_ns().unwrap().name(), "second");
}

#[test]
fn function_table_and_cursor() {
    let context = Context::create();
    let mut ns = Namespace::new(&context, key("core"), None).unwrap();
    let signature = context.void_type().fn_type(&[], false);
    assert!(!ns.has_current_fn());
    assert_eq!(ns.get_function(&key("main")), None);
    assert_eq!(ns.enter_function(&key("main")), Err(Error::UnknownFunction));

    let main = ns.define_function(key("main"), signature).unwrap();
    let helper = ns.define_function(key("helper"), signature).unwrap();
    assert!(main != helper);
    assert_eq!(
        ns.define_function(key("main"), signature),
        Err(Error::DuplicateFunction)
    );
    assert_eq!(ns.get_function(&key("main")), Some(main));
    assert_eq!(ns.get_function(&key("helper")), Some(helper));
    assert!(!ns.has_current_fn());

    assert_eq!(ns.enter_function(&key("helper")), Ok(()));
    assert!(ns.has_current_fn());
    assert_eq!(ns.current_fn(), helper);
    assert_eq!(ns.enter_function(&key("missing")), Err(Error::UnknownFunction));
    assert_eq!(ns.current_fn(), helper);
    assert_eq!(ns.enter_function(&key("main")), Ok(()));
    assert_eq!(ns.current_fn(), main);
}

#[test]
fn cursor_is_on_a_function_of_the_module() {
    let context = Context::create();
    let mut ns = Namespace::new(&context, key("core"), None).unwrap();
    let signature = context.i64_type().fn_type(&[], false);
    ns.define_function(key("answer"), signature).unwrap();
    ns.enter_function(&key("answer")).unwrap();
    assert_eq!(ns.module().get_function("answer"), Some(ns.current_fn()));
}

#[test]
fn session_gives_the_current_function() {
    let context = create_context();
    let mut compiler = Compiler::new(&context);
    compiler.create_ns(key("core"), None).unwrap();
    compiler.set_current_ns(key("core")).unwrap();
    let signature = context.void_type().fn_type(&[], false);
    let ns = compiler.current_ns().unwrap();
    let main = ns.define_function(key("main"), signature).unwrap();
    ns.enter_function(&key("main")).unwrap();
    assert_eq!(compiler.current_fn(), main);
}

#[test]
fn namespace_text_shows_the_module() {
    let context = create_context();
    let mut compiler = Compiler::new(&context);
    compiler.create_ns(key("core"), Some("/src/core.srn")).unwrap();
    compiler.create_ns(key("other"), None).unwrap();
    compiler.set_current_ns(key("core")).unwrap();
    let signature = context.void_type().fn_type(&[], false);
    compiler
        .current_ns()
        .unwrap()
        .define_function(key("main"), signature)
        .unwrap();

    let text = compiler.compile_ns_str(key("core"));
    assert!(text.contains("core"));
    assert!(text.contains("@main"));
    assert_eq!(compiler.compile_ns_str(key("/src/core.srn")), text);
    let other = compiler.compile_ns_str(key("other"));
    assert!(other.contains("other"));
    assert!(!other.contains("@main"));
    assert_eq!(compiler.namespace(&key("core")).unwrap().compile(), text);
}

#[test]
fn namespace_text_changes_with_what_is_generated_only() {
    let context = Context::create();
    let mut ns = Namespace::new(&context, key("core"), None).unwrap();
    let signature = context.void_type().fn_type(&[], false);
    let empty = ns.compile();
    assert!(empty.contains("core"));
    assert!(!empty.contains("@main"));
    assert_eq!(ns.compile(), empty);

    ns.define_function(key("main"), signature).unwrap();
    let defined = ns.compile();
    assert!(defined != empty);
    assert!(defined.contains("declare void @main()"));

    assert_eq!(ns.define_function(key("main"), signature), Err(Error::DuplicateFunction));
    assert_eq!(ns.compile(), defined);
    ns.enter_function(&key("main")).unwrap();
    assert_eq!(ns.compile(), defined);
    assert_eq!(ns.module().print_to_string().to_string(), defined);
}

#[test]
fn both_keys_give_the_text_of_one_namespace() {
    let context = create_context();
    let mut compiler = Compiler::new(&context);
    compiler.create_ns(key("abc.xyz"), Some("/path/to/abc/xyz.srn")).unwrap();
    compiler.create_ns(key("user"), None).unwrap();
    compiler.set_current_ns(key("/path/to/abc/xyz.srn")).unwrap();
    let signature = context.i64_type().fn_type(&[], false);
    compiler
        .current_ns()
        .unwrap()
        .define_function(key("answer"), signature)
        .unwrap();

    let by_name = compiler.compile_ns_str(key("abc.xyz"));
    let by_path = compiler.compile_ns_str(key("/path/to/abc/xyz.srn"));
    assert_eq!(by_name, by_path);
    assert!(by_name.contains("declare i64 @answer()"));
    assert_eq!(
        compiler.namespace(&key("abc.xyz")).unwrap().compile(),
        by_name
    );
    assert!(compiler.compile_ns_str(key("user")) != by_name);
}

#[test]
fn table_and_module_hold_the_same_functions() {
    let context = Context::create();
    let mut ns = Namespace::new(&context, key("core"), None).unwrap();
    assert!(ns.module().get_first_function().is_none());
    assert_eq!(ns.module().get_functions().count(), 0);
    let signature = context.void_type().fn_type(&[], false);

    let main = ns.define_function(key("main"), signature).unwrap();
    let held: Vec<_> = ns.module().get_functions().collect();
    assert_eq!(held, vec![main]);

    let helper = ns.define_function(key("helper"), signature).unwrap();
    assert!(helper != main);
    let held: Vec<_> = ns.module().get_functions().collect();
    assert_eq!(held.len(), 2);
    assert!(held.contains(&main));
    assert!(held.contains(&helper));

    assert!(ns.define_function(key("main"), signature).is_err());
    assert_eq!(ns.module().get_functions().count(), 2);
    ns.enter_function(&key("helper")).unwrap();
    assert!(ns.module().get_functions().any(|f| f == ns.current_fn()));
}

#[test]
fn a_new_namespace_of_a_session_holds_no_function() {
    let context = create_context();
    let mut compiler = Compiler::new(&context);
    compiler.create_ns(key("one"), None).unwrap();
    compiler.set_current_ns(key("one")).unwrap();
    let signature = context.void_type().fn_type(&[], false);
    compiler.current_ns().unwrap().define_function(key("main"), signature).unwrap();
    compiler.create_ns(key("two"), Some("/src/two.srn")).unwrap();
    let two = compiler.namespace(&key("two")).unwrap();
    assert!(two.module().get_first_function().is_none());
    let one = compiler.namespace(&key("one")).unwrap();
    assert_eq!(one.module().get_functions().count(), 1);
}
