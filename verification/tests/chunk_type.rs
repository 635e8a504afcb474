use turbopack_support::chunk_type::{EcmascriptChunkType, ModuleId, batch_module_id, sort_by_module_id};
use turbopack_support::execution_context::{ExecutionContext, NodeExecutionEnvironment};

#[test]
fn chunk_items_sorted_by_module_id_stably() {
    let items = vec![
        (ModuleId::String("b".to_string()), "b1"),
        (ModuleId::Number(7), "n7"),
        (ModuleId::String("a".to_string()), "a"),
        (ModuleId::Number(2), "n2"),
        (ModuleId::String("b".to_string()), "b2"),
        (ModuleId::Number(7), "n7bis"),
    ];
    assert_eq!(sort_by_module_id(items), vec!["n2", "n7", "n7bis", "a", "b1", "b2"]);
}

#[test]
fn empty_batch_is_ordered_by_empty_text() {
    assert!(matches!(batch_module_id(None), ModuleId::String(ref s) if s.is_empty()));
    assert!(matches!(batch_module_id(Some(ModuleId::Number(3))), ModuleId::Number(3)));
}

#[test]
fn ecmascript_chunk_type_is_not_style() {
    let t = EcmascriptChunkType::default();
    assert!(!t.is_style());
    assert_eq!(t.value_to_string(), "ecmascript");
}

#[test]
fn execution_context_environment() {
    let c = ExecutionContext::new("/project".to_string(), 1u8, 2u8);
    assert_eq!(c.environment(), NodeExecutionEnvironment::Server);
    assert!(!c.is_worker_environment());
    assert_eq!(c.project_path(), "/project");
    assert_eq!(*c.chunking_context(), 1);
    assert_eq!(*c.env(), 2);
    let w = ExecutionContext::new_with_environment("/p".to_string(), (), (), NodeExecutionEnvironment::ServiceWorker);
    assert!(w.is_worker_environment());
    assert_eq!(NodeExecutionEnvironment::default(), NodeExecutionEnvironment::Server);
}

#[test]
fn sorting_ignores_the_order_items_come_in() {
    let a = vec![
        (ModuleId::String("b".to_string()), 1),
        (ModuleId::Number(7), 2),
        (ModuleId::String("a".to_string()), 3),
        (ModuleId::Number(2), 4),
    ];
    let b = vec![
        (ModuleId::Number(2), 4),
        (ModuleId::String("a".to_string()), 3),
        (ModuleId::String("b".to_string()), 1),
        (ModuleId::Number(7), 2),
    ];
    assert_eq!(sort_by_module_id(a), vec![4, 2, 3, 1]);
    assert_eq!(sort_by_module_id(b), vec![4, 2, 3, 1]);
}
