use std::cell::RefCell;
use dojo_introspect::felt::Felt;
use dojo_introspect::manager::{
    felt_to_json_file_name, json_file_name_to_felt, IntrospectManager, SimpleManager, StoreTrait, Table,
};
use dojo_introspect::typedef::{ColumnDef, TypeDef};
use dojo_introspect::utils::selector::compute_selector_from_dojo_tag;

struct MemoryStore {
    dumped: RefCell<Vec<(Felt, String, usize)>>,
}

impl StoreTrait for MemoryStore {
    type Table = Table;

    fn dump(&self, table_id: Felt, data: &Table) -> bool {
        self.dumped.borrow_mut().push((table_id, data.name.clone(), data.fields.len()));
        true
    }

    fn load(&self, _table_id: Felt) -> Option<Table> {
        None
    }
}

fn manager() -> SimpleManager<MemoryStore> {
    SimpleManager::with_store(MemoryStore { dumped: RefCell::new(Vec::new()) })
}

fn col(tag: &str, ty: TypeDef) -> ColumnDef {
    ColumnDef { id: Felt::zero(), name: tag.to_string(), attributes: vec![], type_def: ty }
}

fn id(v: u128) -> Felt {
    Felt::from_u128(v)
}

#[test]
fn register_then_read_back() {
    let mut m = manager();
    assert!(m.register_table(id(1), "ns-Moves", vec![col("ns-player", TypeDef::ContractAddress), col("ns-left", TypeDef::U8)]));
    assert_eq!(m.store.dumped.borrow().as_slice(), &[(id(1), "ns-Moves".to_string(), 2)]);
    assert_eq!(m.get_table_name(id(1)).as_deref(), Some("ns-Moves"));
    let schema = m.get_table_schema(id(1)).unwrap();
    let names: Vec<&str> = schema.iter().map(|c| c.name.as_str()).collect();
    assert_eq!(names, vec!["ns-player", "ns-left"]);
    let table = m.get_table(id(1)).unwrap();
    assert_eq!(
        table.record_order,
        vec![compute_selector_from_dojo_tag("ns-player"), compute_selector_from_dojo_tag("ns-left")]
    );
    let left = m.get_table_field(id(1), compute_selector_from_dojo_tag("ns-left")).unwrap();
    assert!(matches!(left.type_def, TypeDef::U8));
    assert!(m.get_table_field(id(1), compute_selector_from_dojo_tag("ns-other")).is_none());
    let mut all: Vec<String> = m.get_table_fields(id(1)).unwrap().into_iter().map(|c| c.name).collect();
    all.sort();
    assert_eq!(all, vec!["ns-left".to_string(), "ns-player".to_string()]);
}

#[test]
fn registering_a_taken_id_changes_nothing() {
    let mut m = manager();
    assert!(m.register_table(id(1), "ns-A", vec![col("ns-a", TypeDef::U8)]));
    assert!(!m.register_table(id(1), "ns-B", vec![]));
    assert_eq!(m.get_table_name(id(1)).as_deref(), Some("ns-A"));
    assert_eq!(m.store.dumped.borrow().len(), 1);
    assert_eq!(m.tables.len(), 1);
}

#[test]
fn unknown_tables_are_absent() {
    let mut m = manager();
    assert!(!m.update_table(id(5), "ns-X", vec![col("ns-a", TypeDef::U8)]));
    assert!(m.get_table(id(5)).is_none());
    assert!(m.get_table_name(id(5)).is_none());
    assert!(m.get_table_schema(id(5)).is_none());
    assert!(m.get_table_field(id(5), id(0)).is_none());
    assert!(m.get_table_fields(id(5)).is_none());
    assert!(m.store.dumped.borrow().is_empty());
}

#[test]
fn update_renames_and_replaces_columns_but_keeps_the_record_order() {
    let mut m = manager();
    assert!(m.register_table(id(1), "ns-A", vec![col("ns-a", TypeDef::U8), col("ns-b", TypeDef::U8)]));
    assert!(m.register_table(id(2), "ns-Other", vec![]));
    assert!(m.update_table(id(1), "ns-A2", vec![col("ns-b", TypeDef::U16), col("ns-c", TypeDef::Bool)]));
    assert_eq!(m.get_table_name(id(1)).as_deref(), Some("ns-A2"));
    let b = m.get_table_field(id(1), compute_selector_from_dojo_tag("ns-b")).unwrap();
    assert!(matches!(b.type_def, TypeDef::U16));
    assert!(m.get_table_field(id(1), compute_selector_from_dojo_tag("ns-c")).is_some());
    // The new column `ns-c` is held but is not part of the record order.
    let schema: Vec<String> = m.get_table_schema(id(1)).unwrap().into_iter().map(|c| c.name).collect();
    assert_eq!(schema, vec!["ns-a".to_string(), "ns-b".to_string()]);
    assert_eq!(m.get_table_fields(id(1)).unwrap().len(), 3);
    assert_eq!(m.get_table_name(id(2)).as_deref(), Some("ns-Other"));
    assert_eq!(m.store.dumped.borrow().last().unwrap(), &(id(1), "ns-A2".to_string(), 3));
}

#[test]
fn a_later_column_with_the_same_selector_wins() {
    let mut m = manager();
    assert!(m.register_table(id(1), "ns-A", vec![col("ns-a", TypeDef::U8), col("ns-a", TypeDef::U32)]));
    let a = m.get_table_field(id(1), compute_selector_from_dojo_tag("ns-a")).unwrap();
    assert!(matches!(a.type_def, TypeDef::U32));
    assert_eq!(m.get_table_fields(id(1)).unwrap().len(), 1);
    assert_eq!(m.get_table(id(1)).unwrap().record_order.len(), 2);
}

#[test]
fn tables_built_from_parts_and_inserted() {
    let sel = compute_selector_from_dojo_tag("ns-a");
    let t = Table::from_parts(
        "ns-T".to_string(),
        vec![(sel, col("ns-a", TypeDef::U8)), (sel, col("ns-a", TypeDef::I8))],
        vec![sel],
    );
    assert_eq!(t.fields.len(), 1);
    let schema = t.get_schema();
    assert!(matches!(schema[0].type_def, TypeDef::I8));
    assert_eq!(t.columns().len(), 1);
    let copy = t.clone_table();
    assert_eq!(copy.name, "ns-T");
    let mut m = manager();
    m.insert_table(id(3), t);
    m.insert_table(id(3), copy);
    assert_eq!(m.tables.len(), 1);
    assert_eq!(m.get_table_name(id(3)).as_deref(), Some("ns-T"));
}

#[test]
fn table_file_names_are_padded_hex() {
    let name = felt_to_json_file_name(&id(0xab));
    assert_eq!(name, format!("0x{}ab.json", "0".repeat(30)));
    assert_eq!(json_file_name_to_felt(&name), Some(id(0xab)));
    let zero = felt_to_json_file_name(&id(0));
    assert_eq!(zero, format!("0x{}.json", "0".repeat(32)));
    assert_eq!(json_file_name_to_felt(&zero), Some(id(0)));
    // A value with more than 32 digits is written in full.
    let big = Felt::from_limbs(0x0123_4567_89ab_cdef_0000_0000_0000_0000, 5);
    let big_name = felt_to_json_file_name(&big);
    let expected = format!(
        "0x{:0>32x}.json",
        starknet_types_core::felt::Felt::from_hex("0x123456789abcdef000000000000000000000000000000000000000000000005").unwrap()
    );
    assert_eq!(big_name, expected);
    assert_eq!(json_file_name_to_felt(&big_name), Some(big));
    assert_eq!(json_file_name_to_felt("0x10.json"), Some(id(16)));
    assert_eq!(json_file_name_to_felt("0x10.txt"), None);
    assert_eq!(json_file_name_to_felt("zz.json"), None);
    assert_eq!(json_file_name_to_felt(".json"), None);
}

#[test]
fn refused_calls_do_not_read_the_column_names() {
    let mut m = manager();
    assert!(m.register_table(id(1), "ns-A", vec![col("ns-a", TypeDef::U8)]));
    // Names that are not tags: the id is taken, so nothing is read or written.
    assert!(!m.register_table(id(1), "ns-B", vec![col("not a tag", TypeDef::U8)]));
    // No table has this id, so nothing is read or written either.
    assert!(!m.update_table(id(2), "ns-B", vec![col("a-b-c", TypeDef::U8)]));
    assert_eq!(m.store.dumped.borrow().len(), 1);
    assert_eq!(m.tables.len(), 1);
}
