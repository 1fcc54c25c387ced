use sisa_assembler::symbol_table::SymbolTable;

#[test]
fn constants_and_addresses_round_trip() {
    let mut t = SymbolTable::new();
    assert!(t.put_constant("answer".to_string(), 42).is_ok());
    assert!(t.put_address("spot".to_string(), 0x1234).is_ok());

    let c = t.get_symbol("answer").unwrap();
    assert_eq!(c.get_value(), 42);
    assert!(!c.is_address());

    let a = t.get_symbol("spot").unwrap();
    assert_eq!(a.get_value(), 0x1234);
    assert!(a.is_address());
}

#[test]
fn second_definition_is_rejected_and_first_wins() {
    let mut t = SymbolTable::new();
    assert!(t.put_constant("name".to_string(), 1).is_ok());

    let again = t.put_constant("name".to_string(), 2);
    assert_eq!(again.unwrap_err(), "Symbol name is already defined");
    let as_address = t.put_address("name".to_string(), 3);
    assert_eq!(as_address.unwrap_err(), "Symbol name is already defined");

    let kept = t.get_symbol("name").unwrap();
    assert_eq!(kept.get_value(), 1);
    assert!(!kept.is_address());
}

#[test]
fn missing_symbol_is_reported_by_name() {
    let t = SymbolTable::new();
    assert_eq!(t.get_symbol("ghostly").unwrap_err(), "Symbol ghostly isn't defined");
}

#[test]
fn layout_validity_ignores_section_order() {
    let mut t = SymbolTable::new();

    t.set_text_section(0, 4);
    t.set_data_section(4, 4);
    assert!(t.is_valid_layout());

    // The same ranges with the roles swapped are still disjoint.
    t.set_text_section(4, 4);
    t.set_data_section(0, 4);
    assert!(t.is_valid_layout());

    // Overlap is found whichever section lies lower.
    t.set_text_section(0, 6);
    t.set_data_section(4, 4);
    assert!(!t.is_valid_layout());
    t.set_text_section(4, 4);
    t.set_data_section(0, 6);
    assert!(!t.is_valid_layout());
}

#[test]
fn program_end_is_the_larger_section_end() {
    let mut t = SymbolTable::new();
    t.set_text_section(0, 10);
    t.set_data_section(0x80, 0x10);
    assert_eq!(t.get_text_section_base_address(), 0);
    assert_eq!(t.get_data_section_base_address(), 0x80);
    assert_eq!(t.get_program_end_address(), 0x90);

    t.set_data_section(2, 3);
    assert_eq!(t.get_program_end_address(), 10);
}
