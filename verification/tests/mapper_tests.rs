use guardgen::mapper::{formater, has_prefix, id_mapper, str_eq, token_field_mapper};

#[test]
fn id_mapper_opcode_bits() {
    assert_eq!(id_mapper("op0507"), "OP(05, 07)");
    assert_eq!(id_mapper("op2631"), "OP(26, 31)");
}

#[test]
fn id_mapper_register_classes() {
    assert_eq!(id_mapper("R0004"), "R1");
    assert_eq!(id_mapper("R1115"), "R2");
    assert_eq!(id_mapper("R2731"), "R3");
    assert_eq!(id_mapper("R9999"), "R9999");
}

#[test]
fn id_mapper_flag_bits() {
    assert_eq!(id_mapper("fcbit1719"), "slice(inst->d, 17, 19)");
    assert_eq!(id_mapper("fcond2730"), "conds[slice(inst->d, 27, 30)]");
}

#[test]
fn id_mapper_fourth_register() {
    assert_eq!(id_mapper("reg4"), "R4");
}

#[test]
fn id_mapper_identity_fallback() {
    assert_eq!(id_mapper("unknown_field"), "unknown_field");
    // Names too short to carry a rule's offsets fall back to identity.
    assert_eq!(id_mapper("op12"), "op12");
    assert_eq!(id_mapper("R00"), "R00");
    assert_eq!(id_mapper("fcbit1"), "fcbit1");
    assert_eq!(id_mapper("fcond"), "fcond");
    assert_eq!(id_mapper(""), "");
}

#[test]
fn token_field_mapper_register_classes() {
    assert_eq!(token_field_mapper("R0004"), "get_reg1(inst)");
    assert_eq!(token_field_mapper("R1115"), "get_reg2(inst)");
    assert_eq!(token_field_mapper("R2731"), "get_reg3(inst)");
    assert_eq!(token_field_mapper("R5555"), "R5555");
}

#[test]
fn token_field_mapper_flag_bits() {
    assert_eq!(token_field_mapper("fcbit1719"), "slice(inst->d, 17, 19)");
    assert_eq!(token_field_mapper("fcond2730"), "slice(inst->d, 27, 30)");
}

#[test]
fn token_field_mapper_fourth_register_and_fallback() {
    assert_eq!(token_field_mapper("reg4"), "get_reg4(inst)");
    assert_eq!(token_field_mapper("other"), "other");
}

#[test]
fn formater_table() {
    assert_eq!(formater("op0507"), "%x");
    assert_eq!(formater("fcbit1719"), "%d");
    assert_eq!(formater("fcond2730"), "%s");
    assert_eq!(formater("R0004"), "%s");
    assert_eq!(formater("anything"), "%s");
}

#[test]
fn mapping_is_deterministic() {
    // The same field name always maps to the same accessor and format
    // specifier across invocations.
    for name in ["op0507", "R0004", "fcbit1719", "reg4", "plain"] {
        assert_eq!(id_mapper(name), id_mapper(name));
        assert_eq!(token_field_mapper(name), token_field_mapper(name));
        assert_eq!(formater(name), formater(name));
    }
}

#[test]
fn prefix_and_equality_helpers() {
    assert!(has_prefix("op0507", "op"));
    assert!(!has_prefix("o", "op"));
    assert!(has_prefix("anything", ""));
    assert!(str_eq("reg4", "reg4"));
    assert!(!str_eq("reg4", "reg"));
    assert!(!str_eq("reg", "reg4"));
}
