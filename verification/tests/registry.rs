use iyes_cli::{CliCommandSystems, CliCommands, HandlerId, RenameError, VariantKind};

fn id(bits: u64) -> HandlerId {
    HandlerId::from_bits(bits)
}

fn sorted_names(table: &CliCommands) -> Vec<String> {
    let mut names = table.iter_names();
    names.sort();
    names
}

#[test]
fn new_table_is_empty() {
    let table = CliCommands::new();
    assert!(table.iter_names().is_empty());
    assert!(!table.command_available("help"));
    assert_eq!(table.lookup("help", VariantKind::NoArgs), None);
    assert_eq!(table.lookup("help", VariantKind::Args), None);
}

#[test]
fn default_table_is_empty() {
    let table = CliCommands::default();
    assert!(table.iter_names().is_empty());
}

#[test]
fn handler_id_keeps_its_bits() {
    assert_eq!(id(0x1_0000_0002).to_bits(), 0x1_0000_0002);
    assert_eq!(id(u64::MAX).bits, u64::MAX);
    assert_ne!(id(1), id(2));
}

#[test]
fn lookup_finds_registered_handler() {
    let mut table = CliCommands::new();
    table.register("help", VariantKind::NoArgs, id(11));
    assert_eq!(table.lookup("help", VariantKind::NoArgs), Some(id(11)));
    assert_eq!(table.lookup("help", VariantKind::Args), None);
    assert!(table.command_available("help"));
    assert_eq!(sorted_names(&table), vec!["help".to_string()]);
}

#[test]
fn register_leaves_other_variant_untouched() {
    let mut table = CliCommands::new();
    table.register("spawn", VariantKind::Args, id(2));
    table.register("spawn", VariantKind::NoArgs, id(1));
    table.register("spawn", VariantKind::NoArgs, id(3));
    assert_eq!(table.lookup("spawn", VariantKind::NoArgs), Some(id(3)));
    assert_eq!(table.lookup("spawn", VariantKind::Args), Some(id(2)));
}

#[test]
fn register_leaves_other_commands_untouched() {
    let mut table = CliCommands::new();
    table.register("spawn", VariantKind::NoArgs, id(1));
    table.register("despawn", VariantKind::NoArgs, id(2));
    assert_eq!(table.lookup("spawn", VariantKind::NoArgs), Some(id(1)));
    assert_eq!(table.lookup("despawn", VariantKind::NoArgs), Some(id(2)));
    assert_eq!(table.lookup("spawn", VariantKind::Args), None);
}

#[test]
fn reregistering_replaces_the_slot() {
    let mut table = CliCommands::new();
    table.register("hello", VariantKind::Args, id(5));
    table.register("hello", VariantKind::Args, id(6));
    assert_eq!(table.lookup("hello", VariantKind::Args), Some(id(6)));
    assert_eq!(table.iter_names().len(), 1);
}

#[test]
fn both_variants_can_be_registered() {
    let mut table = CliCommands::new();
    table.register("A", VariantKind::NoArgs, id(1));
    table.register("A", VariantKind::Args, id(2));
    assert_eq!(table.lookup("A", VariantKind::NoArgs), Some(id(1)));
    assert_eq!(table.lookup("A", VariantKind::Args), Some(id(2)));
    assert_eq!(sorted_names(&table), vec!["A".to_string()]);
}

#[test]
fn names_are_case_sensitive() {
    let mut table = CliCommands::new();
    table.register("Help", VariantKind::NoArgs, id(1));
    assert!(table.command_available("Help"));
    assert!(!table.command_available("help"));
    assert_eq!(table.lookup("help", VariantKind::NoArgs), None);
}

#[test]
fn deregistering_the_only_variant_removes_the_command() {
    let mut table = CliCommands::new();
    table.register("A", VariantKind::NoArgs, id(1));
    table.deregister("A", VariantKind::NoArgs);
    assert!(!table.command_available("A"));
    assert!(table.iter_names().is_empty());
    assert_eq!(table.lookup("A", VariantKind::NoArgs), None);
}

#[test]
fn deregistering_one_of_two_variants_keeps_the_command() {
    let mut table = CliCommands::new();
    table.register("A", VariantKind::NoArgs, id(1));
    table.register("A", VariantKind::Args, id(2));
    table.deregister("A", VariantKind::Args);
    assert!(table.command_available("A"));
    assert_eq!(table.lookup("A", VariantKind::NoArgs), Some(id(1)));
    assert_eq!(table.lookup("A", VariantKind::Args), None);
    table.deregister("A", VariantKind::NoArgs);
    assert!(!table.command_available("A"));
}

#[test]
fn deregistering_what_is_not_there_changes_nothing() {
    let mut table = CliCommands::new();
    table.deregister("ghost", VariantKind::NoArgs);
    assert!(table.iter_names().is_empty());
    table.register("A", VariantKind::NoArgs, id(1));
    table.deregister("A", VariantKind::Args);
    table.deregister("B", VariantKind::NoArgs);
    assert_eq!(table.lookup("A", VariantKind::NoArgs), Some(id(1)));
    assert_eq!(sorted_names(&table), vec!["A".to_string()]);
}

#[test]
fn unregister_removes_both_variants() {
    let mut table = CliCommands::new();
    table.register("A", VariantKind::NoArgs, id(1));
    table.register("A", VariantKind::Args, id(2));
    table.register("B", VariantKind::Args, id(3));
    table.unregister_clicommand("A");
    assert!(!table.command_available("A"));
    assert_eq!(table.lookup("A", VariantKind::NoArgs), None);
    assert_eq!(table.lookup("A", VariantKind::Args), None);
    assert_eq!(table.lookup("B", VariantKind::Args), Some(id(3)));
    table.unregister_clicommand("A");
    assert_eq!(sorted_names(&table), vec!["B".to_string()]);
}

#[test]
fn take_returns_the_handler_and_empties_the_slot() {
    let mut table = CliCommands::new();
    table.register("A", VariantKind::NoArgs, id(1));
    table.register("A", VariantKind::Args, id(2));
    assert_eq!(table.take("A", VariantKind::NoArgs), Some(id(1)));
    assert_eq!(table.lookup("A", VariantKind::NoArgs), None);
    assert_eq!(table.lookup("A", VariantKind::Args), Some(id(2)));
    assert_eq!(table.take("A", VariantKind::NoArgs), None);
    assert_eq!(table.take("A", VariantKind::Args), Some(id(2)));
    assert!(!table.command_available("A"));
    assert_eq!(table.take("missing", VariantKind::Args), None);
}

#[test]
fn put_back_undoes_take() {
    let mut table = CliCommands::new();
    table.register("A", VariantKind::NoArgs, id(1));
    let handler = table.take("A", VariantKind::NoArgs).unwrap();
    assert!(!table.command_available("A"));
    table.put_back("A", VariantKind::NoArgs, handler);
    assert!(table.command_available("A"));
    assert_eq!(table.lookup("A", VariantKind::NoArgs), Some(id(1)));
    assert_eq!(table.lookup("A", VariantKind::Args), None);
}

#[test]
fn put_back_recreates_a_command_removed_meanwhile() {
    let mut table = CliCommands::new();
    table.register("A", VariantKind::NoArgs, id(1));
    table.register("A", VariantKind::Args, id(2));
    let handler = table.take("A", VariantKind::Args).unwrap();
    table.unregister_clicommand("A");
    assert!(!table.command_available("A"));
    table.put_back("A", VariantKind::Args, handler);
    assert_eq!(table.lookup("A", VariantKind::Args), Some(id(2)));
    assert_eq!(table.lookup("A", VariantKind::NoArgs), None);
}

#[test]
fn rename_moves_the_command() {
    let mut table = CliCommands::new();
    table.register("old", VariantKind::NoArgs, id(1));
    table.register("old", VariantKind::Args, id(2));
    table.register("other", VariantKind::NoArgs, id(3));
    assert_eq!(table.rename_command("old", "new"), Ok(()));
    assert!(!table.command_available("old"));
    assert!(table.command_available("new"));
    assert_eq!(table.lookup("new", VariantKind::NoArgs), Some(id(1)));
    assert_eq!(table.lookup("new", VariantKind::Args), Some(id(2)));
    assert_eq!(table.lookup("old", VariantKind::NoArgs), None);
    assert_eq!(table.lookup("other", VariantKind::NoArgs), Some(id(3)));
    assert_eq!(sorted_names(&table), vec!["new".to_string(), "other".to_string()]);
}

#[test]
fn rename_to_a_taken_name_fails_and_changes_nothing() {
    let mut table = CliCommands::new();
    table.register("old", VariantKind::NoArgs, id(1));
    table.register("new", VariantKind::Args, id(2));
    assert_eq!(table.rename_command("old", "new"), Err(RenameError::NameConflict));
    assert_eq!(table.lookup("old", VariantKind::NoArgs), Some(id(1)));
    assert_eq!(table.lookup("old", VariantKind::Args), None);
    assert_eq!(table.lookup("new", VariantKind::Args), Some(id(2)));
    assert_eq!(table.lookup("new", VariantKind::NoArgs), None);
    assert_eq!(sorted_names(&table), vec!["new".to_string(), "old".to_string()]);
}

#[test]
fn rename_to_the_same_name_is_a_conflict() {
    let mut table = CliCommands::new();
    table.register("A", VariantKind::NoArgs, id(1));
    assert_eq!(table.rename_command("A", "A"), Err(RenameError::NameConflict));
    assert_eq!(table.lookup("A", VariantKind::NoArgs), Some(id(1)));
}

#[test]
fn rename_of_an_unknown_command_fails() {
    let mut table = CliCommands::new();
    table.register("A", VariantKind::NoArgs, id(1));
    assert_eq!(table.rename_command("missing", "new"), Err(RenameError::UnknownCommand));
    assert!(!table.command_available("new"));
    assert_eq!(sorted_names(&table), vec!["A".to_string()]);
}

#[test]
fn rename_reports_the_conflict_before_the_unknown_name() {
    let mut table = CliCommands::new();
    table.register("A", VariantKind::NoArgs, id(1));
    assert_eq!(table.rename_command("missing", "A"), Err(RenameError::NameConflict));
}

#[test]
fn iter_names_lists_every_command_once() {
    let mut table = CliCommands::new();
    table.register("hello", VariantKind::Args, id(1));
    table.register("help", VariantKind::NoArgs, id(2));
    table.register("spawn", VariantKind::NoArgs, id(3));
    table.register("spawn", VariantKind::Args, id(4));
    table.register("despawn", VariantKind::NoArgs, id(5));
    assert_eq!(
        sorted_names(&table),
        vec![
            "despawn".to_string(),
            "hello".to_string(),
            "help".to_string(),
            "spawn".to_string()
        ]
    );
}

#[test]
fn many_commands_are_kept_apart() {
    let mut table = CliCommands::new();
    for i in 0..200u64 {
        table.register(&format!("cmd{}", i), VariantKind::NoArgs, id(i));
    }
    for i in (0..200u64).step_by(2) {
        table.deregister(&format!("cmd{}", i), VariantKind::NoArgs);
    }
    assert_eq!(table.iter_names().len(), 100);
    for i in 0..200u64 {
        let expected = if i % 2 == 1 { Some(id(i)) } else { None };
        assert_eq!(table.lookup(&format!("cmd{}", i), VariantKind::NoArgs), expected);
    }
}

#[test]
fn slots_of_a_command_are_set_and_read_by_kind() {
    let mut slots = CliCommandSystems::vacant();
    assert!(slots.is_empty());
    assert_eq!(slots.get(VariantKind::NoArgs), None);
    assert_eq!(slots.get(VariantKind::Args), None);
    slots.set(VariantKind::Args, Some(id(4)));
    assert!(!slots.is_empty());
    assert_eq!(slots.get(VariantKind::Args), Some(id(4)));
    assert_eq!(slots.get(VariantKind::NoArgs), None);
    slots.set(VariantKind::NoArgs, Some(id(5)));
    assert_eq!(slots.noargs, Some(id(5)));
    assert_eq!(slots.args, Some(id(4)));
    slots.set(VariantKind::Args, None);
    assert!(!slots.is_empty());
    slots.set(VariantKind::NoArgs, None);
    assert!(slots.is_empty());
}
