use dsh_pet::config::{parse_config, render_config, PetEntry};

fn entry(rx: &str, ry: &str, facing: &str, scale: &str, on_top: bool, no_move: bool) -> PetEntry {
    PetEntry {
        rx: rx.to_string(),
        ry: ry.to_string(),
        facing: facing.to_string(),
        scale: scale.to_string(),
        on_top,
        no_move,
    }
}

fn same(a: &PetEntry, b: &PetEntry) -> bool {
    a.rx == b.rx && a.ry == b.ry && a.facing == b.facing && a.scale == b.scale
        && a.on_top == b.on_top && a.no_move == b.no_move
}

fn parsed(text: &str) -> Vec<PetEntry> {
    let mut pets = vec![PetEntry::new()];
    parse_config(text, &mut pets);
    pets
}

const SAVED: &str = "{\n  \"version\": 2,\n  \"pets\": [\n    {\"rx\": 0.500000, \"ry\": 0.250000, \"facing\": \"right\", \"scale\": 0.85, \"on_top\": false, \"no_move\": true},\n    {\"rx\": null, \"ry\": null, \"facing\": \"left\", \"scale\": 0.72, \"on_top\": true, \"no_move\": false}\n  ]\n}\n";

#[test]
fn default_entry_matches_a_fresh_pet() {
    let d = PetEntry::new();
    assert!(same(&d, &entry("null", "null", "left", "0.72", true, false)));
}

#[test]
fn render_writes_the_version_two_layout() {
    let pets = vec![
        entry("0.500000", "0.250000", "right", "0.85", false, true),
        entry("null", "null", "left", "0.72", true, false),
    ];
    assert_eq!(render_config(&pets), SAVED);
}

#[test]
fn render_of_no_pets_has_an_empty_array() {
    assert_eq!(render_config(&[]), "{\n  \"version\": 2,\n  \"pets\": [\n  ]\n}\n");
}

#[test]
fn parse_reads_every_pet_of_the_array() {
    let pets = parsed(SAVED);
    assert_eq!(pets.len(), 2);
    assert!(same(&pets[0], &entry("0.500000", "0.250000", "right", "0.85", false, true)));
    assert!(same(&pets[1], &entry("null", "null", "left", "0.72", true, false)));
}

#[test]
fn saved_pets_are_read_back() {
    let pets = vec![
        entry("0.123456", "0.987654", "right", "1", false, false),
        entry("null", "0.5", "left", "0.5", true, true),
        entry("1e-3", "-2", "sideways", "0.72", false, true),
    ];
    let text = render_config(&pets);
    let back = parsed(&text);
    assert_eq!(back.len(), 3);
    for i in 0..3 {
        assert!(same(&back[i], &pets[i]));
    }
}

#[test]
fn empty_or_missing_array_keeps_the_pets() {
    let pets = parsed("{\"pets\": []}");
    assert_eq!(pets.len(), 1);
    assert!(same(&pets[0], &PetEntry::new()));
    let pets = parsed("");
    assert_eq!(pets.len(), 1);
    let pets = parsed("{\"version\": 2}");
    assert_eq!(pets.len(), 1);
    let pets = parsed("{\"pets\": 3}");
    assert_eq!(pets.len(), 1);
}

#[test]
fn unknown_and_nested_keys_are_passed_over() {
    let pets = parsed(
        "{\"rx\": 0.9, \"meta\": {\"pets\": 1, \"list\": [1, {\"b\": 2}]}, \"pets\": [{\"facing\": \"right\", \"extra\": [1,2], \"scale\": 0.5}]}",
    );
    assert_eq!(pets.len(), 1);
    assert!(same(&pets[0], &entry("null", "null", "right", "0.5", true, false)));
}

#[test]
fn values_are_trimmed_and_flags_compare_to_true() {
    let pets = parsed(
        "{\"pets\": [{\"rx\": \t0.25 \n, \"scale\": \u{3000}0.9\u{3000}, \"on_top\": \"true\", \"no_move\": TRUE}]}",
    );
    assert_eq!(pets.len(), 1);
    assert_eq!(pets[0].rx, "0.25");
    assert_eq!(pets[0].scale, "0.9");
    assert!(pets[0].on_top);
    assert!(!pets[0].no_move);
}

#[test]
fn facing_is_kept_as_written() {
    let pets = parsed("{\"pets\": [{\"facing\": \" right \"}]}");
    assert_eq!(pets[0].facing, " right ");
}

#[test]
fn later_pets_key_wins_when_not_empty() {
    let pets = parsed(
        "{\"pets\": [{\"facing\": \"a\"}], \"pets\": [{\"facing\": \"b\"}, {\"facing\": \"c\"}], \"pets\": []}",
    );
    assert_eq!(pets.len(), 2);
    assert_eq!(pets[0].facing, "b");
    assert_eq!(pets[1].facing, "c");
}

#[test]
fn unterminated_text_ends_the_scan() {
    let pets = parsed("{\"pets\": [{\"facing\": \"ri");
    assert_eq!(pets.len(), 1);
    assert_eq!(pets[0].facing, "ri");
    let pets = parsed("{\"pets\": [{\"rx\": 0.5");
    assert_eq!(pets[0].rx, "0.5");
}

#[test]
fn items_that_are_not_objects_are_skipped() {
    let pets = parsed("{\"pets\": [1, \"x\", {\"no_move\": true}, null]}");
    assert_eq!(pets.len(), 1);
    assert!(pets[0].no_move);
}

#[test]
fn strings_in_skipped_values_are_passed_over_whole() {
    let pets = parsed(
        "{\"name\": \"a,b]}\", \"note\": [\"x\\\"],\", {\"k\": \"}\"}], \"pets\": [{\"facing\": \"right\"}]}",
    );
    assert_eq!(pets.len(), 1);
    assert_eq!(pets[0].facing, "right");
}
