use release_updater::sql::{insert_pair, Metadata, SQLScript};

fn pairs(p: &[(&str, &str)]) -> Vec<(String, String)> {
    p.iter().map(|(a, b)| (a.to_string(), b.to_string())).collect()
}

fn script(queries: &str, replacements: &[(&str, &str)]) -> SQLScript {
    SQLScript {
        metadata: Metadata { replacements: pairs(replacements), ..Metadata::default() },
        queries: queries.to_string(),
    }
}

#[test]
fn line_ends_and_params() {
    let s = script("SELECT {col}\r\nFROM t;\r\n", &[]);
    assert_eq!(s.prepare(pairs(&[("{col}", "name")])), "SELECT name\nFROM t;\n");
}

#[test]
fn replacements_then_params() {
    let s = script("UPDATE {tbl} SET x = {val};", &[("{tbl}", "units_tables")]);
    assert_eq!(s.prepare(pairs(&[("{val}", "3")])), "UPDATE units_tables SET x = 3;");
}

#[test]
fn nested_replacements_resolve() {
    let s = script("{outer}", &[("{outer}", "A {inner} B"), ("{inner}", "C {deep}"), ("{deep}", "D")]);
    assert_eq!(s.prepare(vec![]), "A C D B");
}

#[test]
fn self_reference_is_left_alone() {
    let s = script("{a}", &[("{a}", "x{a}y")]);
    assert_eq!(s.prepare(vec![]), "x{a}y");
}

#[test]
fn cyclic_replacements_stop() {
    let s = script("{a}", &[("{a}", "<{b}>"), ("{b}", "[{a}]")]);
    let out = s.prepare(vec![]);
    assert!(out.starts_with("<["));
}

#[test]
fn insert_pair_keeps_keys_unique() {
    let mut p: Vec<(String, String)> = vec![];
    insert_pair(&mut p, "{a}".to_string(), "1".to_string());
    insert_pair(&mut p, "{b}".to_string(), "2".to_string());
    insert_pair(&mut p, "{a}".to_string(), "3".to_string());
    assert_eq!(p, pairs(&[("{a}", "3"), ("{b}", "2")]));
}

#[test]
fn empty_key_matches_everywhere() {
    let s = script("ab", &[]);
    assert_eq!(s.prepare(pairs(&[("", "-")])), "-a-b-");
}
