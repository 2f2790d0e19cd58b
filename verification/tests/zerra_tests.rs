use zerra_core::compilation::CompilationError;
use zerra_core::locale::i18n;
use zerra_core::zerra::{ListItem, Progress, Query, Zerra};

#[test]
fn a_fresh_zerra_has_one_blank_query() {
    let z = Zerra::fresh("id-1".to_string(), 9875);
    assert_eq!(z.id, "id-1");
    assert_eq!(z.title, "Title");
    assert!(matches!(z.progress, Progress::NotStarted));
    assert_eq!(z.flow.len(), 1);
    let q = &z.flow[0];
    assert_eq!(q.key, 9875);
    assert_eq!(q.question, "");
    assert_eq!(q.revelation, "");
    assert!(q.answer.is_none());
    assert!(q.comment.is_none());
    assert!(q.subflow.is_empty());
    assert!(!q.skippable);
    assert!(q.visible);
}

#[test]
fn a_copy_keeps_everything_but_the_id() {
    let mut z = Zerra::fresh("old".to_string(), 1);
    z.title = "আলোচনা".to_string();
    let copy = z.with_id("new".to_string());
    assert_eq!(copy.id, "new");
    assert_eq!(copy.title, "আলোচনা");
    assert_eq!(copy.flow.len(), 1);
    assert_eq!(copy.flow[0].key, 1);
}

#[test]
fn blank_queries_carry_their_key() {
    let q = Query::blank(42);
    assert_eq!(q.key, 42);
    assert!(q.visible);
}

#[test]
fn list_items_carry_what_the_row_had() {
    let item = ListItem::new("id".to_string(), "Nom che??".to_string(), 1700000000);
    assert_eq!(item.id, "id");
    assert_eq!(item.name, "Nom che??");
    assert_eq!(item.last_modified, 1700000000);
}

#[test]
fn bangla_gets_its_own_numerals() {
    let bn = i18n("bn");
    assert_eq!(bn.index_format, "১.১)");
    assert_eq!(bn.page_number_format, "১");
}

#[test]
fn unknown_languages_fall_back_to_english() {
    let en = i18n("en");
    assert_eq!(en.index_format, "1.");
    assert_eq!(en.page_number_format, "1");
    let other = i18n("fr");
    assert_eq!(other.index_format, "1.");
    assert_eq!(other.page_number_format, "1");
}

#[test]
fn compilation_errors_describe_their_stage() {
    assert_eq!(
        CompilationError::TypstError("bad markup".to_string()).message(),
        "Compilation error: bad markup"
    );
    assert_eq!(
        CompilationError::FontError("missing face".to_string()).message(),
        "Font loading error: missing face"
    );
    assert_eq!(
        CompilationError::PdfError("empty".to_string()).message(),
        "PDF generation error: empty"
    );
    assert_eq!(CompilationError::IoError("disk".to_string()).message(), "IO error: disk");
}
